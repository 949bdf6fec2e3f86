//! What holds of a queue as a whole.

use vstd::prelude::*;
use vstd::string::*;

use super::channel::{self, LeaseDir, MessageFile, Model};
use super::enqueue;
use super::leases;
use super::order;
use super::{AckResult, QueueError, QueuedMessage, MAX_CHANNEL_BYTES, MAX_MESSAGES_PER_CHANNEL};
use crate::text;

verus! {

// ---------------------------------------------------------------------------
// Order

pub open spec fn all_valid(files: Seq<MessageFile>, cli_id: Seq<char>) -> bool {
    forall|i: int| 0 <= i < files.len() ==> channel::valid_file(#[trigger] files[i], cli_id)
}

pub open spec fn sequence_of(f: MessageFile) -> u64 {
    (f.message->Ok_0).sequence
}

proof fn lemma_files_ascend(files: Seq<MessageFile>, cli_id: Seq<char>, i: int, j: int)
    requires
        channel::sorted(files),
        all_valid(files, cli_id),
        0 <= i < j < files.len(),
    ensures
        sequence_of(files[i]) <= sequence_of(files[j]),
{
    let (a, b) = (files[i], files[j]);
    let (x, y) = (a.message->Ok_0, b.message->Ok_0);
    assert(channel::valid_file(a, cli_id) && channel::valid_file(b, cli_id));
    if x.sequence > y.sequence {
        order::lemma_padded_sequence_order(
            y.sequence,
            x.sequence,
            "-"@ + y.message_id@ + ".json"@,
            "-"@ + x.message_id@ + ".json"@,
        );
        order::lemma_name_lt_transitive(a.name@, b.name@, a.name@);
        order::lemma_name_lt_irreflexive(a.name@);
    }
}

proof fn lemma_sift(m: Model, files: Seq<MessageFile>, cli_id: Seq<char>)
    requires
        channel::sorted(files),
    ensures
        channel::sorted(leases::sift(m, files, cli_id).pending),
        all_valid(leases::sift(m, files, cli_id).pending, cli_id),
        forall|i: int|
            0 <= i < leases::sift(m, files, cli_id).pending.len() ==> files.contains(
                #[trigger] leases::sift(m, files, cli_id).pending[i],
            ),
    decreases files.len(),
{
    if files.len() > 0 {
        let front = files.drop_last();
        let last = files.last();
        lemma_sift(m, front, cli_id);
        let p = leases::sift(m, front, cli_id).pending;
        let q = leases::sift(m, files, cli_id).pending;
        assert forall|i: int| 0 <= i < p.len() implies order::name_lt(
            (#[trigger] p[i]).name@,
            last.name@,
        ) && files.contains(p[i]) by {
            assert(front.contains(p[i]));
            let k = front.index_of(p[i]);
            assert(files[k] == p[i]);
            assert(order::name_lt(files[k].name@, files[files.len() - 1].name@));
        }
        assert(files[files.len() - 1] == last);
        assert forall|i: int| 0 <= i < q.len() implies files.contains(#[trigger] q[i]) by {
            if i < p.len() {
                assert(q[i] == p[i]);
            }
        }
        assert(channel::sorted(q)) by {
            assert forall|i: int, j: int| 0 <= i < j < q.len() implies order::name_lt(
                (#[trigger] q[i]).name@,
                (#[trigger] q[j]).name@,
            ) by {
                assert(q[i] == p[i]);
                if j < p.len() {
                    assert(q[j] == p[j]);
                }
            }
        }
    }
}

proof fn lemma_recovered_sorted(m: Model, all: Seq<LeaseDir>, cli_id: Seq<char>, now: u64)
    requires
        channel::sorted(m.pending),
    ensures
        channel::sorted(channel::recover_leases(m, all, cli_id, now).pending),
    decreases all.len(),
{
    if all.len() > 0 {
        let l = all.last();
        lemma_recovered_sorted(m, all.drop_last(), cli_id, now);
        let mid = channel::recover_leases(m, all.drop_last(), cli_id, now);
        channel::lemma_salvage_sorted(mid, l.files@, cli_id);
        channel::lemma_salvage_sorted(channel::quarantined(mid, "lease.json"@), l.files@, cli_id);
        channel::lemma_put_back_all_sorted(mid, l.files@);
        channel::lemma_put_back_all_sorted(
            channel::without_receipt(mid, channel::receipt_index(mid.receipts, l.lease_id@)),
            l.files@,
        );
    }
}

pub(crate) proof fn lemma_receipts_leave_pending(
    m: Model,
    receipts: Seq<channel::ReceiptFile>,
    cli_id: Seq<char>,
    now: u64,
)
    ensures
        channel::prune_receipts_of(m, receipts, cli_id, now).pending == m.pending,
    decreases receipts.len(),
{
    if receipts.len() > 0 {
        lemma_receipts_leave_pending(m, receipts.drop_last(), cli_id, now);
    }
}

/// What a drain may hand out is sound and in order, whatever the files were.
pub proof fn lemma_drainable_is_sound(m: Model, cli_id: Seq<char>, now: u64)
    requires
        channel::well_formed(m),
    ensures
        channel::sorted(leases::drainable(m, cli_id, now).pending),
        all_valid(leases::drainable(m, cli_id, now).pending, cli_id),
{
    let start = Model { leases: Seq::empty(), ..m };
    lemma_recovered_sorted(start, m.leases, cli_id, now);
    let r = channel::recovered(m, cli_id, now);
    lemma_receipts_leave_pending(
        Model { receipts: Seq::empty(), ..r },
        r.receipts,
        cli_id,
        now,
    );
    let s = leases::settled(m, cli_id, now);
    lemma_sift(s, s.pending, cli_id);
}

/// Messages leave a channel in the order of their sequence numbers.
pub proof fn lemma_drained_in_order(
    m: Model,
    cli_id: Seq<char>,
    now: u64,
    n: int,
    i: int,
    j: int,
)
    requires
        channel::well_formed(m),
        0 <= i < j < n <= leases::drainable(m, cli_id, now).pending.len(),
    ensures
        ({
            let out = leases::messages_of(leases::drainable(m, cli_id, now).pending.take(n));
            out[i].sequence <= out[j].sequence
        }),
{
    lemma_drainable_is_sound(m, cli_id, now);
    lemma_files_ascend(leases::drainable(m, cli_id, now).pending, cli_id, i, j);
}

/// What a drain leaves behind comes after everything that it hands out, and
/// nothing is in both.
pub proof fn lemma_drain_takes_the_oldest(
    m: Model,
    cli_id: Seq<char>,
    now: u64,
    n: int,
    i: int,
    j: int,
)
    requires
        channel::well_formed(m),
        0 <= i < n <= leases::drainable(m, cli_id, now).pending.len(),
        0 <= j < leases::drainable(m, cli_id, now).pending.len() - n,
    ensures
        ({
            let p = leases::drainable(m, cli_id, now).pending;
            &&& sequence_of(p.take(n)[i]) <= sequence_of(p.skip(n)[j])
            &&& p.take(n)[i].name@ != p.skip(n)[j].name@
        }),
{
    lemma_drainable_is_sound(m, cli_id, now);
    let files = leases::drainable(m, cli_id, now).pending;
    lemma_files_ascend(files, cli_id, i, n + j);
    order::lemma_name_lt_irreflexive(files[i].name@);
    assert(order::name_lt(files[i].name@, files[n + j].name@));
}

/// Every pending message came before the one that is next in line.
pub open spec fn all_before(files: Seq<MessageFile>, next_sequence: u64) -> bool {
    forall|i: int| 0 <= i < files.len() ==> sequence_of(#[trigger] files[i]) < next_sequence
}

/// A message that is stored goes to the end of the line, and the line stays one
/// in which every message came before the next.
pub proof fn lemma_stored_last(
    m: Model,
    cli_id: Seq<char>,
    message: QueuedMessage,
    encoded: Seq<u8>,
    f: MessageFile,
    n: Model,
)
    requires
        channel::sorted(m.pending),
        all_valid(m.pending, cli_id),
        all_before(m.pending, message.sequence),
        message.sequence < u64::MAX,
        enqueue::file_of(f, message, encoded),
        enqueue::stored(m, f, n),
    ensures
        n == (Model { pending: m.pending.push(f), ..m }),
        all_before(n.pending, (message.sequence + 1) as u64),
{
    let p = m.pending;
    assert forall|i: int| 0 <= i < p.len() implies order::name_lt(
        (#[trigger] p[i]).name@,
        f.name@,
    ) by {
        assert(channel::valid_file(p[i], cli_id));
        let x = p[i].message->Ok_0;
        assert(sequence_of(p[i]) < message.sequence);
        order::lemma_padded_sequence_order(
            x.sequence,
            message.sequence,
            "-"@ + x.message_id@ + ".json"@,
            "-"@ + message.message_id@ + ".json"@,
        );
    }
    order::lemma_name_lt_irreflexive(f.name@);
    assert(!channel::has_name(p, f.name@));
    assert(channel::rank(p, f.name@) == p.len());
    assert(p.insert(p.len() as int, f) =~= p.push(f));
    assert(n.pending =~= p.push(f));
}

// ---------------------------------------------------------------------------
// Limits

proof fn lemma_contents_insert(files: Seq<MessageFile>, at: int, f: MessageFile)
    requires
        0 <= at <= files.len(),
    ensures
        enqueue::contents_size(files.insert(at, f)) == enqueue::contents_size(files)
            + f.content@.len(),
    decreases files.len(),
{
    let q = files.insert(at, f);
    if at == files.len() {
        assert(q.drop_last() =~= files);
    } else {
        assert(q.drop_last() =~= files.drop_last().insert(at, f));
        assert(q.last() == files.last());
        lemma_contents_insert(files.drop_last(), at, f);
    }
}

proof fn lemma_contents_update(files: Seq<MessageFile>, at: int, f: MessageFile)
    requires
        0 <= at < files.len(),
    ensures
        enqueue::contents_size(files.update(at, f)) <= enqueue::contents_size(files)
            + f.content@.len(),
    decreases files.len(),
{
    let q = files.update(at, f);
    if at == files.len() - 1 {
        assert(q.drop_last() =~= files.drop_last());
    } else {
        assert(q.drop_last() =~= files.drop_last().update(at, f));
        assert(q.last() == files.last());
        lemma_contents_update(files.drop_last(), at, f);
    }
}

pub(crate) proof fn lemma_rank_range(files: Seq<MessageFile>, name: Seq<char>)
    ensures
        0 <= channel::rank(files, name) <= files.len(),
    decreases files.len(),
{
    if files.len() > 0 {
        lemma_rank_range(files.drop_last(), name);
    }
}

/// Storing a message that the quota admits leaves the channel within it.
pub proof fn lemma_quota_is_kept(
    m: Model,
    message: QueuedMessage,
    encoded: Seq<u8>,
    f: MessageFile,
    n: Model,
)
    requires
        !enqueue::over_quota(m, encoded.len()),
        enqueue::file_of(f, message, encoded),
        enqueue::stored(m, f, n),
    ensures
        enqueue::message_count(n) <= MAX_MESSAGES_PER_CHANNEL,
        enqueue::message_bytes(n) <= MAX_CHANNEL_BYTES,
{
    if channel::has_name(m.pending, f.name@) {
        let i = choose|i: int|
            0 <= i < m.pending.len() && m.pending[i].name@ == f.name@ && n == (Model {
                pending: #[trigger] m.pending.update(i, f),
                ..m
            });
        lemma_contents_update(m.pending, i, f);
    } else {
        lemma_rank_range(m.pending, f.name@);
        lemma_contents_insert(m.pending, channel::rank(m.pending, f.name@), f);
    }
}

// ---------------------------------------------------------------------------
// Draining and giving back

proof fn lemma_digit_first(sequence: u64)
    ensures
        text::dec_padded(sequence as nat, 20).len() >= 20,
        forall|i: int|
            0 <= i < text::dec_padded(sequence as nat, 20).len() ==> text::is_digit(
                #[trigger] text::dec_padded(sequence as nat, 20)[i],
            ),
{
    lemma_dec_digits(sequence as nat);
}

proof fn lemma_dec_digits(n: nat)
    ensures
        text::dec(n).len() > 0,
        forall|i: int| 0 <= i < text::dec(n).len() ==> text::is_digit(#[trigger] text::dec(n)[i]),
    decreases n,
{
    if n >= 10 {
        lemma_dec_digits(n / 10);
    }
}

/// The name of a sound message may stand in a lease.
proof fn lemma_message_name_leasable(f: MessageFile, cli_id: Seq<char>)
    requires
        channel::valid_file(f, cli_id),
    ensures
        channel::lease_name_objection(f.name@) is None,
{
    let m = f.message->Ok_0;
    let digits = text::dec_padded(m.sequence as nat, 20);
    let name = f.name@;
    lemma_digit_first(m.sequence);
    reveal_strlit("-");
    reveal_strlit(".json");
    reveal_strlit("lease.json");
    reveal_strlit(".");
    reveal_strlit("..");
    assert(name == digits + ("-"@ + m.message_id@ + ".json"@));
    assert(name[0] == digits[0]);
    assert(text::is_digit(name[0]));
    let at = name.len() - 5;
    assert(name.subrange(at, name.len() as int) =~= ".json"@);
    assert forall|i: int| 0 <= i < name.len() implies #[trigger] name[i] != '/' && name[i]
        != '\0' by {
        if i < digits.len() {
            assert(name[i] == digits[i]);
        } else if i == digits.len() {
            assert(name[i] == '-');
        } else if i < at {
            assert(name[i] == m.message_id@[i - digits.len() - 1]);
        } else {
            assert(name[i] == ".json"@[i - at]);
        }
    }
}

proof fn lemma_names_leasable(names: Seq<String>, files: Seq<MessageFile>, cli_id: Seq<char>)
    requires
        text::views(names) == channel::file_names(files),
        all_valid(files, cli_id),
    ensures
        channel::lease_names_objection(names) is None,
        channel::files_objection(files, cli_id) is None,
    decreases files.len(),
{
    assert(names.len() == text::views(names).len());
    if files.len() > 0 {
        let k = files.len() - 1;
        assert(names.len() == files.len());
        assert forall|i: int| 0 <= i < k implies #[trigger] names[i]@ == files[i].name@ by {
            assert(text::views(names)[i] == channel::file_names(files)[i]);
        }
        assert(text::views(names.drop_last()) =~= channel::file_names(files.drop_last()));
        assert(all_valid(files.drop_last(), cli_id));
        lemma_names_leasable(names.drop_last(), files.drop_last(), cli_id);
        assert(text::views(names)[k] == names[k]@);
        assert(channel::file_names(files)[k] == files[k].name@);
        assert(channel::valid_file(files[k], cli_id));
        lemma_message_name_leasable(files[k], cli_id);
    }
}

proof fn lemma_sorted_names_distinct(files: Seq<MessageFile>)
    requires
        channel::sorted(files),
    ensures
        channel::file_names(files).no_duplicates(),
{
    let names = channel::file_names(files);
    assert forall|i: int, j: int|
        0 <= i < names.len() && 0 <= j < names.len() && i != j implies names[i] != names[j] by {
        order::lemma_name_lt_irreflexive(files[i].name@);
        if i < j {
            assert(order::name_lt(files[i].name@, files[j].name@));
        } else {
            assert(order::name_lt(files[j].name@, files[i].name@));
        }
    }
}

/// A fresh lease on sound messages is one that the channel believes.
pub proof fn lemma_fresh_lease_is_valid(
    l: LeaseDir,
    files: Seq<MessageFile>,
    cli_id: Seq<char>,
    lease_id: Seq<char>,
    now: u64,
)
    requires
        channel::sorted(files),
        all_valid(files, cli_id),
        super::valid_id(lease_id),
        leases::is_lease_of(l, files, cli_id, lease_id, now),
    ensures
        channel::valid_lease(l, cli_id),
{
    let lease = l.metadata->Ok_0;
    lemma_names_leasable(lease.files@, files, cli_id);
    lemma_sorted_names_distinct(files);
}

proof fn lemma_put_back_prefix(m: Model, p: Seq<MessageFile>, n: int, k: int)
    requires
        channel::sorted(p),
        0 <= k <= n <= p.len(),
        m.pending == p.skip(n),
    ensures
        channel::put_back_all(m, p.take(k)) == (Model { pending: p.take(k) + p.skip(n), ..m }),
    decreases k,
{
    if k == 0 {
        assert(p.take(0) + p.skip(n) =~= p.skip(n));
    } else {
        lemma_put_back_prefix(m, p, n, k - 1);
        assert(p.take(k).drop_last() =~= p.take(k - 1));
        let f = p[k - 1];
        let q = p.take(k - 1) + p.skip(n);
        assert forall|i: int| 0 <= i < q.len() implies if i < k - 1 {
            order::name_lt((#[trigger] q[i]).name@, f.name@)
        } else {
            order::name_lt(f.name@, q[i].name@)
        } by {
            if i < k - 1 {
                assert(q[i] == p[i]);
            } else {
                assert(q[i] == p[n + (i - (k - 1))]);
            }
        }
        lemma_rank_splits(q, f.name@, k - 1);
        order::lemma_name_lt_irreflexive(f.name@);
        assert(!channel::has_name(q, f.name@));
        assert(q.insert(k - 1, f) =~= p.take(k) + p.skip(n));
    }
}

proof fn lemma_rank_splits(q: Seq<MessageFile>, name: Seq<char>, k: int)
    requires
        0 <= k <= q.len(),
        forall|i: int|
            0 <= i < q.len() ==> if i < k {
                order::name_lt((#[trigger] q[i]).name@, name)
            } else {
                order::name_lt(name, q[i].name@)
            },
    ensures
        channel::rank(q, name) == k,
    decreases q.len(),
{
    if q.len() > 0 {
        let last = q[q.len() - 1];
        if q.len() > k {
            if order::name_lt(last.name@, name) {
                order::lemma_name_lt_transitive(name, last.name@, name);
                order::lemma_name_lt_irreflexive(name);
            }
            let front = q.drop_last();
            assert forall|i: int| 0 <= i < front.len() implies if i < k {
                order::name_lt((#[trigger] front[i]).name@, name)
            } else {
                order::name_lt(name, front[i].name@)
            } by {
                assert(front[i] == q[i]);
            }
            lemma_rank_splits(front, name, k);
        }
    }
}

/// Giving a lease back undoes the drain that made it: every message is pending
/// again, in its old place.
pub proof fn lemma_release_undoes_drain(
    m: Model,
    n: int,
    l: LeaseDir,
    cli_id: Seq<char>,
    lease_id: Seq<char>,
    now: u64,
    drained: Model,
    after: Model,
    r: Result<(), QueueError>,
)
    requires
        channel::well_formed(m),
        super::valid_id(lease_id),
        ({
            let d = leases::drainable(m, cli_id, now);
            &&& 0 <= n <= d.pending.len()
            &&& !leases::has_lease(d.leases, lease_id)
            &&& leases::is_lease_of(l, d.pending.take(n), cli_id, lease_id, now)
            &&& drained == Model { pending: d.pending.skip(n), leases: d.leases.push(l), ..d }
        }),
        leases::release_post(drained, cli_id, lease_id, after, r),
    ensures
        r is Ok,
        after == leases::drainable(m, cli_id, now),
{
    lemma_drainable_is_sound(m, cli_id, now);
    let d = leases::drainable(m, cli_id, now);
    let files = d.pending.take(n);
    let k = d.leases.len() as int;
    assert(drained.leases[k] == l);
    assert(leases::has_lease(drained.leases, lease_id));
    let i = leases::lease_index(drained.leases, lease_id);
    if i < k {
        assert(d.leases[i] == drained.leases[i]);
        assert(leases::has_lease(d.leases, lease_id));
    }
    assert(i == k);
    assert(channel::sorted(files));
    assert(all_valid(files, cli_id)) by {
        assert forall|x: int| 0 <= x < files.len() implies channel::valid_file(
            #[trigger] files[x],
            cli_id,
        ) by {
            assert(files[x] == d.pending[x]);
        }
    }
    lemma_fresh_lease_is_valid(l, files, cli_id, lease_id, now);
    let base = leases::without_lease(drained, i);
    assert(base.leases =~= d.leases);
    lemma_put_back_prefix(base, d.pending, n, n);
    assert(d.pending.take(n) + d.pending.skip(n) =~= d.pending);
}

// ---------------------------------------------------------------------------
// Acknowledging

/// Acknowledging a lease again, while its receipt is kept, changes nothing and
/// tells what the first acknowledgment did.
pub proof fn lemma_ack_is_idempotent(
    m: Model,
    cli_id: Seq<char>,
    lease_id: Seq<char>,
    now: u64,
    n: Model,
    r: Result<AckResult, QueueError>,
    later: u64,
    after: Model,
    again: Result<AckResult, QueueError>,
)
    requires
        channel::well_formed(m),
        leases::ack_post(m, cli_id, lease_id, now, n, r),
        r matches Ok(ack) && !ack.already_acked,
        !channel::receipt_expired(now, later),
        leases::ack_post(n, cli_id, lease_id, later, after, again),
    ensures
        again matches Ok(ack) && ack.already_acked && ack.deleted == (r->Ok_0).deleted
            && ack.lease_id@ == lease_id,
        after == n,
{
    let old_receipts = if channel::has_receipt(m.receipts, lease_id) {
        m.receipts.remove(channel::receipt_index(m.receipts, lease_id))
    } else {
        m.receipts
    };
    let k = old_receipts.len() as int;
    assert(!channel::has_receipt(old_receipts, lease_id)) by {
        if channel::has_receipt(m.receipts, lease_id) {
            let i = channel::receipt_index(m.receipts, lease_id);
            assert forall|j: int| 0 <= j < old_receipts.len() implies (
            #[trigger] old_receipts[j]).lease_id@ != lease_id by {
                if j < i {
                    assert(old_receipts[j] == m.receipts[j]);
                } else {
                    assert(old_receipts[j] == m.receipts[j + 1]);
                }
            }
        }
    }
    assert(n.receipts == old_receipts.push(n.receipts.last()));
    assert(n.receipts[k].lease_id@ == lease_id);
    assert(channel::has_receipt(n.receipts, lease_id));
    let i = channel::receipt_index(n.receipts, lease_id);
    if i < k {
        assert(old_receipts[i] == n.receipts[i]);
        assert(channel::has_receipt(old_receipts, lease_id));
    }
    assert(i == k);
}

// ---------------------------------------------------------------------------
// Recovery

/// Every name that is pending in `m` is pending in `n`.
pub open spec fn keeps_pending(m: Model, n: Model) -> bool {
    forall|name: Seq<char>|
        channel::has_name(m.pending, name) ==> #[trigger] channel::has_name(n.pending, name)
}

proof fn lemma_put_back_keeps(m: Model, f: MessageFile)
    ensures
        keeps_pending(m, channel::put_back(m, f)),
        channel::has_name(channel::put_back(m, f).pending, f.name@),
{
    let n = channel::put_back(m, f);
    if !channel::has_name(m.pending, f.name@) {
        let k = channel::rank(m.pending, f.name@);
        lemma_rank_range(m.pending, f.name@);
        assert(n.pending[k] == f);
        assert forall|name: Seq<char>| channel::has_name(m.pending, name) implies
            #[trigger] channel::has_name(n.pending, name) by {
            let i = choose|i: int|
                0 <= i < m.pending.len() && (#[trigger] m.pending[i]).name@ == name;
            if i < k {
                assert(n.pending[i] == m.pending[i]);
            } else {
                assert(n.pending[i + 1] == m.pending[i]);
            }
        }
    }
}

proof fn lemma_put_back_all_keeps(m: Model, files: Seq<MessageFile>, f: MessageFile)
    ensures
        keeps_pending(m, channel::put_back_all(m, files)),
        files.contains(f) ==> channel::has_name(
            channel::put_back_all(m, files).pending,
            f.name@,
        ),
    decreases files.len(),
{
    if files.len() > 0 {
        let front = files.drop_last();
        lemma_put_back_all_keeps(m, front, f);
        lemma_put_back_keeps(channel::put_back_all(m, front), files.last());
        if files.contains(f) && files.last() != f {
            let i = files.index_of(f);
            assert(front[i] == f);
        }
    }
}

proof fn lemma_salvage_keeps(m: Model, files: Seq<MessageFile>, cli_id: Seq<char>, f: MessageFile)
    ensures
        keeps_pending(m, channel::salvage_all(m, files, cli_id)),
        files.contains(f) && channel::valid_file(f, cli_id) ==> channel::has_name(
            channel::salvage_all(m, files, cli_id).pending,
            f.name@,
        ),
    decreases files.len(),
{
    if files.len() > 0 {
        let front = files.drop_last();
        lemma_salvage_keeps(m, front, cli_id, f);
        lemma_put_back_keeps(channel::salvage_all(m, front, cli_id), files.last());
        if files.contains(f) && files.last() != f {
            let i = files.index_of(f);
            assert(front[i] == f);
        }
    }
}

/// The message is pending or stands in a lease.
pub open spec fn held(m: Model, f: MessageFile) -> bool {
    channel::has_name(m.pending, f.name@) || exists|i: int|
        0 <= i < m.leases.len() && (#[trigger] m.leases[i]).files@.contains(f)
}

/// No lease of `m` that holds `f` was acknowledged.
pub open spec fn unacknowledged(m: Model, l: LeaseDir, cli_id: Seq<char>) -> bool {
    !channel::valid_lease(l, cli_id) || forall|i: int|
        0 <= i < m.receipts.len() && (#[trigger] m.receipts[i]).lease_id@ == l.lease_id@
            ==> !channel::valid_receipt(m.receipts[i], cli_id, l.lease_id@)
}

proof fn lemma_step_keeps(m: Model, l: LeaseDir, cli_id: Seq<char>, now: u64, f: MessageFile)
    ensures
        held(m, f) ==> held(channel::recover_step(m, l, cli_id, now), f),
        l.files@.contains(f) && channel::valid_file(f, cli_id) && unacknowledged(m, l, cli_id)
            ==> held(channel::recover_step(m, l, cli_id, now), f),
        forall|r: channel::ReceiptFile|
            channel::recover_step(m, l, cli_id, now).receipts.contains(r)
                ==> m.receipts.contains(r),
{
    let n = channel::recover_step(m, l, cli_id, now);
    let base = if l.metadata_present {
        channel::quarantined(m, "lease.json"@)
    } else {
        m
    };
    lemma_salvage_keeps(base, l.files@, cli_id, f);
    lemma_salvage_rest(base, l.files@, cli_id);
    let kept = if channel::has_receipt(m.receipts, l.lease_id@) {
        channel::without_receipt(m, channel::receipt_index(m.receipts, l.lease_id@))
    } else {
        m
    };
    lemma_put_back_all_keeps(kept, l.files@, f);
    lemma_put_back_all_rest(kept, l.files@);
    assert(kept.pending == m.pending && kept.leases == m.leases);
    assert forall|r: channel::ReceiptFile| n.receipts.contains(r) implies m.receipts.contains(
        r,
    ) by {
        let j = n.receipts.index_of(r);
        if n.receipts == m.receipts {
            assert(m.receipts[j] == r);
        } else {
            let i = channel::receipt_index(m.receipts, l.lease_id@);
            assert(n.receipts == m.receipts.remove(i));
            if j < i {
                assert(m.receipts[j] == r);
            } else {
                assert(m.receipts[j + 1] == r);
            }
        }
    }
    if held(m, f) && !channel::has_name(n.pending, f.name@) {
        let i = choose|i: int| 0 <= i < m.leases.len() && (#[trigger] m.leases[i]).files@.contains(f);
        assert(n.leases[i] == m.leases[i]);
    }
    if l.files@.contains(f) && channel::valid_file(f, cli_id) && unacknowledged(m, l, cli_id)
        && !channel::has_name(n.pending, f.name@) {
        assert(n.leases == m.leases.push(l));
        assert(n.leases[m.leases.len() as int] == l);
    }
}

pub(crate) proof fn lemma_put_back_all_rest(m: Model, files: Seq<MessageFile>)
    ensures
        channel::put_back_all(m, files).leases == m.leases,
        channel::put_back_all(m, files).receipts == m.receipts,
    decreases files.len(),
{
    if files.len() > 0 {
        lemma_put_back_all_rest(m, files.drop_last());
    }
}

pub(crate) proof fn lemma_salvage_rest(m: Model, files: Seq<MessageFile>, cli_id: Seq<char>)
    ensures
        channel::salvage_all(m, files, cli_id).leases == m.leases,
        channel::salvage_all(m, files, cli_id).receipts == m.receipts,
    decreases files.len(),
{
    if files.len() > 0 {
        lemma_salvage_rest(m, files.drop_last(), cli_id);
    }
}

proof fn lemma_leases_keep(
    m: Model,
    all: Seq<LeaseDir>,
    cli_id: Seq<char>,
    now: u64,
    f: MessageFile,
    k: int,
)
    requires
        0 <= k < all.len() && all[k].files@.contains(f) && channel::valid_file(f, cli_id)
            && unacknowledged(m, all[k], cli_id) || k == -1 && held(m, f),
    ensures
        held(channel::recover_leases(m, all, cli_id, now), f),
        forall|r: channel::ReceiptFile|
            channel::recover_leases(m, all, cli_id, now).receipts.contains(r)
                ==> m.receipts.contains(r),
    decreases all.len(),
{
    if all.len() > 0 {
        let front = all.drop_last();
        let mid = channel::recover_leases(m, front, cli_id, now);
        lemma_receipts_shrink(m, front, cli_id, now);
        lemma_step_keeps(mid, all.last(), cli_id, now, f);
        if k == all.len() - 1 {
            assert(unacknowledged(mid, all.last(), cli_id)) by {
                assert forall|i: int|
                    channel::valid_lease(all.last(), cli_id) && 0 <= i < mid.receipts.len() && (
                    #[trigger] mid.receipts[i]).lease_id@
                        == all.last().lease_id@ implies !channel::valid_receipt(
                    mid.receipts[i],
                    cli_id,
                    all.last().lease_id@,
                ) by {
                    assert(mid.receipts.contains(mid.receipts[i]));
                    assert(m.receipts.contains(mid.receipts[i]));
                    let j = m.receipts.index_of(mid.receipts[i]);
                    assert(m.receipts[j] == mid.receipts[i]);
                }
            }
        } else {
            if k >= 0 {
                assert(front[k] == all[k]);
            }
            lemma_leases_keep(m, front, cli_id, now, f, k);
        }
    }
}

proof fn lemma_receipts_shrink(m: Model, all: Seq<LeaseDir>, cli_id: Seq<char>, now: u64)
    ensures
        forall|r: channel::ReceiptFile|
            channel::recover_leases(m, all, cli_id, now).receipts.contains(r)
                ==> m.receipts.contains(r),
    decreases all.len(),
{
    if all.len() > 0 {
        lemma_receipts_shrink(m, all.drop_last(), cli_id, now);
        lemma_step_keeps(
            channel::recover_leases(m, all.drop_last(), cli_id, now),
            all.last(),
            cli_id,
            now,
            arbitrary(),
        );
    }
}

/// Recovery loses no message: one that was pending is pending still, and a sound
/// one that was leased and not acknowledged is pending or leased still, whether
/// or not its lease could be believed.
pub proof fn lemma_recovery_loses_nothing(
    m: Model,
    cli_id: Seq<char>,
    now: u64,
    l: int,
    f: MessageFile,
)
    requires
        m.pending.contains(f) || 0 <= l < m.leases.len() && m.leases[l].files@.contains(f)
            && channel::valid_file(f, cli_id) && unacknowledged(m, m.leases[l], cli_id),
    ensures
        held(channel::recovered(m, cli_id, now), f),
{
    let start = Model { leases: Seq::empty(), ..m };
    if m.pending.contains(f) {
        let i = m.pending.index_of(f);
        assert(m.pending[i] == f);
        assert(held(start, f));
        lemma_leases_keep(start, m.leases, cli_id, now, f, -1);
    } else {
        lemma_leases_keep(start, m.leases, cli_id, now, f, l);
    }
}

} // verus!
