//! What becomes of leased messages: once acknowledged they are gone for good, and
//! once their lease has run out they are there to be drained again.

use vstd::prelude::*;
use vstd::string::*;

use super::channel::{self, LeaseDir, MessageFile, Model, ReceiptFile};
use super::enqueue;
use super::laws;
use super::leases;
use super::order;
use super::{AckResult, DrainResult, QueueError, QueueErrorKind};

verus! {

// ---------------------------------------------------------------------------
// Where a name stands

pub open spec fn in_leases(all: Seq<LeaseDir>, name: Seq<char>) -> bool {
    exists|i: int| 0 <= i < all.len() && channel::has_name((#[trigger] all[i]).files@, name)
}

/// A file of that name is pending or leased.
pub open spec fn holds(m: Model, name: Seq<char>) -> bool {
    channel::has_name(m.pending, name) || in_leases(m.leases, name)
}

/// No file is in two places: what is leased is not pending, and not in another
/// lease.
pub open spec fn held_once(m: Model) -> bool {
    &&& forall|i: int, name: Seq<char>|
        #![trigger channel::has_name(m.leases[i].files@, name)]
        0 <= i < m.leases.len() && channel::has_name(m.leases[i].files@, name)
            ==> !channel::has_name(m.pending, name)
    &&& forall|i: int, j: int, name: Seq<char>|
        #![trigger channel::has_name(m.leases[i].files@, name), channel::has_name(m.leases[j].files@, name)]
        0 <= i < m.leases.len() && 0 <= j < m.leases.len() && channel::has_name(
            m.leases[i].files@,
            name,
        ) && channel::has_name(m.leases[j].files@, name) ==> i == j
}

proof fn lemma_put_back_names(m: Model, f: MessageFile, name: Seq<char>)
    ensures
        channel::has_name(channel::put_back(m, f).pending, name) ==> channel::has_name(
            m.pending,
            name,
        ) || f.name@ == name,
{
    let n = channel::put_back(m, f);
    if channel::has_name(n.pending, name) && !channel::has_name(m.pending, f.name@) {
        let k = channel::rank(m.pending, f.name@);
        laws::lemma_rank_range(m.pending, f.name@);
        let i = choose|i: int| 0 <= i < n.pending.len() && (#[trigger] n.pending[i]).name@ == name;
        if i < k {
            assert(m.pending[i] == n.pending[i]);
        } else if i > k {
            assert(m.pending[i - 1] == n.pending[i]);
        }
    }
}

proof fn lemma_put_back_all_names(m: Model, files: Seq<MessageFile>, name: Seq<char>)
    ensures
        channel::has_name(channel::put_back_all(m, files).pending, name) ==> channel::has_name(
            m.pending,
            name,
        ) || channel::has_name(files, name),
    decreases files.len(),
{
    if files.len() > 0 {
        let front = files.drop_last();
        lemma_put_back_all_names(m, front, name);
        lemma_put_back_names(channel::put_back_all(m, front), files.last(), name);
        lemma_front_name(files, name);
    }
}

proof fn lemma_front_name(files: Seq<MessageFile>, name: Seq<char>)
    requires
        files.len() > 0,
    ensures
        channel::has_name(files.drop_last(), name) ==> channel::has_name(files, name),
        files.last().name@ == name ==> channel::has_name(files, name),
{
    if channel::has_name(files.drop_last(), name) {
        let i = choose|i: int|
            0 <= i < files.len() - 1 && (#[trigger] files.drop_last()[i]).name@ == name;
        assert(files[i].name@ == name);
    }
    assert(files[files.len() - 1] == files.last());
}

proof fn lemma_salvage_names(m: Model, files: Seq<MessageFile>, cli_id: Seq<char>, name: Seq<char>)
    ensures
        channel::has_name(channel::salvage_all(m, files, cli_id).pending, name)
            ==> channel::has_name(m.pending, name) || channel::has_name(files, name),
    decreases files.len(),
{
    if files.len() > 0 {
        let front = files.drop_last();
        lemma_salvage_names(m, front, cli_id, name);
        lemma_put_back_names(channel::salvage_all(m, front, cli_id), files.last(), name);
        lemma_front_name(files, name);
    }
}

/// What one lease leads to when leases are recovered: it is kept as it is, or its
/// files are all that can have become pending.
proof fn lemma_step_names(m: Model, l: LeaseDir, cli_id: Seq<char>, now: u64, name: Seq<char>)
    ensures
        ({
            let n = channel::recover_step(m, l, cli_id, now);
            &&& n.leases == m.leases && (channel::has_name(n.pending, name) ==> channel::has_name(
                m.pending,
                name,
            ) || channel::has_name(l.files@, name)) || n.leases == m.leases.push(l) && n.pending
                == m.pending
        }),
{
    let base = if l.metadata_present {
        channel::quarantined(m, "lease.json"@)
    } else {
        m
    };
    lemma_salvage_names(base, l.files@, cli_id, name);
    laws::lemma_salvage_rest(base, l.files@, cli_id);
    let kept = if channel::has_receipt(m.receipts, l.lease_id@) {
        channel::without_receipt(m, channel::receipt_index(m.receipts, l.lease_id@))
    } else {
        m
    };
    lemma_put_back_all_names(kept, l.files@, name);
    laws::lemma_put_back_all_rest(kept, l.files@);
}

/// The leases that are kept are among those that were looked at, and what became
/// pending was in one that is not kept.
proof fn lemma_recovery_names(
    m: Model,
    all: Seq<LeaseDir>,
    cli_id: Seq<char>,
    now: u64,
    name: Seq<char>,
)
    requires
        m.leases.len() == 0,
        channel::distinct_leases(all),
    ensures
        ({
            let n = channel::recover_leases(m, all, cli_id, now);
            &&& forall|l: LeaseDir| #[trigger] n.leases.contains(l) ==> all.contains(l)
            &&& channel::distinct_leases(n.leases)
            &&& channel::has_name(n.pending, name) ==> channel::has_name(m.pending, name)
                || exists|i: int|
                0 <= i < all.len() && channel::has_name((#[trigger] all[i]).files@, name)
                    && !n.leases.contains(all[i])
        }),
    decreases all.len(),
{
    let n = channel::recover_leases(m, all, cli_id, now);
    if all.len() > 0 {
        let front = all.drop_last();
        let last = all.last();
        assert(channel::distinct_leases(front)) by {
            assert forall|i: int, j: int| 0 <= i < j < front.len() implies (
            #[trigger] front[i]).lease_id@ != (#[trigger] front[j]).lease_id@ by {
                assert(front[i] == all[i] && front[j] == all[j]);
            }
        }
        lemma_recovery_names(m, front, cli_id, now, name);
        let mid = channel::recover_leases(m, front, cli_id, now);
        lemma_step_names(mid, last, cli_id, now, name);
        assert(all[all.len() - 1] == last);
        assert forall|l: LeaseDir| #[trigger] mid.leases.contains(l) implies all.contains(l)
            && l.lease_id@ != last.lease_id@ by {
            let i = front.index_of(l);
            assert(all[i] == l);
        }
        assert forall|l: LeaseDir| #[trigger] n.leases.contains(l) implies all.contains(l) by {
            let i = n.leases.index_of(l);
            if i < mid.leases.len() {
                assert(mid.leases[i] == l);
                assert(mid.leases.contains(l));
            }
        }
        assert(channel::distinct_leases(n.leases)) by {
            assert forall|i: int, j: int| 0 <= i < j < n.leases.len() implies (
            #[trigger] n.leases[i]).lease_id@ != (#[trigger] n.leases[j]).lease_id@ by {
                assert(n.leases[i] == mid.leases[i]);
                assert(mid.leases.contains(mid.leases[i]));
                if j < mid.leases.len() {
                    assert(n.leases[j] == mid.leases[j]);
                }
            }
        }
        if channel::has_name(n.pending, name) && !channel::has_name(m.pending, name) {
            if channel::has_name(mid.pending, name) {
                let i = choose|i: int|
                    0 <= i < front.len() && channel::has_name((#[trigger] front[i]).files@, name)
                        && !mid.leases.contains(front[i]);
                assert(all[i] == front[i]);
                if n.leases.contains(all[i]) {
                    let k = n.leases.index_of(all[i]);
                    assert(k == mid.leases.len());
                    assert(all[i].lease_id@ != all[all.len() - 1].lease_id@);
                }
            } else {
                assert(n.leases == mid.leases);
                assert(channel::has_name(all[all.len() - 1].files@, name));
                if mid.leases.contains(last) {
                    assert(last.lease_id@ != last.lease_id@);
                }
            }
        }
    }
}

proof fn lemma_sift_names(m: Model, files: Seq<MessageFile>, cli_id: Seq<char>, f: MessageFile)
    ensures
        leases::sift(m, files, cli_id).leases == m.leases,
        leases::sift(m, files, cli_id).receipts == m.receipts,
        forall|name: Seq<char>| #[trigger]
            channel::has_name(leases::sift(m, files, cli_id).pending, name) ==> channel::has_name(
                files,
                name,
            ),
        files.contains(f) && channel::valid_file(f, cli_id) ==> leases::sift(
            m,
            files,
            cli_id,
        ).pending.contains(f),
    decreases files.len(),
{
    if files.len() > 0 {
        let front = files.drop_last();
        let rest = leases::sift(m, front, cli_id);
        let done = leases::sift(m, files, cli_id);
        lemma_sift_names(m, front, cli_id, f);
        assert forall|name: Seq<char>| #[trigger]
            channel::has_name(done.pending, name) implies channel::has_name(files, name) by {
            lemma_front_name(files, name);
            let i = choose|i: int|
                0 <= i < done.pending.len() && (#[trigger] done.pending[i]).name@ == name;
            if i < rest.pending.len() {
                assert(rest.pending[i].name@ == name);
                assert(channel::has_name(rest.pending, name));
            }
        }
        if files.contains(f) && channel::valid_file(f, cli_id) {
            if files.last() == f {
                assert(done.pending.last() == f);
            } else {
                let i = files.index_of(f);
                assert(front[i] == f);
                let k = rest.pending.index_of(f);
                assert(done.pending[k] == f);
            }
        }
    }
}

pub(crate) proof fn lemma_receipts_leave_leases(
    m: Model,
    receipts: Seq<ReceiptFile>,
    cli_id: Seq<char>,
    now: u64,
)
    ensures
        channel::prune_receipts_of(m, receipts, cli_id, now).leases == m.leases,
        channel::prune_receipts_of(m, receipts, cli_id, now).pending == m.pending,
    decreases receipts.len(),
{
    if receipts.len() > 0 {
        lemma_receipts_leave_leases(m, receipts.drop_last(), cli_id, now);
    }
}

/// A drain begins with no name that was not held before, and keeps what was held
/// once in one place.
proof fn lemma_drainable_names(m: Model, cli_id: Seq<char>, now: u64, name: Seq<char>)
    requires
        channel::well_formed(m),
    ensures
        holds(leases::drainable(m, cli_id, now), name) ==> holds(m, name),
        ({
            let d = leases::drainable(m, cli_id, now);
            held_once(m) && in_leases(d.leases, name) ==> !channel::has_name(d.pending, name)
        }),
        channel::distinct_leases(leases::drainable(m, cli_id, now).leases),
        forall|l: LeaseDir| #[trigger]
            leases::drainable(m, cli_id, now).leases.contains(l) ==> m.leases.contains(l),
{
    let start = Model { leases: Seq::empty(), ..m };
    let r = channel::recovered(m, cli_id, now);
    lemma_recovery_names(start, m.leases, cli_id, now, name);
    lemma_receipts_leave_leases(Model { receipts: Seq::empty(), ..r }, r.receipts, cli_id, now);
    let s = leases::settled(m, cli_id, now);
    lemma_sift_names(s, s.pending, cli_id, arbitrary());
    let d = leases::drainable(m, cli_id, now);
    assert(d.leases == r.leases);
    if in_leases(d.leases, name) {
        let i = choose|i: int|
            0 <= i < d.leases.len() && channel::has_name((#[trigger] d.leases[i]).files@, name);
        assert(d.leases.contains(d.leases[i]));
        let j = m.leases.index_of(d.leases[i]);
        assert(channel::has_name(m.leases[j].files@, name));
        if held_once(m) && channel::has_name(d.pending, name) {
            let k = choose|k: int|
                0 <= k < m.leases.len() && channel::has_name((#[trigger] m.leases[k]).files@, name)
                    && !r.leases.contains(m.leases[k]);
            assert(k == j);
        }
    }
    if channel::has_name(d.pending, name) && !channel::has_name(m.pending, name) {
        let k = choose|k: int|
            0 <= k < m.leases.len() && channel::has_name((#[trigger] m.leases[k]).files@, name)
                && !r.leases.contains(m.leases[k]);
        assert(in_leases(m.leases, name));
    }
}

proof fn lemma_part_name(files: Seq<MessageFile>, k: int, name: Seq<char>)
    requires
        0 <= k <= files.len(),
        channel::sorted(files),
    ensures
        channel::has_name(files.take(k), name) ==> channel::has_name(files, name),
        channel::has_name(files.skip(k), name) ==> channel::has_name(files, name),
        channel::has_name(files.take(k), name) ==> !channel::has_name(files.skip(k), name),
{
    if channel::has_name(files.take(k), name) {
        let i = choose|i: int| 0 <= i < k && (#[trigger] files.take(k)[i]).name@ == name;
        assert(files[i].name@ == name);
        if channel::has_name(files.skip(k), name) {
            let j = choose|j: int|
                0 <= j < files.len() - k && (#[trigger] files.skip(k)[j]).name@ == name;
            assert(files[k + j].name@ == name);
            assert(order::name_lt(files[i].name@, files[k + j].name@));
            order::lemma_name_lt_irreflexive(name);
        }
    }
    if channel::has_name(files.skip(k), name) {
        let j = choose|j: int|
            0 <= j < files.len() - k && (#[trigger] files.skip(k)[j]).name@ == name;
        assert(files[k + j].name@ == name);
    }
}

// ---------------------------------------------------------------------------
// Steps

/// The step brings the name back, or in.
pub open spec fn brings(m: Model, n: Model, name: Seq<char>) -> bool {
    holds(n, name) && !holds(m, name)
}

/// A drain brings no file in, and hands out only messages that were held.
pub proof fn lemma_drain_invents_nothing<F: Fn(&DrainResult) -> bool>(
    m: Model,
    n: Model,
    fits: F,
    cli_id: Seq<char>,
    limit: int,
    drawn: Result<String, QueueError>,
    now: u64,
    r: Result<DrainResult, QueueError>,
    name: Seq<char>,
)
    requires
        channel::well_formed(m),
        leases::drained(m, n, fits, cli_id, limit, drawn, now, r),
    ensures
        !brings(m, n, name),
        r matches Ok(drain) ==> forall|i: int|
            0 <= i < drain.messages@.len() ==> holds(
                m,
                super::message_file_name(
                    (#[trigger] drain.messages@[i]).sequence,
                    drain.messages@[i].message_id@,
                ),
            ),
{
    let d = leases::drainable(m, cli_id, now);
    lemma_drainable_names(m, cli_id, now, name);
    laws::lemma_drainable_is_sound(m, cli_id, now);
    match r {
        Ok(drain) => {
            let k = drain.messages@.len() as int;
            assert forall|i: int| 0 <= i < k implies holds(
                m,
                super::message_file_name(
                    (#[trigger] drain.messages@[i]).sequence,
                    drain.messages@[i].message_id@,
                ),
            ) by {
                let f = d.pending[i];
                assert(drain.messages@[i] == f.message->Ok_0) by {
                    assert(leases::messages_of(d.pending.take(k))[i] == d.pending.take(
                        k,
                    )[i].message->Ok_0);
                }
                assert(channel::valid_file(f, cli_id));
                lemma_drainable_names(m, cli_id, now, f.name@);
                assert(channel::has_name(d.pending, f.name@));
            }
            if holds(n, name) {
                lemma_part_name(d.pending, k, name);
                if !channel::has_name(n.pending, name) {
                    let i = choose|i: int|
                        0 <= i < n.leases.len() && channel::has_name(
                            (#[trigger] n.leases[i]).files@,
                            name,
                        );
                    if i < d.leases.len() {
                        assert(d.leases[i] == n.leases[i]);
                        assert(in_leases(d.leases, name));
                    }
                }
            }
        },
        Err(_) => {},
    }
}

/// What precedes a drain or an enqueue, the recovery of leases and the pruning of
/// receipts, brings no file in.
pub proof fn lemma_settling_invents_nothing(
    m: Model,
    cli_id: Seq<char>,
    now: u64,
    name: Seq<char>,
)
    requires
        channel::well_formed(m),
    ensures
        !brings(m, leases::settled(m, cli_id, now), name),
{
    let start = Model { leases: Seq::empty(), ..m };
    let r = channel::recovered(m, cli_id, now);
    lemma_recovery_names(start, m.leases, cli_id, now, name);
    lemma_receipts_leave_leases(Model { receipts: Seq::empty(), ..r }, r.receipts, cli_id, now);
    if in_leases(r.leases, name) {
        let i = choose|i: int|
            0 <= i < r.leases.len() && channel::has_name((#[trigger] r.leases[i]).files@, name);
        assert(r.leases.contains(r.leases[i]));
        let j = m.leases.index_of(r.leases[i]);
        assert(channel::has_name(m.leases[j].files@, name));
    }
}

proof fn lemma_without_lease_names(m: Model, i: int, name: Seq<char>)
    requires
        0 <= i < m.leases.len(),
    ensures
        in_leases(leases::without_lease(m, i).leases, name) ==> exists|j: int|
            0 <= j < m.leases.len() && j != i && channel::has_name(
                (#[trigger] m.leases[j]).files@,
                name,
            ),
{
    let left = m.leases.remove(i);
    if in_leases(left, name) {
        let j = choose|j: int|
            0 <= j < left.len() && channel::has_name((#[trigger] left[j]).files@, name);
        let from = if j < i {
            j
        } else {
            j + 1
        };
        assert(m.leases[from] == left[j]);
    }
}

/// An acknowledgement, good or not, brings no file in.
pub proof fn lemma_ack_invents_nothing(
    m: Model,
    cli_id: Seq<char>,
    lease_id: Seq<char>,
    now: u64,
    n: Model,
    r: Result<AckResult, QueueError>,
    name: Seq<char>,
)
    requires
        leases::ack_post(m, cli_id, lease_id, now, n, r),
    ensures
        !brings(m, n, name),
{
    if leases::has_lease(m.leases, lease_id) {
        let i = leases::lease_index(m.leases, lease_id);
        let l = m.leases[i];
        let base = leases::without_lease(m, i);
        lemma_without_lease_names(m, i, name);
        let pruned = Model {
            receipts: m.receipts.remove(channel::receipt_index(m.receipts, lease_id)),
            ..m
        };
        let other = leases::without_lease(pruned, i);
        lemma_lease_apart(base, l, cli_id, name);
        lemma_lease_apart(other, l, cli_id, name);
        assert(channel::has_name(l.files@, name) ==> in_leases(m.leases, name));
    }
}

proof fn lemma_lease_apart(m: Model, l: LeaseDir, cli_id: Seq<char>, name: Seq<char>)
    ensures
        channel::put_back_all(m, l.files@).leases == m.leases,
        channel::has_name(channel::put_back_all(m, l.files@).pending, name) ==> channel::has_name(
            m.pending,
            name,
        ) || channel::has_name(l.files@, name),
        channel::recover_corrupt(m, l, cli_id).leases == m.leases,
        channel::has_name(channel::recover_corrupt(m, l, cli_id).pending, name)
            ==> channel::has_name(m.pending, name) || channel::has_name(l.files@, name),
{
    let base = if l.metadata_present {
        channel::quarantined(m, "lease.json"@)
    } else {
        m
    };
    lemma_salvage_names(base, l.files@, cli_id, name);
    laws::lemma_salvage_rest(base, l.files@, cli_id);
    lemma_put_back_all_names(m, l.files@, name);
    laws::lemma_put_back_all_rest(m, l.files@);
}

/// To give a lease back brings no file in.
pub proof fn lemma_release_invents_nothing(
    m: Model,
    cli_id: Seq<char>,
    lease_id: Seq<char>,
    n: Model,
    r: Result<(), QueueError>,
    name: Seq<char>,
)
    requires
        leases::release_post(m, cli_id, lease_id, n, r),
    ensures
        !brings(m, n, name),
{
    if leases::has_lease(m.leases, lease_id) {
        let i = leases::lease_index(m.leases, lease_id);
        lemma_without_lease_names(m, i, name);
        lemma_lease_apart(leases::without_lease(m, i), m.leases[i], cli_id, name);
        assert(channel::has_name(m.leases[i].files@, name) ==> in_leases(m.leases, name));
    }
}

/// Messages of different numbers are in files of different names.
pub proof fn lemma_numbers_name_files(a: u64, b: u64, x: Seq<char>, y: Seq<char>)
    requires
        a != b,
    ensures
        super::message_file_name(a, x) != super::message_file_name(b, y),
{
    let front = "-"@ + x + ".json"@;
    let back = "-"@ + y + ".json"@;
    if a < b {
        order::lemma_padded_sequence_order(a, b, front, back);
    } else {
        order::lemma_padded_sequence_order(b, a, back, front);
    }
    order::lemma_name_lt_irreflexive(super::message_file_name(a, x));
}

proof fn lemma_store_names(m: Model, f: MessageFile, n: Model, name: Seq<char>)
    requires
        enqueue::stored(m, f, n),
    ensures
        n.leases == m.leases,
        channel::has_name(n.pending, name) ==> channel::has_name(m.pending, name) || name
            == f.name@,
{
    if channel::has_name(n.pending, name) {
        let i = choose|i: int| 0 <= i < n.pending.len() && (#[trigger] n.pending[i]).name@ == name;
        if channel::has_name(m.pending, f.name@) {
            let k = choose|k: int|
                0 <= k < m.pending.len() && m.pending[k].name@ == f.name@ && n == (Model {
                    pending: #[trigger] m.pending.update(k, f),
                    ..m
                });
            if i != k {
                assert(m.pending[i] == n.pending[i]);
            }
        } else {
            let k = channel::rank(m.pending, f.name@);
            laws::lemma_rank_range(m.pending, f.name@);
            if i < k {
                assert(m.pending[i] == n.pending[i]);
            } else if i > k {
                assert(m.pending[i - 1] == n.pending[i]);
            }
        }
    }
}

/// A message that is stored brings in its own file only.
pub proof fn lemma_store_brings_one(m: Model, f: MessageFile, n: Model, name: Seq<char>)
    requires
        enqueue::stored(m, f, n),
    ensures
        brings(m, n, name) ==> name == f.name@,
{
    lemma_store_names(m, f, n, name);
}

// ---------------------------------------------------------------------------
// Leases that were acknowledged, or ran out

proof fn lemma_files_sound(files: Seq<MessageFile>, cli_id: Seq<char>, i: int)
    requires
        channel::files_objection(files, cli_id) is None,
        0 <= i < files.len(),
    ensures
        channel::valid_file(files[i], cli_id),
    decreases files.len(),
{
    if i < files.len() - 1 {
        assert(files.drop_last()[i] == files[i]);
        lemma_files_sound(files.drop_last(), cli_id, i);
    }
}

proof fn lemma_put_back_has(m: Model, g: MessageFile, f: MessageFile)
    ensures
        m.pending.contains(f) ==> channel::put_back(m, g).pending.contains(f),
        !channel::has_name(m.pending, g.name@) ==> channel::put_back(m, g).pending.contains(g),
{
    let n = channel::put_back(m, g);
    if !channel::has_name(m.pending, g.name@) {
        let k = channel::rank(m.pending, g.name@);
        laws::lemma_rank_range(m.pending, g.name@);
        assert(n.pending[k] == g);
        if m.pending.contains(f) {
            let i = m.pending.index_of(f);
            if i < k {
                assert(n.pending[i] == f);
            } else {
                assert(n.pending[i + 1] == f);
            }
        }
    }
}

proof fn lemma_put_back_all_has(m: Model, files: Seq<MessageFile>, f: MessageFile)
    requires
        channel::sorted(files),
    ensures
        m.pending.contains(f) ==> channel::put_back_all(m, files).pending.contains(f),
        files.contains(f) && (forall|i: int|
            0 <= i < files.len() ==> !channel::has_name(m.pending, (#[trigger] files[i]).name@))
            ==> channel::put_back_all(m, files).pending.contains(f),
    decreases files.len(),
{
    if files.len() > 0 {
        let front = files.drop_last();
        let last = files.last();
        let mid = channel::put_back_all(m, front);
        assert(channel::sorted(front)) by {
            assert forall|i: int, j: int| 0 <= i < j < front.len() implies order::name_lt(
                (#[trigger] front[i]).name@,
                (#[trigger] front[j]).name@,
            ) by {
                assert(front[i] == files[i] && front[j] == files[j]);
            }
        }
        lemma_put_back_all_has(m, front, f);
        lemma_put_back_has(mid, last, f);
        if files.contains(f) && (forall|i: int|
            0 <= i < files.len() ==> !channel::has_name(m.pending, (#[trigger] files[i]).name@)) {
            assert forall|i: int| 0 <= i < front.len() implies !channel::has_name(
                m.pending,
                (#[trigger] front[i]).name@,
            ) by {
                assert(front[i] == files[i]);
            }
            assert(files[files.len() - 1] == last);
            if last == f {
                lemma_put_back_all_names(m, front, last.name@);
                if channel::has_name(front, last.name@) {
                    let i = choose|i: int|
                        0 <= i < front.len() && (#[trigger] front[i]).name@ == last.name@;
                    assert(order::name_lt(files[i].name@, files[files.len() - 1].name@));
                    order::lemma_name_lt_irreflexive(last.name@);
                }
            } else {
                let i = files.index_of(f);
                assert(front[i] == f);
            }
        }
    }
}

proof fn lemma_salvage_has(m: Model, files: Seq<MessageFile>, cli_id: Seq<char>, f: MessageFile)
    ensures
        m.pending.contains(f) ==> channel::salvage_all(m, files, cli_id).pending.contains(f),
    decreases files.len(),
{
    if files.len() > 0 {
        lemma_salvage_has(m, files.drop_last(), cli_id, f);
        lemma_put_back_has(channel::salvage_all(m, files.drop_last(), cli_id), files.last(), f);
    }
}

proof fn lemma_recovery_has(
    m: Model,
    all: Seq<LeaseDir>,
    cli_id: Seq<char>,
    now: u64,
    f: MessageFile,
)
    requires
        m.pending.contains(f),
        forall|i: int| 0 <= i < all.len() ==> channel::sorted((#[trigger] all[i]).files@),
    ensures
        channel::recover_leases(m, all, cli_id, now).pending.contains(f),
    decreases all.len(),
{
    if all.len() > 0 {
        let front = all.drop_last();
        let l = all.last();
        assert forall|i: int| 0 <= i < front.len() implies channel::sorted(
            (#[trigger] front[i]).files@,
        ) by {
            assert(front[i] == all[i]);
        }
        assert(channel::sorted(all[all.len() - 1].files@));
        lemma_recovery_has(m, front, cli_id, now, f);
        let mid = channel::recover_leases(m, front, cli_id, now);
        lemma_salvage_has(mid, l.files@, cli_id, f);
        lemma_salvage_has(channel::quarantined(mid, "lease.json"@), l.files@, cli_id, f);
        lemma_put_back_all_has(mid, l.files@, f);
        lemma_put_back_all_has(
            channel::without_receipt(mid, channel::receipt_index(mid.receipts, l.lease_id@)),
            l.files@,
            f,
        );
    }
}

/// A sound message that is pending is one that any later drain can hand out.
pub proof fn lemma_pending_is_drainable(m: Model, cli_id: Seq<char>, now: u64, f: MessageFile)
    requires
        channel::well_formed(m),
        m.pending.contains(f),
        channel::valid_file(f, cli_id),
    ensures
        leases::drainable(m, cli_id, now).pending.contains(f),
{
    let start = Model { leases: Seq::empty(), ..m };
    let r = channel::recovered(m, cli_id, now);
    lemma_recovery_has(start, m.leases, cli_id, now, f);
    lemma_receipts_leave_leases(Model { receipts: Seq::empty(), ..r }, r.receipts, cli_id, now);
    let s = leases::settled(m, cli_id, now);
    lemma_sift_names(s, s.pending, cli_id, f);
}

/// What an acknowledgement makes of a sound lease that has no receipt yet. Before
/// the lease runs out all its messages are deleted and counted, and none of them
/// is held any more. From then on the acknowledgement is refused, and each of them
/// is pending again, for any later drain to hand out.
pub proof fn lemma_ack_settles_a_lease(
    m: Model,
    cli_id: Seq<char>,
    lease_id: Seq<char>,
    now: u64,
    n: Model,
    r: Result<AckResult, QueueError>,
    f: MessageFile,
    later: u64,
)
    requires
        channel::well_formed(m),
        held_once(m),
        leases::has_lease(m.leases, lease_id),
        channel::valid_lease(m.leases[leases::lease_index(m.leases, lease_id)], cli_id),
        !channel::has_receipt(m.receipts, lease_id),
        leases::ack_post(m, cli_id, lease_id, now, n, r),
    ensures
        ({
            let l = m.leases[leases::lease_index(m.leases, lease_id)];
            if now < (l.metadata->Ok_0).expires_at_unix_ms {
                &&& r matches Ok(ack) && !ack.already_acked && ack.deleted == l.files@.len()
                    && ack.lease_id@ == lease_id
                &&& l.files@.contains(f) ==> !holds(n, f.name@)
            } else {
                &&& leases::refused(
                    r,
                    QueueErrorKind::LeaseExpired,
                    "message lease expired and was returned to the queue"@,
                )
                &&& l.files@.contains(f) ==> n.pending.contains(f) && leases::drainable(
                    n,
                    cli_id,
                    later,
                ).pending.contains(f)
            }
        }),
{
    let i = leases::lease_index(m.leases, lease_id);
    let l = m.leases[i];
    let base = leases::without_lease(m, i);
    if l.files@.contains(f) {
        let x = l.files@.index_of(f);
        assert(channel::has_name(l.files@, f.name@)) by {
            assert(l.files@[x].name@ == f.name@);
        }
        assert(channel::has_name(m.leases[i].files@, f.name@));
        lemma_files_sound(l.files@, cli_id, x);
        if now < (l.metadata->Ok_0).expires_at_unix_ms {
            lemma_without_lease_names(m, i, f.name@);
            if in_leases(n.leases, f.name@) {
                let j = choose|j: int|
                    0 <= j < m.leases.len() && j != i && channel::has_name(
                        (#[trigger] m.leases[j]).files@,
                        f.name@,
                    );
                assert(i == j);
            }
        } else {
            assert forall|y: int| 0 <= y < l.files@.len() implies !channel::has_name(
                base.pending,
                (#[trigger] l.files@[y]).name@,
            ) by {
                assert(channel::has_name(m.leases[i].files@, l.files@[y].name@));
            }
            assert(channel::sorted(m.leases[i].files@));
            lemma_put_back_all_has(base, l.files@, f);
            channel::lemma_put_back_all_sorted(base, l.files@);
            laws::lemma_put_back_all_rest(base, l.files@);
            assert(channel::well_formed(n)) by {
                assert forall|k: int| 0 <= k < n.leases.len() implies channel::sorted(
                    (#[trigger] n.leases[k]).files@,
                ) by {
                    let from = if k < i {
                        k
                    } else {
                        k + 1
                    };
                    assert(n.leases[k] == m.leases[from]);
                }
                assert forall|a: int, b: int| 0 <= a < b < n.leases.len() implies (
                #[trigger] n.leases[a]).lease_id@ != (#[trigger] n.leases[b]).lease_id@ by {
                    let x = if a < i {
                        a
                    } else {
                        a + 1
                    };
                    let y = if b < i {
                        b
                    } else {
                        b + 1
                    };
                    assert(n.leases[a] == m.leases[x]);
                    assert(n.leases[b] == m.leases[y]);
                }
            }
            lemma_pending_is_drainable(n, cli_id, later, f);
        }
    }
}

/// A message that is held no more is handed out by no later drain: not after any
/// number of steps none of which brings its file in, as no drain, acknowledgement
/// or release does.
pub proof fn lemma_what_is_gone_is_not_drained<F: Fn(&DrainResult) -> bool>(
    states: Seq<Model>,
    name: Seq<char>,
    after: Model,
    fits: F,
    cli_id: Seq<char>,
    limit: int,
    drawn: Result<String, QueueError>,
    now: u64,
    r: Result<DrainResult, QueueError>,
)
    requires
        states.len() > 0,
        !holds(states[0], name),
        forall|i: int|
            0 <= i < states.len() - 1 ==> !brings(states[i], #[trigger] states[i + 1], name),
        channel::well_formed(states.last()),
        leases::drained(states.last(), after, fits, cli_id, limit, drawn, now, r),
    ensures
        r matches Ok(drain) ==> forall|i: int|
            0 <= i < drain.messages@.len() ==> super::message_file_name(
                (#[trigger] drain.messages@[i]).sequence,
                drain.messages@[i].message_id@,
            ) != name,
        !holds(after, name),
{
    lemma_not_held_at(states, name, states.len() - 1);
    lemma_drain_invents_nothing(
        states.last(),
        after,
        fits,
        cli_id,
        limit,
        drawn,
        now,
        r,
        name,
    );
}

proof fn lemma_not_held_at(states: Seq<Model>, name: Seq<char>, k: int)
    requires
        0 <= k < states.len(),
        !holds(states[0], name),
        forall|i: int|
            0 <= i < states.len() - 1 ==> !brings(states[i], #[trigger] states[i + 1], name),
    ensures
        !holds(states[k], name),
    decreases k,
{
    if k > 0 {
        lemma_not_held_at(states, name, k - 1);
        assert(!brings(states[k - 1], states[(k - 1) + 1], name));
    }
}

// ---------------------------------------------------------------------------
// Fresh leases

/// A drain that succeeds leaves a sound lease on what it handed out, and nothing
/// in two places that was in one.
pub proof fn lemma_drain_leases_what_it_hands_out<F: Fn(&DrainResult) -> bool>(
    m: Model,
    n: Model,
    fits: F,
    cli_id: Seq<char>,
    limit: int,
    drawn: Result<String, QueueError>,
    now: u64,
    drain: DrainResult,
)
    requires
        channel::well_formed(m),
        held_once(m),
        drawn matches Ok(id) && super::valid_id(id@),
        leases::drained(
            m,
            n,
            fits,
            cli_id,
            limit,
            drawn,
            now,
            Ok::<DrainResult, QueueError>(drain),
        ),
    ensures
        held_once(n),
        leases::has_lease(n.leases, drain.lease_id@),
        ({
            let l = n.leases[leases::lease_index(n.leases, drain.lease_id@)];
            &&& channel::valid_lease(l, cli_id)
            &&& leases::messages_of(l.files@) == drain.messages@
            &&& (l.metadata->Ok_0).expires_at_unix_ms == drain.lease_expires_at_unix_ms
        }),
{
    let d = leases::drainable(m, cli_id, now);
    let k = drain.messages@.len() as int;
    let files = d.pending.take(k);
    let last = d.leases.len() as int;
    let l = n.leases[last];
    laws::lemma_drainable_is_sound(m, cli_id, now);
    assert(n.leases.last() == l);
    assert(leases::has_lease(n.leases, drain.lease_id@));
    let i = leases::lease_index(n.leases, drain.lease_id@);
    if i < last {
        assert(d.leases[i] == n.leases[i]);
        assert(leases::has_lease(d.leases, drain.lease_id@));
    }
    assert(i == last);
    assert(channel::sorted(files));
    assert(laws::all_valid(files, cli_id)) by {
        assert forall|x: int| 0 <= x < files.len() implies channel::valid_file(
            #[trigger] files[x],
            cli_id,
        ) by {
            assert(files[x] == d.pending[x]);
        }
    }
    laws::lemma_fresh_lease_is_valid(l, files, cli_id, drain.lease_id@, now);
    assert forall|a: int, name: Seq<char>|
        #![trigger channel::has_name(n.leases[a].files@, name)]
        0 <= a < n.leases.len() && channel::has_name(n.leases[a].files@, name)
            implies !channel::has_name(n.pending, name) by {
        lemma_drainable_names(m, cli_id, now, name);
        lemma_part_name(d.pending, k, name);
        if a < last {
            assert(d.leases[a] == n.leases[a]);
            assert(in_leases(d.leases, name));
        }
    }
    assert forall|a: int, b: int, name: Seq<char>|
        #![trigger channel::has_name(n.leases[a].files@, name), channel::has_name(n.leases[b].files@, name)]
        0 <= a < n.leases.len() && 0 <= b < n.leases.len() && channel::has_name(
            n.leases[a].files@,
            name,
        ) && channel::has_name(n.leases[b].files@, name) implies a == b by {
        lemma_drainable_names(m, cli_id, now, name);
        lemma_part_name(d.pending, k, name);
        if a < last && b < last {
            assert(d.leases[a] == n.leases[a] && d.leases[b] == n.leases[b]);
            assert(d.leases.contains(d.leases[a]) && d.leases.contains(d.leases[b]));
            let x = m.leases.index_of(d.leases[a]);
            let y = m.leases.index_of(d.leases[b]);
            assert(channel::has_name(m.leases[x].files@, name));
            assert(channel::has_name(m.leases[y].files@, name));
            assert(x == y);
            if a < b {
                assert(d.leases[a].lease_id@ != d.leases[b].lease_id@);
            } else if b < a {
                assert(d.leases[b].lease_id@ != d.leases[a].lease_id@);
            }
        } else if a < last {
            assert(d.leases[a] == n.leases[a]);
            assert(in_leases(d.leases, name));
        } else if b < last {
            assert(d.leases[b] == n.leases[b]);
            assert(in_leases(d.leases, name));
        }
    }
}

proof fn lemma_lease_left(m: Model, i: int, n: Model)
    requires
        held_once(m),
        0 <= i < m.leases.len(),
        n.leases == m.leases.remove(i),
        forall|name: Seq<char>| #[trigger]
            channel::has_name(n.pending, name) ==> channel::has_name(m.pending, name)
                || channel::has_name(m.leases[i].files@, name),
    ensures
        held_once(n),
{
    assert forall|a: int, name: Seq<char>|
        #![trigger channel::has_name(n.leases[a].files@, name)]
        0 <= a < n.leases.len() && channel::has_name(n.leases[a].files@, name)
            implies !channel::has_name(n.pending, name) by {
        let x = if a < i {
            a
        } else {
            a + 1
        };
        assert(m.leases[x] == n.leases[a]);
        assert(channel::has_name(m.leases[x].files@, name));
    }
    assert forall|a: int, b: int, name: Seq<char>|
        #![trigger channel::has_name(n.leases[a].files@, name), channel::has_name(n.leases[b].files@, name)]
        0 <= a < n.leases.len() && 0 <= b < n.leases.len() && channel::has_name(
            n.leases[a].files@,
            name,
        ) && channel::has_name(n.leases[b].files@, name) implies a == b by {
        let x = if a < i {
            a
        } else {
            a + 1
        };
        let y = if b < i {
            b
        } else {
            b + 1
        };
        assert(m.leases[x] == n.leases[a] && m.leases[y] == n.leases[b]);
        assert(channel::has_name(m.leases[x].files@, name));
        assert(channel::has_name(m.leases[y].files@, name));
    }
}

/// An acknowledgement, good or not, leaves nothing in two places that was in one.
pub proof fn lemma_ack_keeps_held_once(
    m: Model,
    cli_id: Seq<char>,
    lease_id: Seq<char>,
    now: u64,
    n: Model,
    r: Result<AckResult, QueueError>,
)
    requires
        held_once(m),
        leases::ack_post(m, cli_id, lease_id, now, n, r),
    ensures
        held_once(n),
{
    if n.leases != m.leases || n.pending != m.pending {
        let i = leases::lease_index(m.leases, lease_id);
        let l = m.leases[i];
        let base = leases::without_lease(m, i);
        let other = Model {
            receipts: m.receipts.remove(channel::receipt_index(m.receipts, lease_id)),
            ..base
        };
        laws::lemma_put_back_all_rest(base, l.files@);
        laws::lemma_put_back_all_rest(other, l.files@);
        assert forall|name: Seq<char>| #[trigger]
            channel::has_name(n.pending, name) implies channel::has_name(m.pending, name)
            || channel::has_name(m.leases[i].files@, name) by {
            lemma_lease_apart(base, l, cli_id, name);
            lemma_lease_apart(other, l, cli_id, name);
        }
        lemma_lease_apart(base, l, cli_id, Seq::empty());
        lemma_lease_apart(other, l, cli_id, Seq::empty());
        lemma_lease_left(m, i, n);
    }
}

/// To give a lease back leaves nothing in two places that was in one.
pub proof fn lemma_release_keeps_held_once(
    m: Model,
    cli_id: Seq<char>,
    lease_id: Seq<char>,
    n: Model,
    r: Result<(), QueueError>,
)
    requires
        held_once(m),
        leases::release_post(m, cli_id, lease_id, n, r),
    ensures
        held_once(n),
{
    if n != m {
        let i = leases::lease_index(m.leases, lease_id);
        let l = m.leases[i];
        let base = leases::without_lease(m, i);
        assert forall|name: Seq<char>| #[trigger]
            channel::has_name(n.pending, name) implies channel::has_name(m.pending, name)
            || channel::has_name(m.leases[i].files@, name) by {
            lemma_lease_apart(base, l, cli_id, name);
        }
        lemma_lease_apart(base, l, cli_id, Seq::empty());
        lemma_lease_left(m, i, n);
    }
}

/// To store a message in a file that is not leased leaves nothing in two places
/// that was in one.
pub proof fn lemma_store_keeps_held_once(m: Model, f: MessageFile, n: Model)
    requires
        held_once(m),
        !in_leases(m.leases, f.name@),
        enqueue::stored(m, f, n),
    ensures
        held_once(n),
{
    assert(n.leases == m.leases);
    assert forall|a: int, name: Seq<char>|
        #![trigger channel::has_name(n.leases[a].files@, name)]
        0 <= a < n.leases.len() && channel::has_name(n.leases[a].files@, name)
            implies !channel::has_name(n.pending, name) by {
        assert(channel::has_name(m.leases[a].files@, name));
        lemma_store_names(m, f, n, name);
    }
}

} // verus!
