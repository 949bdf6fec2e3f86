//! What lapses in the queue, and when; and how much goes out at once.

use vstd::prelude::*;
use vstd::string::*;

use super::channel::{self, LeaseDir, MessageFile, Model, TempFile};
use super::leases;
use super::DrainResult;
use crate::text;

verus! {

/// A file that is put back among the pending ones is among them, at its place in their
/// order; where its name is taken it is set aside instead. No pending file is lost by that.
pub proof fn lemma_files_are_put_back(m: Model, f: MessageFile, other: MessageFile)
    ensures
        ({
            let after = channel::put_back(m, f);
            &&& !channel::has_name(m.pending, f.name@) ==> after.pending.contains(f)
                && after.pending.len() == m.pending.len() + 1
            &&& m.pending.contains(other) ==> after.pending.contains(other)
            &&& after.leases == m.leases && after.receipts == m.receipts
        }),
{
    let after = channel::put_back(m, f);
    if !channel::has_name(m.pending, f.name@) {
        let k = channel::rank(m.pending, f.name@);
        lemma_rank_within(m.pending, f.name@);
        assert(after.pending[k] == f);
        if m.pending.contains(other) {
            let i = m.pending.index_of(other);
            if i < k {
                assert(after.pending[i] == other);
            } else {
                assert(after.pending[i + 1] == other);
            }
        }
    }
}

proof fn lemma_rank_within(files: Seq<MessageFile>, name: Seq<char>)
    ensures
        0 <= channel::rank(files, name) <= files.len(),
    decreases files.len(),
{
    if files.len() > 0 {
        lemma_rank_within(files.drop_last(), name);
    }
}

pub(crate) proof fn lemma_all_put_back(m: Model, files: Seq<MessageFile>, other: MessageFile)
    ensures
        channel::put_back_all(m, files).leases == m.leases,
        channel::put_back_all(m, files).receipts == m.receipts,
        m.pending.contains(other) ==> channel::put_back_all(m, files).pending.contains(other),
        forall|i: int|
            0 <= i < files.len() ==> channel::has_name(
                channel::put_back_all(m, files).pending,
                (#[trigger] files[i]).name@,
            ),
    decreases files.len(),
{
    if files.len() > 0 {
        let front = files.drop_last();
        let mid = channel::put_back_all(m, front);
        let after = channel::put_back_all(m, files);
        let f = files.last();
        lemma_all_put_back(m, front, other);
        lemma_files_are_put_back(mid, f, other);
        assert forall|i: int| 0 <= i < files.len() implies channel::has_name(
            after.pending,
            (#[trigger] files[i]).name@,
        ) by {
            if i < front.len() {
                assert(front[i] == files[i]);
                let k = choose|k: int|
                    0 <= k < mid.pending.len() && (#[trigger] mid.pending[k]).name@
                        == front[i].name@;
                lemma_files_are_put_back(mid, f, mid.pending[k]);
                assert(mid.pending.contains(mid.pending[k]));
                let j = after.pending.index_of(mid.pending[k]);
                assert(after.pending[j].name@ == front[i].name@);
            } else if !channel::has_name(mid.pending, f.name@) {
                let j = after.pending.index_of(f);
                assert(after.pending[j].name@ == f.name@);
            }
        }
    }
}

/// What is handed out is out for ten minutes: until then its lease stands, and nobody else
/// is handed the messages; from then on the lease is gone and its messages are put back.
/// Whatever was pending is pending still.
pub proof fn lemma_leases_stand_for_ten_minutes(
    m: Model,
    l: LeaseDir,
    files: Seq<MessageFile>,
    cli_id: Seq<char>,
    lease_id: Seq<char>,
    drained_at: u64,
    now: u64,
    other: MessageFile,
)
    requires
        leases::is_lease_of(l, files, cli_id, lease_id, drained_at),
        channel::valid_lease(l, cli_id),
        !channel::has_receipt(m.receipts, lease_id),
        drained_at + 600_000 <= u64::MAX,
    ensures
        ({
            let after = channel::recover_step(m, l, cli_id, now);
            &&& now < drained_at + 600_000 ==> after.leases == m.leases.push(l) && after.pending
                == m.pending
            &&& now >= drained_at + 600_000 ==> after.leases == m.leases && after
                == channel::put_back_all(m, files) && forall|i: int|
                0 <= i < files.len() ==> channel::has_name(
                    after.pending,
                    (#[trigger] files[i]).name@,
                )
            &&& m.pending.contains(other) ==> after.pending.contains(other)
        }),
{
    lemma_all_put_back(m, files, other);
}

/// A lease that was acknowledged is gone with its messages, and is not put back, however
/// late it is.
pub proof fn lemma_acknowledged_leases_stay_gone(
    m: Model,
    l: LeaseDir,
    cli_id: Seq<char>,
    now: u64,
)
    requires
        channel::valid_lease(l, cli_id),
        channel::has_receipt(m.receipts, l.lease_id@),
        channel::valid_receipt(
            m.receipts[channel::receipt_index(m.receipts, l.lease_id@)],
            cli_id,
            l.lease_id@,
        ),
    ensures
        channel::recover_step(m, l, cli_id, now) == m,
{
}

/// A receipt is kept for a day, and what is left over from an interrupted write for an hour.
pub proof fn lemma_receipts_are_kept_for_a_day(acked_at: u64, modified_at: u64, now: u64, f: TempFile)
    ensures
        acked_at + 86_400_000 <= u64::MAX ==> (channel::receipt_expired(acked_at, now) <==> now
            >= acked_at + 86_400_000),
        modified_at + 3_600_000 <= u64::MAX ==> (channel::stale(modified_at, now) <==> now
            >= modified_at + 3_600_000),
        f.modified_ms + 3_600_000 <= u64::MAX ==> (channel::stale_temp(f, now) <==> now
            >= f.modified_ms + 3_600_000 && text::has_prefix(f.name@, ".tmp-"@)),
{
}

/// How many bytes the first `n` files take up.
pub open spec fn bytes_of(files: Seq<MessageFile>, n: int) -> nat
    decreases n,
{
    if n <= 0 {
        0
    } else {
        bytes_of(files, n - 1) + files[n - 1].encoded_len as nat
    }
}

proof fn lemma_bytes_of(files: Seq<MessageFile>, n: int)
    requires
        0 <= n <= files.len(),
    ensures
        leases::encoded_size(files.take(n)) == bytes_of(files, n),
    decreases n,
{
    if n > 0 {
        lemma_bytes_of(files, n - 1);
        assert(files.take(n).drop_last() =~= files.take(n - 1));
        assert(files.take(n).last() == files[n - 1]);
    }
}

/// A drain hands out the first messages, as many as the limit, a mebibyte and the caller
/// allow, and never more; what it leaves it counts.
pub proof fn lemma_drains_hand_out_what_there_is_room_for<F: Fn(&DrainResult) -> bool>(
    m: Model,
    n: Model,
    fits: F,
    cli_id: Seq<char>,
    limit: int,
    lease_id: String,
    now: u64,
    drain: DrainResult,
)
    requires
        leases::drained(m, n, fits, cli_id, limit, Ok(lease_id), now, Ok(drain)),
    ensures
        ({
            let files = leases::drainable(m, cli_id, now).pending;
            let k = drain.messages@.len() as int;
            &&& k <= limit && k <= files.len() && bytes_of(files, k) <= 1_048_576
            &&& k == limit || k == files.len() || bytes_of(files, k + 1) > 1_048_576
                || leases::judged(
                fits,
                files,
                k + 1,
                lease_id@,
                now,
                leases::settled(m, cli_id, now).pending.len() - files.len(),
                false,
            )
            &&& forall|i: int|
                0 <= i < k ==> #[trigger] drain.messages@[i] == files[i].message->Ok_0
            &&& n.pending == files.skip(k)
            &&& drain.remaining == files.len() - k
            &&& drain.lease_id@ == lease_id@
            &&& now + 600_000 <= u64::MAX ==> drain.lease_expires_at_unix_ms == now + 600_000
        }),
{
    let files = leases::drainable(m, cli_id, now).pending;
    let k = drain.messages@.len() as int;
    lemma_bytes_of(files, k);
    if k < files.len() {
        lemma_bytes_of(files, k + 1);
    }
    assert forall|i: int| 0 <= i < k implies #[trigger] drain.messages@[i]
        == files[i].message->Ok_0 by {
        assert(leases::messages_of(files.take(k))[i] == files.take(k)[i].message->Ok_0);
    }
}

proof fn lemma_sifted_are_set_aside(m: Model, files: Seq<MessageFile>, cli_id: Seq<char>)
    ensures
        leases::sift(m, files, cli_id).quarantine.len() + leases::sift(
            m,
            files,
            cli_id,
        ).pending.len() == m.quarantine.len() + files.len(),
    decreases files.len(),
{
    if files.len() > 0 {
        lemma_sifted_are_set_aside(m, files.drop_last(), cli_id);
    }
}

/// A drain accounts for every message: each is handed out, left for later or set aside, and
/// the caller is told how many of each there are.
pub proof fn lemma_drains_account_for_every_message<F: Fn(&DrainResult) -> bool>(
    m: Model,
    n: Model,
    fits: F,
    cli_id: Seq<char>,
    limit: int,
    lease_id: String,
    now: u64,
    drain: DrainResult,
)
    requires
        leases::drained(m, n, fits, cli_id, limit, Ok(lease_id), now, Ok(drain)),
    ensures
        drain.messages@.len() + drain.remaining + drain.quarantined == leases::settled(
            m,
            cli_id,
            now,
        ).pending.len(),
        drain.remaining == n.pending.len(),
        drain.quarantined == n.quarantine.len() - leases::settled(m, cli_id, now).quarantine.len(),
{
    let s = leases::settled(m, cli_id, now);
    lemma_sifted_are_set_aside(s, s.pending, cli_id);
}

} // verus!
