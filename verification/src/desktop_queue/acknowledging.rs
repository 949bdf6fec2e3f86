//! What becomes of messages that were handed out: they are acknowledged, given back or
//! late.

use vstd::prelude::*;
use vstd::string::*;

use super::channel::{self, MessageFile, Model};
use super::{lapsing, leases};
use super::{AckResult, QueueError, QueueErrorKind};

verus! {

proof fn lemma_lease_found(m: Model, lease_id: Seq<char>, i: int)
    requires
        channel::distinct_leases(m.leases),
        0 <= i < m.leases.len(),
        m.leases[i].lease_id@ == lease_id,
    ensures
        leases::has_lease(m.leases, lease_id),
        leases::lease_index(m.leases, lease_id) == i,
        !leases::has_lease(m.leases.remove(i), lease_id),
{
    let k = leases::lease_index(m.leases, lease_id);
    assert(m.leases[k].lease_id@ == lease_id);
    let left = m.leases.remove(i);
    assert forall|j: int| 0 <= j < left.len() implies (#[trigger] left[j]).lease_id@
        != lease_id by {
        if j < i {
            assert(left[j] == m.leases[j]);
        } else {
            assert(left[j] == m.leases[j + 1]);
        }
    }
}

/// A sound lease that is acknowledged in time is gone, and its messages with it: they are
/// counted, none of them returns to the queue, and a receipt remembers it. What else the
/// channel holds stays.
pub proof fn lemma_acknowledged_messages_are_gone(
    m: Model,
    cli_id: Seq<char>,
    lease_id: Seq<char>,
    now: u64,
    n: Model,
    r: Result<AckResult, QueueError>,
    i: int,
)
    requires
        channel::distinct_leases(m.leases),
        leases::ack_post(m, cli_id, lease_id, now, n, r),
        !channel::has_receipt(m.receipts, lease_id),
        0 <= i < m.leases.len(),
        m.leases[i].lease_id@ == lease_id,
        channel::valid_lease(m.leases[i], cli_id),
        now < (m.leases[i].metadata->Ok_0).expires_at_unix_ms,
    ensures
        r matches Ok(ack) && ack.lease_id@ == lease_id && !ack.already_acked && ack.deleted
            == m.leases[i].files@.len(),
        n.leases == m.leases.remove(i),
        !leases::has_lease(n.leases, lease_id),
        n.pending == m.pending,
        n.quarantine == m.quarantine,
        n.receipts.len() == m.receipts.len() + 1,
        n.receipts.drop_last() == m.receipts,
        n.receipts.last().lease_id@ == lease_id,
        n.receipts.last().receipt matches Ok(kept) && kept.lease_id@ == lease_id && kept.cli_id@
            == cli_id && kept.acked_at_unix_ms == now && kept.deleted
            == m.leases[i].files@.len(),
        channel::has_receipt(n.receipts, lease_id),
{
    lemma_lease_found(m, lease_id, i);
    assert(n.receipts.drop_last() =~= m.receipts);
    assert(n.receipts[n.receipts.len() - 1].lease_id@ == lease_id);
}

/// A sound lease that is acknowledged too late is refused: its messages are pending again,
/// and nothing remembers an acknowledgment.
pub proof fn lemma_late_acknowledgments_are_refused(
    m: Model,
    cli_id: Seq<char>,
    lease_id: Seq<char>,
    now: u64,
    n: Model,
    r: Result<AckResult, QueueError>,
    i: int,
    other: MessageFile,
)
    requires
        channel::distinct_leases(m.leases),
        leases::ack_post(m, cli_id, lease_id, now, n, r),
        !channel::has_receipt(m.receipts, lease_id),
        0 <= i < m.leases.len(),
        m.leases[i].lease_id@ == lease_id,
        channel::valid_lease(m.leases[i], cli_id),
        now >= (m.leases[i].metadata->Ok_0).expires_at_unix_ms,
    ensures
        r matches Err(e) && e.kind == QueueErrorKind::LeaseExpired,
        n.leases == m.leases.remove(i),
        n.receipts == m.receipts,
        m.pending.contains(other) ==> n.pending.contains(other),
        forall|k: int|
            0 <= k < m.leases[i].files@.len() ==> channel::has_name(
                n.pending,
                (#[trigger] m.leases[i].files@[k]).name@,
            ),
{
    lemma_lease_found(m, lease_id, i);
    lapsing::lemma_all_put_back(leases::without_lease(m, i), m.leases[i].files@, other);
}

/// Nothing is acknowledged that was not handed out: without a lease of that name and
/// without a receipt for it the answer is an error, and the channel stays as it is. A first
/// acknowledgment succeeds only on a sound lease that has not lapsed.
pub proof fn lemma_only_leases_are_acknowledged(
    m: Model,
    cli_id: Seq<char>,
    lease_id: Seq<char>,
    now: u64,
    n: Model,
    r: Result<AckResult, QueueError>,
)
    requires
        leases::ack_post(m, cli_id, lease_id, now, n, r),
    ensures
        !channel::has_receipt(m.receipts, lease_id) && (forall|k: int|
            0 <= k < m.leases.len() ==> (#[trigger] m.leases[k]).lease_id@ != lease_id) ==> n == m
            && r is Err && (r->Err_0).kind == QueueErrorKind::LeaseNotFound,
        r is Ok && !(r->Ok_0).already_acked ==> exists|k: int|
            0 <= k < m.leases.len() && (#[trigger] m.leases[k]).lease_id@ == lease_id
                && channel::valid_lease(m.leases[k], cli_id) && now < (
            m.leases[k].metadata->Ok_0).expires_at_unix_ms,
        r is Ok && (r->Ok_0).already_acked ==> channel::has_receipt(m.receipts, lease_id) && n == m,
{
}

/// A sound lease that is given back is gone, and its messages are pending again; nothing
/// that was pending is lost, and no receipt is written.
pub proof fn lemma_messages_given_back_are_pending(
    m: Model,
    cli_id: Seq<char>,
    lease_id: Seq<char>,
    n: Model,
    r: Result<(), QueueError>,
    i: int,
    other: MessageFile,
)
    requires
        channel::distinct_leases(m.leases),
        leases::release_post(m, cli_id, lease_id, n, r),
        0 <= i < m.leases.len(),
        m.leases[i].lease_id@ == lease_id,
        channel::valid_lease(m.leases[i], cli_id),
    ensures
        r is Ok,
        n.leases == m.leases.remove(i),
        !leases::has_lease(n.leases, lease_id),
        n.receipts == m.receipts,
        m.pending.contains(other) ==> n.pending.contains(other),
        forall|k: int|
            0 <= k < m.leases[i].files@.len() ==> channel::has_name(
                n.pending,
                (#[trigger] m.leases[i].files@[k]).name@,
            ),
{
    lemma_lease_found(m, lease_id, i);
    lapsing::lemma_all_put_back(leases::without_lease(m, i), m.leases[i].files@, other);
}

/// Nothing is given back that was not handed out, and a lease that cannot be believed stays
/// where it is.
pub proof fn lemma_only_leases_are_given_back(
    m: Model,
    cli_id: Seq<char>,
    lease_id: Seq<char>,
    n: Model,
    r: Result<(), QueueError>,
)
    requires
        leases::release_post(m, cli_id, lease_id, n, r),
    ensures
        r is Err ==> n == m,
        (forall|k: int| 0 <= k < m.leases.len() ==> (#[trigger] m.leases[k]).lease_id@ != lease_id)
            ==> r is Err && (r->Err_0).kind == QueueErrorKind::LeaseNotFound,
        r is Ok ==> exists|k: int|
            0 <= k < m.leases.len() && (#[trigger] m.leases[k]).lease_id@ == lease_id
                && channel::valid_lease(m.leases[k], cli_id),
{
}

} // verus!
