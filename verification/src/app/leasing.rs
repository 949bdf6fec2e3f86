//! What the clients that control the server can rely on.

use vstd::prelude::*;
use vstd::string::*;

use super::control_clients::{self, ControlClientLease, ControlClientRegistryError, Leases};
use super::list;
use super::{AppView, EffectView};
use crate::api::schema::common::{ControlClientAccessMode, ControlClientStatus, ErrorBody};
use crate::text;

verus! {

/// The client holds a lease that has not run out.
pub open spec fn holds_lease(leases: Leases, client_id: Seq<char>, now_ms: u64) -> bool {
    exists|i: int|
        0 <= i < leases.len() && (#[trigger] leases[i]).0 == client_id && leases[i].1.expires_at_ms
            > now_ms
}

/// A registration gives the client a lease of a quarter of a minute with the access that
/// it asked for. Leases that have run out are gone; the others stay as they are.
pub proof fn lemma_registered_clients_hold_a_lease(
    leases: Leases,
    client_id: Seq<char>,
    access_mode: ControlClientAccessMode,
    now_ms: u64,
    row: (Seq<char>, ControlClientLease),
)
    requires
        now_ms + 15_000 <= u64::MAX,
        control_clients::registered(leases, client_id, access_mode, now_ms).1 is Ok,
    ensures
        control_clients::registered(leases, client_id, access_mode, now_ms).0.contains(row) <==> (
        row.0 == client_id && row.1.access_mode == access_mode && row.1.expires_at_ms == now_ms
            + 15_000) || (row.0 != client_id && leases.contains(row) && row.1.expires_at_ms
            > now_ms),
        list::lookup(
            control_clients::registered(leases, client_id, access_mode, now_ms).0,
            client_id,
        ) matches Some(lease) && lease.access_mode == access_mode && lease.expires_at_ms == now_ms
            + 15_000,
{
    let left = control_clients::expired_gone(leases, now_ms);
    let lease = ControlClientLease { access_mode, expires_at_ms: (now_ms + 15_000) as u64 };
    list::lemma_filter_contains(leases, control_clients::unexpired(now_ms), row);
    list::lemma_tables_change_one_key(left, client_id, lease, row);
}

/// A registration is refused exactly if the client's name is empty or takes up more than
/// a hundred and twenty-eight bytes, or if it holds no lease and sixty-four others do.
/// A refusal gives nobody a lease.
pub proof fn lemma_registrations_are_refused_for_cause(
    leases: Leases,
    client_id: Seq<char>,
    access_mode: ControlClientAccessMode,
    now_ms: u64,
    row: (Seq<char>, ControlClientLease),
)
    ensures
        ({
            let r = control_clients::registered(leases, client_id, access_mode, now_ms).1;
            let running = leases.filter(
                |lease: (Seq<char>, ControlClientLease)| lease.1.expires_at_ms > now_ms,
            ).len();
            let nameless = client_id.len() == 0 || text::utf8_len(client_id) > 128;
            &&& r == Err::<(), ControlClientRegistryError>(
                ControlClientRegistryError::InvalidClientId,
            ) <==> nameless
            &&& r == Err::<(), ControlClientRegistryError>(ControlClientRegistryError::AtCapacity)
                <==> !nameless && !holds_lease(leases, client_id, now_ms) && running >= 64
            &&& r != Err::<(), ControlClientRegistryError>(ControlClientRegistryError::NotFound)
        }),
        control_clients::registered(leases, client_id, access_mode, now_ms).1 is Err
            && control_clients::registered(leases, client_id, access_mode, now_ms).0.contains(row)
            ==> leases.contains(row),
{
    let runs = |lease: (Seq<char>, ControlClientLease)| lease.1.expires_at_ms > now_ms;
    assert(runs =~= control_clients::unexpired(now_ms));
    let left = control_clients::expired_gone(leases, now_ms);
    list::lemma_filter_contains(leases, runs, row);
    list::lemma_lookup_reads_the_table(left, client_id);
    if list::present(left, client_id) {
        let i = choose|i: int| 0 <= i < left.len() && (#[trigger] left[i]).0 == client_id;
        list::lemma_filter_contains(leases, runs, left[i]);
        assert(left.contains(left[i]));
        let j = leases.index_of(left[i]);
        assert(leases[j].0 == client_id);
    }
    if holds_lease(leases, client_id, now_ms) {
        let i = choose|i: int|
            0 <= i < leases.len() && (#[trigger] leases[i]).0 == client_id
                && leases[i].1.expires_at_ms > now_ms;
        list::lemma_filter_contains(leases, runs, leases[i]);
        assert(leases.contains(leases[i]));
        let j = left.index_of(leases[i]);
        assert(left[j].0 == client_id);
    }
}

/// A heartbeat lengthens a lease that runs to a quarter of a minute from now, and leaves its
/// access and every other lease alone. It never gives a lease to a client that holds none.
pub proof fn lemma_heartbeats_lengthen_a_lease(
    leases: Leases,
    client_id: Seq<char>,
    now_ms: u64,
    row: (Seq<char>, ControlClientLease),
)
    requires
        now_ms + 15_000 <= u64::MAX,
        client_id.len() > 0,
        text::utf8_len(client_id) <= 128,
    ensures
        ({
            let (after, r) = control_clients::heard_from(leases, client_id, now_ms);
            match list::lookup(leases, client_id) {
                Some(lease) if lease.expires_at_ms > now_ms => r is Ok && (after.contains(row) <==> (
                row.0 == client_id && row.1.access_mode == lease.access_mode && row.1.expires_at_ms
                    == now_ms + 15_000) || (row.0 != client_id && leases.contains(row))),
                _ => r == Err::<(), ControlClientRegistryError>(
                    ControlClientRegistryError::NotFound,
                ) && list::lookup(after, client_id) is None && (row.0 != client_id ==> (
                after.contains(row) <==> leases.contains(row))),
            }
        }),
{
    match list::lookup(leases, client_id) {
        Some(lease) => {
            list::lemma_tables_change_one_key(
                leases,
                client_id,
                ControlClientLease { expires_at_ms: (now_ms + 15_000) as u64, ..lease },
                row,
            );
        },
        None => {},
    }
}

/// A client that leaves holds no lease any more; the others keep theirs.
pub proof fn lemma_clients_that_leave_hold_no_lease(
    leases: Leases,
    client_id: Seq<char>,
    row: (Seq<char>, ControlClientLease),
)
    requires
        client_id.len() > 0,
        text::utf8_len(client_id) <= 128,
    ensures
        control_clients::unregistered(leases, client_id).1 is Ok,
        control_clients::unregistered(leases, client_id).0.contains(row) <==> leases.contains(row)
            && row.0 != client_id,
{
    list::lemma_filter_contains(leases, list::unkeyed::<ControlClientLease>(client_id), row);
}

/// Leases end when their time is up, and only then.
pub proof fn lemma_leases_end_when_their_time_is_up(
    leases: Leases,
    now_ms: u64,
    row: (Seq<char>, ControlClientLease),
)
    ensures
        control_clients::expired_gone(leases, now_ms).contains(row) <==> leases.contains(row)
            && now_ms < row.1.expires_at_ms,
{
    list::lemma_filter_contains(leases, control_clients::unexpired(now_ms), row);
}

/// The status counts each lease once in all, and once under its access.
pub proof fn lemma_each_lease_is_counted_once(
    leases: Leases,
    row: (Seq<char>, ControlClientLease),
)
    requires
        leases.len() < u32::MAX,
    ensures
        ({
            let none = control_clients::counted(Seq::empty());
            none.total_count == 0 && none.restricted_count == 0 && none.full_control_count == 0
        }),
        ({
            let before = control_clients::counted(leases);
            let after = control_clients::counted(leases.push(row));
            &&& after.total_count == before.total_count + 1
            &&& after.restricted_count == before.restricted_count + if row.1.access_mode
                == ControlClientAccessMode::Restricted {
                1int
            } else {
                0
            }
            &&& after.full_control_count == before.full_control_count + if row.1.access_mode
                == ControlClientAccessMode::FullControl {
                1int
            } else {
                0
            }
        }),
{
    let restricted = control_clients::having(ControlClientAccessMode::Restricted);
    let full = control_clients::having(ControlClientAccessMode::FullControl);
    list::lemma_filter_empty(restricted);
    list::lemma_filter_empty(full);
    list::lemma_filter_len(leases, restricted);
    list::lemma_filter_len(leases, full);
    let all = leases.push(row);
    assert(all.take(all.len() - 1) =~= leases);
    assert(all.take(all.len() as int) =~= all);
    list::lemma_filter_step(all, all.len() - 1, restricted);
    list::lemma_filter_step(all, all.len() - 1, full);
}

/// What is told of the clients is what there is. A change of the counts is announced once,
/// with the new counts; where they are the same nothing is. Nothing else changes.
pub proof fn lemma_changed_counts_are_announced(s: AppView, leases: Leases)
    ensures
        ({
            let after = control_clients::controlled(s, leases);
            let status = control_clients::counted(leases);
            &&& after.control.leases == leases && after.control.status == status
            &&& status == s.control.status ==> after.effects == s.effects
            &&& status != s.control.status ==> after.effects.len() == s.effects.len() + 1
                && after.effects.drop_last() == s.effects && after.effects.last()
                == EffectView::AnnounceControlClients(status)
            &&& (AppView { control: s.control, effects: s.effects, ..after }) == s
        }),
        control_clients::status_for(Ok(()), leases) == Ok::<
            ControlClientStatus,
            ControlClientRegistryError,
        >(control_clients::counted(leases)),
{
    let after = control_clients::controlled(s, leases);
    if control_clients::counted(leases) != s.control.status {
        assert(after.effects.drop_last() =~= s.effects);
    }
}

/// A client is told the status as it is, or its own mistake, each under a code of its own.
pub proof fn lemma_clients_are_told_what_went_wrong(
    r: Result<ControlClientStatus, ErrorBody>,
    result: Result<ControlClientStatus, ControlClientRegistryError>,
)
    requires
        super::api::control_clients::replies(r, result),
    ensures
        result is Ok <==> r is Ok,
        result is Ok ==> r->Ok_0 == result->Ok_0,
        r is Err ==> ((r->Err_0)@.0 == "invalid_client_id"@ <==> result->Err_0
            == ControlClientRegistryError::InvalidClientId),
        r is Err ==> ((r->Err_0)@.0 == "too_many_control_clients"@ <==> result->Err_0
            == ControlClientRegistryError::AtCapacity),
        r is Err ==> ((r->Err_0)@.0 == "control_client_not_found"@ <==> result->Err_0
            == ControlClientRegistryError::NotFound),
{
    reveal_strlit("invalid_client_id");
    reveal_strlit("too_many_control_clients");
    reveal_strlit("control_client_not_found");
    assert("invalid_client_id"@.len() == 17);
    assert("too_many_control_clients"@[0] == 't');
    assert("control_client_not_found"@[0] == 'c');
    assert("too_many_control_clients"@.len() == 24);
    assert("control_client_not_found"@.len() == 24);
}

} // verus!
