//! Taking down takes away and gives nothing: no table of what is shared with
//! other hosts has a row afterwards that it had not before.

use vstd::prelude::*;

use super::dwindling;
use super::list;
use super::release;
use super::remote_presentations as presentations;
use super::{AppView, BridgeRefView, BridgeView};
use crate::api::schema::peers::TerminalDelegationStatus;

verus! {

/// Every key of `b` is one of `a`.
pub open spec fn keys_within<W>(a: Seq<(Seq<char>, W)>, b: Seq<(Seq<char>, W)>) -> bool {
    forall|k: Seq<char>| #[trigger] list::present(b, k) ==> list::present(a, k)
}

/// Every row of `b` is one of `a`.
pub open spec fn rows_within<W>(a: Seq<W>, b: Seq<W>) -> bool {
    forall|row: W| #[trigger] b.contains(row) ==> a.contains(row)
}

/// Every peer of `t` is one of `s`, or one that `s` has a connection to.
pub open spec fn peers_within(s: AppView, t: AppView) -> bool {
    forall|k: Seq<char>| #[trigger]
        list::present(t.peers, k) ==> list::present(s.peers, k) || list::present(s.peer_bridges, k)
}

/// No table of what is shared with other hosts has a new key in `t`, and no
/// delegation is other than it was. How many delegations there have been, and how
/// often each peer was removed, is as it was.
#[verifier::opaque]
pub open spec fn nothing_gained(s: AppView, t: AppView) -> bool {
    &&& keys_within(s.remote_owner_presentations, t.remote_owner_presentations)
    &&& keys_within(s.remote_owner_peers, t.remote_owner_peers)
    &&& keys_within(s.ssh_shell_bridges, t.ssh_shell_bridges)
    &&& keys_within(s.remote_terminal_bridges, t.remote_terminal_bridges)
    &&& keys_within(s.remote_mirrors, t.remote_mirrors)
    &&& keys_within(s.pending_owner_activations, t.pending_owner_activations)
    &&& keys_within(s.pending, t.pending)
    &&& keys_within(s.delegated, t.delegated)
    &&& rows_within(s.pending, t.pending)
    &&& rows_within(s.delegated, t.delegated)
    &&& rows_within(s.peer_bridges, t.peer_bridges)
    &&& keys_within(s.peer_bridges, t.peer_bridges)
    &&& peers_within(s, t)
    &&& s.peer_lifecycle_generations == t.peer_lifecycle_generations
    &&& s.next_delegation == t.next_delegation
}

pub open spec fn same_tables(s: AppView, t: AppView) -> bool {
    &&& s.remote_owner_presentations == t.remote_owner_presentations
    &&& s.remote_owner_peers == t.remote_owner_peers
    &&& s.ssh_shell_bridges == t.ssh_shell_bridges
    &&& s.remote_terminal_bridges == t.remote_terminal_bridges
    &&& s.remote_mirrors == t.remote_mirrors
    &&& s.pending_owner_activations == t.pending_owner_activations
    &&& s.pending == t.pending
    &&& s.delegated == t.delegated
    &&& s.peer_bridges == t.peer_bridges
    &&& s.peers == t.peers
    &&& s.peer_lifecycle_generations == t.peer_lifecycle_generations
    &&& s.next_delegation == t.next_delegation
}

pub proof fn lemma_same(s: AppView, t: AppView)
    requires
        same_tables(s, t),
    ensures
        nothing_gained(s, t),
{
    reveal(nothing_gained);
}

pub proof fn lemma_chain(a: AppView, b: AppView, c: AppView)
    requires
        nothing_gained(a, b),
        nothing_gained(b, c),
    ensures
        nothing_gained(a, c),
{
    reveal(nothing_gained);
}

pub proof fn lemma_filter_within<W>(t: Seq<(Seq<char>, W)>, p: spec_fn((Seq<char>, W)) -> bool)
    ensures
        keys_within(t, t.filter(p)),
        rows_within(t, t.filter(p)),
{
    let among = |row: (Seq<char>, W)| t.contains(row);
    assert forall|i: int| 0 <= i < t.len() implies among(#[trigger] t[i]) by {}
    list::lemma_filter_keeps(t, p, among);
    assert forall|row: (Seq<char>, W)| #[trigger] t.filter(p).contains(row) implies t.contains(
        row,
    ) by {
        let i = t.filter(p).index_of(row);
        assert(among(t.filter(p)[i]));
    }
    assert forall|k: Seq<char>| #[trigger] list::present(t.filter(p), k) implies list::present(
        t,
        k,
    ) by {
        if !list::present(t, k) {
            list::lemma_first(t, list::keyed(k));
            list::lemma_first(t.filter(p), list::keyed(k));
            let q = list::unkeyed::<W>(k);
            assert forall|i: int| 0 <= i < t.len() implies q(#[trigger] t[i]) by {
                assert(!list::keyed::<W>(k)(t[i]));
            }
            list::lemma_filter_keeps(t, p, q);
            let i = list::place(t.filter(p), list::keyed(k));
            assert(q(t.filter(p)[i]));
        }
    }
}

/// A key that was dropped is not there any more.
pub proof fn lemma_without_gone<W>(t: Seq<(Seq<char>, W)>, k: Seq<char>)
    ensures
        !list::present(list::without(t, k), k),
        keys_within(t, list::without(t, k)),
        rows_within(t, list::without(t, k)),
{
    lemma_filter_within(t, list::unkeyed(k));
    list::lemma_filtered_holds(t, list::unkeyed::<W>(k));
    list::lemma_first(list::without(t, k), list::keyed(k));
}

pub proof fn lemma_activations(s: AppView, ids: Seq<Seq<char>>)
    ensures
        nothing_gained(s, release::activations_cancelled(s, ids)),
    decreases ids.len(),
{
    if ids.len() == 0 {
        lemma_same(s, s);
    } else {
        let next = release::activation_cancelled(s, ids[0]);
        lemma_without_gone(s.pending_owner_activations, ids[0]);
        assert(nothing_gained(s, next)) by {
            reveal(nothing_gained);
        }
        lemma_activations(next, ids.skip(1));
        lemma_chain(s, next, release::activations_cancelled(s, ids));
    }
}

proof fn lemma_unlinked(s: AppView, terminal_id: Seq<char>)
    ensures
        nothing_gained(s, release::unlinked(s, terminal_id)),
{
    reveal(nothing_gained);
    lemma_without_gone(s.remote_owner_presentations, terminal_id);
    lemma_without_gone(s.remote_owner_peers, terminal_id);
    lemma_without_gone(s.remote_mirrors, terminal_id);
}

proof fn lemma_unlinked_all(s: AppView, terminals: Seq<Seq<char>>)
    ensures
        nothing_gained(s, release::unlinked_all(s, terminals)),
    decreases terminals.len(),
{
    if terminals.len() == 0 {
        lemma_same(s, s);
    } else {
        let next = release::unlinked(s, terminals[0]);
        lemma_unlinked(s, terminals[0]);
        lemma_unlinked_all(next, terminals.skip(1));
        lemma_chain(s, next, release::unlinked_all(s, terminals));
    }
}

proof fn lemma_unused(s: AppView, b: BridgeRefView)
    ensures
        nothing_gained(s, release::bridge_unused(s, b)),
{
    let ids = list::keys_of(s.pending_owner_activations.filter(release::over_bridge(b)));
    let c = release::activations_cancelled(s, ids);
    lemma_activations(s, ids);
    let d = AppView {
        ssh_shell_bridge_deadlines: c.ssh_shell_bridge_deadlines.filter(
            release::deadline_of_other(b),
        ),
        ..c
    };
    let e = AppView {
        ssh_shell_bridges: d.ssh_shell_bridges.filter(release::not_by_bridge(b)),
        ..d
    };
    lemma_filter_within(d.ssh_shell_bridges, release::not_by_bridge(b));
    assert(nothing_gained(c, e)) by {
        reveal(nothing_gained);
    }
    lemma_unlinked_all(e, list::keys_of(d.ssh_shell_bridges.filter(release::by_bridge(b))));
    lemma_chain(s, c, e);
    lemma_chain(s, e, release::bridge_unused(s, b));
}

pub proof fn lemma_failed_all(s: AppView, ids: Seq<Seq<char>>, now_ms: u64)
    ensures
        nothing_gained(s, presentations::failed_all(s, ids, now_ms)),
    decreases ids.len(),
{
    if ids.len() == 0 {
        lemma_same(s, s);
    } else {
        let next = presentations::failed_one(s, ids[0], now_ms);
        assert(nothing_gained(s, next)) by {
            reveal(nothing_gained);
            lemma_without_gone(s.pending, ids[0]);
        }
        lemma_failed_all(next, ids.skip(1), now_ms);
        lemma_chain(s, next, presentations::failed_all(s, ids, now_ms));
    }
}

proof fn lemma_latest_present(bridges: Seq<(Seq<char>, BridgeView)>, peer_id: Seq<char>)
    ensures
        release::latest(bridges, peer_id) is Some ==> list::present(bridges, peer_id),
    decreases bridges.len(),
{
    if bridges.len() > 0 {
        let front = bridges.drop_last();
        lemma_latest_present(front, peer_id);
        list::lemma_key_present(bridges, peer_id);
        list::lemma_key_present(front, peer_id);
        let keys = list::keys_of(bridges);
        assert(keys[bridges.len() - 1] == bridges.last().0);
        if list::present(front, peer_id) {
            let i = list::keys_of(front).index_of(peer_id);
            assert(keys[i] == list::keys_of(front)[i]);
        }
    }
}

proof fn lemma_with_present<W>(t: Seq<(Seq<char>, W)>, key: Seq<char>, v: W, k: Seq<char>)
    ensures
        list::present(list::with(t, key, v), k) ==> k == key || list::present(t, k),
{
    let kept = list::without(t, key);
    let all = list::with(t, key, v);
    lemma_without_gone(t, key);
    list::lemma_key_present(all, k);
    list::lemma_key_present(kept, k);
    if list::keys_of(all).contains(k) && k != key {
        let i = list::keys_of(all).index_of(k);
        assert(i < kept.len());
        assert(list::keys_of(kept)[i] == k);
    }
}

proof fn lemma_closed(s: AppView, b: BridgeRefView)
    ensures
        nothing_gained(s, release::bridge_closed(s, b)),
        forall|row: (Seq<char>, BridgeView)|
            release::bridge_closed(s, b).peer_bridges.contains(row) ==> !(row.0 == b.peer_id
                && row.1.connection_id == b.connection_id),
{
    let left = s.peer_bridges.filter(release::not_bridge_at(b));
    let after = release::bridge_closed(s, b);
    let t = AppView { peer_bridges: left, peers: after.peers, ..s };
    lemma_filter_within(s.peer_bridges, release::not_bridge_at(b));
    assert forall|k: Seq<char>| #[trigger] list::present(after.peers, k) implies list::present(
        s.peers,
        k,
    ) || list::present(s.peer_bridges, k) by {
        lemma_without_gone(s.peers, b.peer_id);
        lemma_latest_present(left, b.peer_id);
        if let Some(survivor) = release::latest(left, b.peer_id) {
            lemma_with_present(s.peers, b.peer_id, survivor.peer, k);
        }
    }
    assert forall|row: (Seq<char>, BridgeView)| #[trigger] left.contains(row) implies
        s.peer_bridges.contains(row) && !(row.0 == b.peer_id && row.1.connection_id
        == b.connection_id) by {
        list::lemma_filter_contains(s.peer_bridges, release::not_bridge_at(b), row);
    }
    assert(nothing_gained(s, t)) by {
        reveal(nothing_gained);
    }
    lemma_same(t, release::bridge_closed(s, b));
    lemma_chain(s, t, release::bridge_closed(s, b));
}

proof fn gained_bridge_released(n: nat, s: AppView, b: BridgeRefView, now_ms: u64)
    requires
        s.peer_bridges.len() <= n,
    ensures
        nothing_gained(s, release::bridge_released(s, b, now_ms)),
    decreases n, 0int, 0int,
{
    let unused = release::bridge_unused(s, b);
    release::lemma_unused_keeps_bridges(s, b);
    lemma_unused(s, b);
    if release::connected(unused, b) {
        release::lemma_closing_leaves_fewer(unused, b);
        let owners = release::going_with(
            unused,
            b,
            release::bridge_owners(
                release::activations_cancelled(
                    s,
                    list::keys_of(s.pending_owner_activations.filter(release::over_bridge(b))),
                ),
                b,
            ),
        );
        let closed = release::bridge_closed(unused, b);
        lemma_closed(unused, b);
        gained_terminals_shut_down((n - 1) as nat, closed, owners, now_ms);
        lemma_chain(s, unused, closed);
        lemma_chain(s, closed, release::bridge_released(s, b, now_ms));
    }
}

proof fn gained_bridges_released(n: nat, s: AppView, bridges: Seq<BridgeRefView>, now_ms: u64)
    requires
        s.peer_bridges.len() <= n,
    ensures
        nothing_gained(s, release::bridges_released(s, bridges, now_ms)),
    decreases n, 1int, bridges.len(),
{
    if bridges.len() == 0 {
        lemma_same(s, s);
    } else {
        let next = release::bridge_released(s, bridges[0], now_ms);
        gained_bridge_released(n, s, bridges[0], now_ms);
        dwindling::lemma_bridge_released(s, bridges[0], now_ms);
        gained_bridges_released(n, next, bridges.skip(1), now_ms);
        lemma_chain(s, next, release::bridges_released(s, bridges, now_ms));
    }
}

proof fn gained_waiting_given_up(n: nat, s: AppView, terminal_id: Seq<char>, now_ms: u64)
    requires
        s.peer_bridges.len() <= n,
    ensures
        nothing_gained(s, release::waiting_given_up(s, terminal_id, now_ms)),
    decreases n, 2int, 0int,
{
    let rows = s.pending_owner_activations.filter(presentations::for_terminal(terminal_id));
    let cancelled = release::activations_cancelled(s, list::keys_of(rows));
    release::lemma_cancelling_keeps(s, list::keys_of(rows));
    lemma_activations(s, list::keys_of(rows));
    gained_bridges_released(n, cancelled, release::dedicated(rows), now_ms);
    lemma_chain(s, cancelled, release::waiting_given_up(s, terminal_id, now_ms));
}

proof fn gained_shells_closed(n: nat, s: AppView, terminal_id: Seq<char>, now_ms: u64)
    requires
        s.peer_bridges.len() <= n,
    ensures
        nothing_gained(s, release::shells_closed(s, terminal_id, now_ms)),
        !list::present(
            release::shells_closed(s, terminal_id, now_ms).ssh_shell_bridges,
            terminal_id,
        ),
    decreases n, 3int, 0int,
{
    dwindling::lemma_waiting_given_up(s, terminal_id, now_ms);
    gained_waiting_given_up(n, s, terminal_id, now_ms);
    let given_up = release::waiting_given_up(s, terminal_id, now_ms);
    let left = release::shells_left(given_up, terminal_id);
    let done = release::shells_closed(s, terminal_id, now_ms);
    lemma_without_gone(given_up.ssh_shell_bridges, terminal_id);
    assert(nothing_gained(given_up, left)) by {
        reveal(nothing_gained);
    }
    gained_bridges_released(n, left, release::shell_bridges_of(given_up, terminal_id), now_ms);
    lemma_chain(s, given_up, left);
    lemma_chain(s, left, done);
    assert(!list::present(done.ssh_shell_bridges, terminal_id)) by {
        reveal(nothing_gained);
    }
}

proof fn gained_terminal_released(n: nat, s: AppView, terminal_id: Seq<char>, now_ms: u64)
    requires
        s.peer_bridges.len() <= n,
    ensures
        nothing_gained(s, release::terminal_released(s, terminal_id, now_ms)),
        shows_nothing(release::terminal_released(s, terminal_id, now_ms), terminal_id),
    decreases n, 4int, 0int,
{
    dwindling::lemma_shells_closed(s, terminal_id, now_ms);
    gained_shells_closed(n, s, terminal_id, now_ms);
    let closed = release::shells_closed(s, terminal_id, now_ms);
    let unshown = release::unshown(closed, terminal_id);
    let done = release::terminal_released(s, terminal_id, now_ms);
    lemma_without_gone(closed.remote_owner_presentations, terminal_id);
    lemma_without_gone(closed.remote_owner_peers, terminal_id);
    lemma_without_gone(closed.remote_terminal_bridges, terminal_id);
    lemma_without_gone(closed.remote_mirrors, terminal_id);
    assert(nothing_gained(closed, unshown)) by {
        reveal(nothing_gained);
    }
    gained_bridges_released(
        n,
        unshown,
        release::as_list(list::lookup(closed.remote_terminal_bridges, terminal_id)),
        now_ms,
    );
    lemma_chain(s, closed, unshown);
    lemma_chain(s, unshown, done);
    assert(shows_nothing(done, terminal_id)) by {
        reveal(nothing_gained);
    }
}

proof fn gained_terminated(n: nat, s: AppView, claim: (Seq<char>, u64), now_ms: u64)
    requires
        s.peer_bridges.len() <= n,
    ensures
        nothing_gained(s, release::terminated(s, claim, now_ms)),
        release::terminable(s, claim) ==> !list::present(
            release::terminated(s, claim, now_ms).pending,
            claim.0,
        ),
        release::terminable(s, claim) && list::lookup(s.pending, claim.0) is None
            ==> !list::present(release::terminated(s, claim, now_ms).delegated, claim.0),
    decreases n, 5int, 0int,
{
    let done = release::terminated(s, claim, now_ms);
    match list::lookup(s.pending, claim.0) {
        Some(p) => {
            if p.info.epoch == claim.1 {
                lemma_without_gone(s.pending, claim.0);
                reveal(nothing_gained);
            } else {
                lemma_same(s, s);
            }
        },
        None => match list::lookup(s.delegated, claim.0) {
            None => {
                lemma_same(s, s);
            },
            Some(d) => if d.info.epoch != claim.1 {
                lemma_same(s, s);
            } else {
                let taken = AppView { delegated: list::without(s.delegated, claim.0), ..s };
                lemma_without_gone(s.delegated, claim.0);
                assert(nothing_gained(s, taken)) by {
                    reveal(nothing_gained);
                }
                gained_terminal_released(n, taken, d.moved.terminal_id, now_ms);
                let released = release::terminal_released(taken, d.moved.terminal_id, now_ms);
                let over = presentations::ended(
                    release::pane_gone(released, d),
                    claim.0,
                    d.info,
                    TerminalDelegationStatus::Terminated,
                    now_ms,
                );
                lemma_same(released, over);
                let ids = list::keys_of(over.pending.filter(presentations::takes_over(claim.0)));
                lemma_failed_all(over, ids, now_ms);
                let left = presentations::failed_all(over, ids, now_ms);
                lemma_same(left, done);
                lemma_chain(s, taken, released);
                lemma_chain(taken, released, over);
                lemma_chain(taken, over, left);
                lemma_chain(taken, left, done);
                lemma_chain(s, taken, done);
                assert(!list::present(done.delegated, claim.0) && !list::present(
                    done.pending,
                    claim.0,
                )) by {
                    reveal(nothing_gained);
                }
            },
        },
    }
}

proof fn gained_terminal_shut_down(n: nat, s: AppView, terminal_id: Seq<char>, now_ms: u64)
    requires
        s.peer_bridges.len() <= n,
    ensures
        nothing_gained(s, release::terminal_shut_down(s, terminal_id, now_ms)),
    decreases n, 6int, 0int,
{
    match list::first(s.delegated, release::lends(terminal_id)) {
        Some((_, d)) => gained_terminated(n, s, (d.info.delegation_id, d.info.epoch), now_ms),
        None => {
            let released = release::terminal_released(s, terminal_id, now_ms);
            let done = release::terminal_shut_down(s, terminal_id, now_ms);
            gained_terminal_released(n, s, terminal_id, now_ms);
            lemma_same(released, done);
            lemma_chain(s, released, done);
        },
    }
}

proof fn gained_terminals_shut_down(n: nat, s: AppView, terminals: Seq<Seq<char>>, now_ms: u64)
    requires
        s.peer_bridges.len() <= n,
    ensures
        nothing_gained(s, release::terminals_shut_down(s, terminals, now_ms)),
    decreases n, 7int, terminals.len(),
{
    if terminals.len() == 0 {
        lemma_same(s, s);
    } else {
        let next = release::terminal_shut_down(s, terminals[0], now_ms);
        gained_terminal_shut_down(n, s, terminals[0], now_ms);
        dwindling::lemma_terminal_shut_down(s, terminals[0], now_ms);
        gained_terminals_shut_down(n, next, terminals.skip(1), now_ms);
        lemma_chain(s, next, release::terminals_shut_down(s, terminals, now_ms));
    }
}

/// The terminal shows nothing of another host, and has no connection.
pub open spec fn shows_nothing(s: AppView, terminal_id: Seq<char>) -> bool {
    &&& !list::present(s.remote_owner_presentations, terminal_id)
    &&& !list::present(s.remote_owner_peers, terminal_id)
    &&& !list::present(s.ssh_shell_bridges, terminal_id)
    &&& !list::present(s.remote_terminal_bridges, terminal_id)
    &&& !list::present(s.remote_mirrors, terminal_id)
}

/// A terminal that let go of what it had from other hosts has nothing of it
/// left, and nothing else came to be shared meanwhile.
pub proof fn lemma_released_terminal_shows_nothing(
    s: AppView,
    terminal_id: Seq<char>,
    now_ms: u64,
)
    ensures
        shows_nothing(release::terminal_released(s, terminal_id, now_ms), terminal_id),
        nothing_gained(s, release::terminal_released(s, terminal_id, now_ms)),
{
    gained_terminal_released(s.peer_bridges.len(), s, terminal_id, now_ms);
}

/// A delegation that its claimant ended is neither prepared nor active any more,
/// and no other one came to be.
pub proof fn lemma_terminated_is_gone(s: AppView, claim: (Seq<char>, u64), now_ms: u64)
    requires
        release::terminable(s, claim),
    ensures
        !list::present(release::terminated(s, claim, now_ms).pending, claim.0),
        list::lookup(s.pending, claim.0) is None ==> !list::present(
            release::terminated(s, claim, now_ms).delegated,
            claim.0,
        ),
        nothing_gained(s, release::terminated(s, claim, now_ms)),
{
    gained_terminated(s.peer_bridges.len(), s, claim, now_ms);
}

/// To end a delegation, or to be refused to, shares nothing that was not shared
/// before.
pub proof fn lemma_ending_gains_nothing(s: AppView, claim: (Seq<char>, u64), now_ms: u64)
    ensures
        nothing_gained(s, release::terminated(s, claim, now_ms)),
{
    gained_terminated(s.peer_bridges.len(), s, claim, now_ms);
}

/// To take terminals down shares nothing that was not shared before.
pub proof fn lemma_taking_down_gains_nothing(
    s: AppView,
    terminals: Seq<Seq<char>>,
    now_ms: u64,
)
    ensures
        nothing_gained(s, release::terminals_shut_down(s, terminals, now_ms)),
{
    gained_terminals_shut_down(s.peer_bridges.len(), s, terminals, now_ms);
}

/// To give a connection back shares nothing that was not shared before.
pub proof fn lemma_release_gains_nothing(s: AppView, b: BridgeRefView, now_ms: u64)
    ensures
        nothing_gained(s, release::bridge_released(s, b, now_ms)),
{
    gained_bridge_released(s.peer_bridges.len(), s, b, now_ms);
}

/// A connection that is given back is gone, and no connection comes about by that.
pub proof fn lemma_released_connections_are_gone(
    s: AppView,
    b: BridgeRefView,
    now_ms: u64,
    row: (Seq<char>, BridgeView),
)
    requires
        release::bridge_released(s, b, now_ms).peer_bridges.contains(row),
    ensures
        s.peer_bridges.contains(row),
        !(row.0 == b.peer_id && row.1.connection_id == b.connection_id),
{
    lemma_release_gains_nothing(s, b, now_ms);
    reveal(nothing_gained);
    let unused = release::bridge_unused(s, b);
    let after = release::bridge_released(s, b, now_ms);
    if release::connected(unused, b) {
        let owners = release::going_with(
            unused,
            b,
            release::bridge_owners(
                release::activations_cancelled(
                    s,
                    list::keys_of(s.pending_owner_activations.filter(release::over_bridge(b))),
                ),
                b,
            ),
        );
        let closed = release::bridge_closed(unused, b);
        lemma_closed(unused, b);
        lemma_taking_down_gains_nothing(closed, owners, now_ms);
        assert(closed.peer_bridges.contains(row));
    } else {
        list::lemma_first(unused.peer_bridges, release::bridge_at(b));
        let i = unused.peer_bridges.index_of(row);
        assert(!release::bridge_at(b)(unused.peer_bridges[i]));
    }
}

} // verus!
