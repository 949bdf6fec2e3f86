//! Taking down never makes more connections.

use vstd::prelude::*;

use super::list;
use super::release;
use super::remote_presentations as presentations;
use super::{AppView, BridgeRefView};
use crate::api::schema::peers::TerminalDelegationStatus;

verus! {

proof fn bounded_bridge_released(n: nat, s: AppView, b: BridgeRefView, now_ms: u64)
    requires
        s.peer_bridges.len() <= n,
    ensures
        release::no_more_bridges(s, release::bridge_released(s, b, now_ms)),
    decreases n, 0int, 0int,
{
    let unused = release::bridge_unused(s, b);
    release::lemma_unused_keeps_bridges(s, b);
    if release::connected(unused, b) {
        release::lemma_closing_leaves_fewer(unused, b);
        let owners = release::going_with(
            unused,
            b,
            release::bridge_owners(
                release::activations_cancelled(
                    s,
                    list::keys_of(s.pending_owner_activations.filter(release::over_bridge(b))),
                ),
                b,
            ),
        );
        bounded_terminals_shut_down((n - 1) as nat, release::bridge_closed(unused, b), owners, now_ms);
    }
}

proof fn bounded_bridges_released(n: nat, s: AppView, bridges: Seq<BridgeRefView>, now_ms: u64)
    requires
        s.peer_bridges.len() <= n,
    ensures
        release::no_more_bridges(s, release::bridges_released(s, bridges, now_ms)),
    decreases n, 1int, bridges.len(),
{
    if bridges.len() > 0 {
        bounded_bridge_released(n, s, bridges[0], now_ms);
        bounded_bridges_released(
            n,
            release::bridge_released(s, bridges[0], now_ms),
            bridges.skip(1),
            now_ms,
        );
    }
}

proof fn bounded_waiting_given_up(n: nat, s: AppView, terminal_id: Seq<char>, now_ms: u64)
    requires
        s.peer_bridges.len() <= n,
    ensures
        release::no_more_bridges(s, release::waiting_given_up(s, terminal_id, now_ms)),
    decreases n, 2int, 0int,
{
    let rows = s.pending_owner_activations.filter(presentations::for_terminal(terminal_id));
    release::lemma_cancelling_keeps(s, list::keys_of(rows));
    bounded_bridges_released(
        n,
        release::activations_cancelled(s, list::keys_of(rows)),
        release::dedicated(rows),
        now_ms,
    );
}

proof fn bounded_shells_closed(n: nat, s: AppView, terminal_id: Seq<char>, now_ms: u64)
    requires
        s.peer_bridges.len() <= n,
    ensures
        release::no_more_bridges(s, release::shells_closed(s, terminal_id, now_ms)),
    decreases n, 3int, 0int,
{
    bounded_waiting_given_up(n, s, terminal_id, now_ms);
    let given_up = release::waiting_given_up(s, terminal_id, now_ms);
    let left = release::shells_left(given_up, terminal_id);
    assert(left.peer_bridges == given_up.peer_bridges);
    bounded_bridges_released(
        n,
        left,
        release::shell_bridges_of(given_up, terminal_id),
        now_ms,
    );
}

proof fn bounded_terminal_released(n: nat, s: AppView, terminal_id: Seq<char>, now_ms: u64)
    requires
        s.peer_bridges.len() <= n,
    ensures
        release::no_more_bridges(s, release::terminal_released(s, terminal_id, now_ms)),
    decreases n, 4int, 0int,
{
    bounded_shells_closed(n, s, terminal_id, now_ms);
    let closed = release::shells_closed(s, terminal_id, now_ms);
    bounded_bridges_released(
        n,
        release::unshown(closed, terminal_id),
        release::as_list(list::lookup(closed.remote_terminal_bridges, terminal_id)),
        now_ms,
    );
}

proof fn bounded_terminated(n: nat, s: AppView, claim: (Seq<char>, u64), now_ms: u64)
    requires
        s.peer_bridges.len() <= n,
    ensures
        release::no_more_bridges(s, release::terminated(s, claim, now_ms)),
    decreases n, 5int, 0int,
{
    match list::lookup(s.pending, claim.0) {
        Some(_) => {},
        None => match list::lookup(s.delegated, claim.0) {
            None => {},
            Some(d) => {
                let taken = AppView { delegated: list::without(s.delegated, claim.0), ..s };
                bounded_terminal_released(n, taken, d.moved.terminal_id, now_ms);
                let over = presentations::ended(
                    release::pane_gone(release::terminal_released(taken, d.moved.terminal_id, now_ms), d),
                    claim.0,
                    d.info,
                    TerminalDelegationStatus::Terminated,
                    now_ms,
                );
                presentations::lemma_failing_keeps(
                    over,
                    list::keys_of(over.pending.filter(presentations::takes_over(claim.0))),
                    now_ms,
                );
            },
        },
    }
}

proof fn bounded_terminal_shut_down(n: nat, s: AppView, terminal_id: Seq<char>, now_ms: u64)
    requires
        s.peer_bridges.len() <= n,
    ensures
        release::no_more_bridges(s, release::terminal_shut_down(s, terminal_id, now_ms)),
    decreases n, 6int, 0int,
{
    match list::first(s.delegated, release::lends(terminal_id)) {
        Some((_, d)) => bounded_terminated(n, s, (d.info.delegation_id, d.info.epoch), now_ms),
        None => bounded_terminal_released(n, s, terminal_id, now_ms),
    }
}

proof fn bounded_terminals_shut_down(n: nat, s: AppView, terminals: Seq<Seq<char>>, now_ms: u64)
    requires
        s.peer_bridges.len() <= n,
    ensures
        release::no_more_bridges(s, release::terminals_shut_down(s, terminals, now_ms)),
    decreases n, 7int, terminals.len(),
{
    if terminals.len() > 0 {
        bounded_terminal_shut_down(n, s, terminals[0], now_ms);
        bounded_terminals_shut_down(
            n,
            release::terminal_shut_down(s, terminals[0], now_ms),
            terminals.skip(1),
            now_ms,
        );
    }
}

/// To give a connection back opens none.
pub proof fn lemma_bridge_released(s: AppView, b: BridgeRefView, now_ms: u64)
    ensures
        release::no_more_bridges(s, release::bridge_released(s, b, now_ms)),
{
    bounded_bridge_released(s.peer_bridges.len(), s, b, now_ms);
}

/// What a terminal waits for can be given up without a new connection.
pub proof fn lemma_waiting_given_up(s: AppView, terminal_id: Seq<char>, now_ms: u64)
    ensures
        release::no_more_bridges(s, release::waiting_given_up(s, terminal_id, now_ms)),
{
    bounded_waiting_given_up(s.peer_bridges.len(), s, terminal_id, now_ms);
}

/// Its shells' connections can be closed without a new one.
pub proof fn lemma_shells_closed(s: AppView, terminal_id: Seq<char>, now_ms: u64)
    ensures
        release::no_more_bridges(s, release::shells_closed(s, terminal_id, now_ms)),
{
    bounded_shells_closed(s.peer_bridges.len(), s, terminal_id, now_ms);
}

/// A terminal that lets go opens no connection.
pub proof fn lemma_terminal_released(s: AppView, terminal_id: Seq<char>, now_ms: u64)
    ensures
        release::no_more_bridges(s, release::terminal_released(s, terminal_id, now_ms)),
{
    bounded_terminal_released(s.peer_bridges.len(), s, terminal_id, now_ms);
}

/// To end a delegation opens no connection.
pub proof fn lemma_terminated(s: AppView, claim: (Seq<char>, u64), now_ms: u64)
    ensures
        release::no_more_bridges(s, release::terminated(s, claim, now_ms)),
{
    bounded_terminated(s.peer_bridges.len(), s, claim, now_ms);
}

/// To take a terminal down opens no connection.
pub proof fn lemma_terminal_shut_down(s: AppView, terminal_id: Seq<char>, now_ms: u64)
    ensures
        release::no_more_bridges(s, release::terminal_shut_down(s, terminal_id, now_ms)),
{
    bounded_terminal_shut_down(s.peer_bridges.len(), s, terminal_id, now_ms);
}

/// To take terminals down opens no connection.
pub proof fn lemma_terminals_shut_down(s: AppView, terminals: Seq<Seq<char>>, now_ms: u64)
    ensures
        release::no_more_bridges(s, release::terminals_shut_down(s, terminals, now_ms)),
{
    bounded_terminals_shut_down(s.peer_bridges.len(), s, terminals, now_ms);
}

} // verus!
