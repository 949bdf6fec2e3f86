//! Taking down connections, and the terminals that are shown over them, until
//! nothing is left that hangs on what is gone.

use vstd::prelude::*;
use vstd::string::*;

use super::dwindling;
use super::list::{self, List};
use super::release;
use super::remote_presentations as presentations;
use super::{App, AppView, BridgeRef, BridgeRefView, Effect, EffectView, PendingOwnerActivation};
use crate::api::schema::peers::{TerminalDelegationClaim, TerminalDelegationStatus};
use crate::text;

verus! {

impl App {
    /// Gives a connection back. Terminals that were shown over it go; a peer goes
    /// with its last connection.
    pub fn release_peer_bridge(&mut self, peer_id: &str, connection_id: &str, now_ms: u64)
        ensures
            final(self)@ == release::bridge_released(
                old(self)@,
                BridgeRefView { peer_id: peer_id@, connection_id: connection_id@ },
                now_ms,
            ),
        decreases old(self)@.peer_bridges.len(), 0int, 0int,
    {
        let ghost s = self@;
        let ghost b = BridgeRefView { peer_id: peer_id@, connection_id: connection_id@ };
        self.cancel_pending_owner_activations_for_bridge(peer_id, connection_id);
        let owners = self.outbound_owner_terminals_for_bridge(peer_id, connection_id);
        let other = |row: &(BridgeRef, u64)| -> (r: bool)
            ensures
                r == release::deadline_of_other(
                    BridgeRefView { peer_id: peer_id@, connection_id: connection_id@ },
                )(row@),
        {
            !release::same_bridge(&row.0, peer_id, connection_id)
        };
        self.ssh_shell_bridge_deadlines.retain_by(other, Ghost(release::deadline_of_other(b)));
        self.remove_shell_bridge_owner(peer_id, connection_id);
        assert(self@ == release::bridge_unused(s, b));
        if !self.is_connected(peer_id, connection_id) {
            return;
        }
        proof {
            release::lemma_unused_keeps_bridges(s, b);
            release::lemma_closing_leaves_fewer(self@, b);
        }
        let going = self.close_bridge(peer_id, connection_id, owners);
        self.shutdown_outbound_owner_terminals(&going, now_ms);
    }

    pub(crate) fn release_bridges(&mut self, bridges: &List<BridgeRef>, now_ms: u64)
        ensures
            final(self)@ == release::bridges_released(old(self)@, bridges@, now_ms),
        decreases old(self)@.peer_bridges.len(), 1int, bridges@.len(),
    {
        let ghost s = self@;
        let mut i: usize = 0;
        assert(bridges@.skip(0) =~= bridges@);
        while i < bridges.len()
            invariant
                i <= bridges@.len(),
                release::no_more_bridges(s, self@),
                s == old(self)@,
                release::bridges_released(self@, bridges@.skip(i as int), now_ms) == release::bridges_released(
                    s,
                    bridges@,
                    now_ms,
                ),
            decreases bridges@.len() - i,
        {
            let b = bridges.at(i);
            let ghost before = self@;
            assert(bridges@.skip(i as int)[0] == b@);
            assert(bridges@.skip(i as int).skip(1) =~= bridges@.skip(i as int + 1));
            self.release_peer_bridge(b.peer_id.as_str(), b.connection_id.as_str(), now_ms);
            proof {
                dwindling::lemma_bridge_released(before, b@, now_ms);
            }
            i += 1;
        }
    }

    fn give_up_waiting(&mut self, terminal_id: &str, now_ms: u64)
        ensures
            final(self)@ == release::waiting_given_up(old(self)@, terminal_id@, now_ms),
        decreases old(self)@.peer_bridges.len(), 2int, 0int,
    {
        let ghost s = self@;
        let ghost p = presentations::for_terminal(terminal_id@);
        let ghost rows = s.pending_owner_activations.filter(p);
        let bridges = self.dedicated_bridges(terminal_id);
        let hit = |row: &(String, PendingOwnerActivation)| -> (b: bool)
            ensures
                b == presentations::for_terminal(terminal_id@)(row@),
        {
            text::str_eq(row.1.terminal_id.as_str(), terminal_id)
        };
        let ids = self.pending_owner_activations.keys_by(hit, Ghost(p));
        self.cancel_activations(&ids);
        proof {
            release::lemma_cancelling_keeps(s, list::keys_of(rows));
        }
        self.release_bridges(&bridges, now_ms);
    }

    fn leave_shells(&mut self, terminal_id: &str, now_ms: u64) -> (shells: List<BridgeRef>)
        ensures
            ({
                let given_up = release::waiting_given_up(old(self)@, terminal_id@, now_ms);
                &&& final(self)@ == release::shells_left(given_up, terminal_id@)
                &&& shells@ == release::shell_bridges_of(given_up, terminal_id@)
            }),
        decreases old(self)@.peer_bridges.len(), 2int, 1int,
    {
        self.give_up_waiting(terminal_id, now_ms);
        let shells = self.take_shell_bridges(terminal_id);
        self.remote_owner_deadlines.discard(terminal_id);
        shells
    }

    #[verifier::spinoff_prover]
    fn close_shells(&mut self, terminal_id: &str, now_ms: u64)
        ensures
            final(self)@ == release::shells_closed(old(self)@, terminal_id@, now_ms),
        decreases old(self)@.peer_bridges.len(), 3int, 0int,
    {
        proof {
            dwindling::lemma_waiting_given_up(self@, terminal_id@, now_ms);
        }
        let shells = self.leave_shells(terminal_id, now_ms);
        assert(self@.peer_bridges.len() <= old(self)@.peer_bridges.len());
        self.release_bridges(&shells, now_ms);
    }

    /// A terminal lets go of all that it has from other hosts: what it waits for,
    /// what it shows, and the connections that were made for it.
    #[verifier::spinoff_prover]
    #[verifier::rlimit(40)]
    pub fn release_remote_terminal_bridge(&mut self, terminal_id: &str, now_ms: u64)
        ensures
            final(self)@ == release::terminal_released(old(self)@, terminal_id@, now_ms),
        decreases old(self)@.peer_bridges.len(), 4int, 0int,
    {
        proof {
            dwindling::lemma_shells_closed(self@, terminal_id@, now_ms);
        }
        self.close_shells(terminal_id, now_ms);
        let own = self.stop_showing(terminal_id);
        assert(self@.peer_bridges.len() <= old(self)@.peer_bridges.len());
        self.release_bridges(&own, now_ms);
    }

    /// The pane of a terminal lets go of all that it has from other hosts.
    pub fn release_remote_pane_bridge(&mut self, pane_id: u64, now_ms: u64)
        ensures
            final(self)@ == match presentations::pane_anywhere(old(self)@.workspaces, pane_id) {
                Some(pane) => release::terminal_released(old(self)@, pane.terminal_id, now_ms),
                None => old(self)@,
            },
    {
        let terminal_id = match self.find_pane(pane_id) {
            Some(pane) => pane.terminal_id.clone(),
            None => return,
        };
        self.release_remote_terminal_bridge(terminal_id.as_str(), now_ms);
    }

    /// Ends a delegation; tells whether there was one that the claim is good for.
    #[verifier::spinoff_prover]
    pub fn terminate_terminal_delegation(
        &mut self,
        claim: &TerminalDelegationClaim,
        now_ms: u64,
    ) -> (ended: bool)
        ensures
            ended == release::terminable(old(self)@, claim@),
            final(self)@ == release::terminated(old(self)@, claim@, now_ms),
        decreases old(self)@.peer_bridges.len(), 5int, 0int,
    {
        let id = claim.delegation_id.as_str();
        match self.pending.get(id) {
            Some(p) => {
                if p.info.epoch != claim.epoch {
                    return false;
                }
                match self.pending.remove(id) {
                    Some(p) => self.fail_pending_delegation_at(p, now_ms),
                    None => {},
                }
                return true;
            },
            None => {},
        }
        match self.delegated.get(id) {
            Some(d) => {
                if d.info.epoch != claim.epoch {
                    return false;
                }
            },
            None => return false,
        }
        let d = match self.delegated.remove(id) {
            Some(d) => d,
            None => return false,
        };
        assert(self@.peer_bridges == old(self)@.peer_bridges);
        self.release_remote_terminal_bridge(d.moved.terminal_id.as_str(), now_ms);
        self.drop_delegated_pane(&d);
        self.complete(id, d.info, TerminalDelegationStatus::Terminated, now_ms);
        self.fail_pending_takeovers_for(id, now_ms);
        self.session_dirty = true;
        true
    }

    fn report_death(&mut self, pane: Option<u64>)
        ensures
            final(self)@ == (AppView {
                effects: match pane {
                    Some(pane_id) => old(self)@.effects.push(EffectView::PaneDied(pane_id)),
                    None => old(self)@.effects,
                },
                ..old(self)@
            }),
    {
        match pane {
            Some(pane_id) => self.effects.push(Effect::PaneDied(pane_id)),
            None => {},
        }
    }

    #[verifier::spinoff_prover]
    fn shut_down_owner(&mut self, terminal_id: &str, now_ms: u64)
        ensures
            final(self)@ == release::terminal_shut_down(old(self)@, terminal_id@, now_ms),
        decreases old(self)@.peer_bridges.len(), 6int, 0int,
    {
        match self.lending_claim(terminal_id) {
            Some(claim) => {
                let _ = self.terminate_terminal_delegation(&claim, now_ms);
                return;
            },
            None => {},
        }
        let pane = self.pane_for_terminal(terminal_id);
        self.release_remote_terminal_bridge(terminal_id, now_ms);
        self.terminals.discard(terminal_id);
        self.shut_down_runtime(terminal_id);
        self.report_death(pane);
    }

    /// Takes terminals down that showed remote ones.
    pub fn shutdown_outbound_owner_terminals(&mut self, terminals: &Vec<String>, now_ms: u64)
        ensures
            final(self)@ == release::terminals_shut_down(old(self)@, text::views(terminals@), now_ms),
        decreases old(self)@.peer_bridges.len(), 7int, terminals@.len(),
    {
        let ghost s = self@;
        let ghost all = text::views(terminals@);
        let mut i: usize = 0;
        assert(all.skip(0) =~= all);
        while i < terminals.len()
            invariant
                i <= terminals@.len() == all.len(),
                all == text::views(terminals@),
                s == old(self)@,
                release::no_more_bridges(s, self@),
                release::terminals_shut_down(self@, all.skip(i as int), now_ms) == release::terminals_shut_down(
                    s,
                    all,
                    now_ms,
                ),
            decreases terminals@.len() - i,
        {
            let ghost before = self@;
            assert(all.skip(i as int)[0] == terminals@[i as int]@);
            assert(all.skip(i as int).skip(1) =~= all.skip(i as int + 1));
            self.shut_down_owner(terminals[i].as_str(), now_ms);
            proof {
                dwindling::lemma_terminal_shut_down(before, terminals@[i as int]@, now_ms);
            }
            i += 1;
        }
    }
}

} // verus!
