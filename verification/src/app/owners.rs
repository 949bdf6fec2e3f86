//! Local terminals that show remote ones: from the moment a peer has prepared
//! one until its lease runs out.

use vstd::prelude::*;
use vstd::string::*;

use super::list::{self, List};
use super::release;
use super::remote_presentations as presentations;
use super::{
    ActivationView, App, AppView, BridgeRef, BridgeRefView, DelegatedPane, DelegatedView, Effect,
    EffectView, PendingOwnerActivation, PendingTerminalDelegation, PendingView, TerminalView,
};
use crate::api::schema::agents::{
    AgentAttachInfo, AgentTransportInfo, AgentTransportView, AttachView,
};
use crate::api::schema::peers::{
    DelegationView, PeerInfo, PeerTransportInfo, PeerTransportView, PeerView,
    TerminalDelegationClaim, TerminalDelegationInfo,
};
use crate::text;

verus! {

/// How long a terminal shows a remote one without a sign of life.
pub const REMOTE_OWNER_LEASE_MS: u64 = 15000;

/// How long a connection of a shell is kept without a sign of life.
pub const SSH_SHELL_BRIDGE_LEASE_MS: u64 = 15000;

/// How long a peer that connected to this server is kept without a sign of life.
pub const INCOMING_PEER_LEASE_MS: u64 = 15000;

/// The end of a lease that begins now.
pub open spec fn lease_end(now_ms: u64, lease_ms: u64) -> u64 {
    if now_ms + lease_ms > u64::MAX {
        u64::MAX
    } else {
        (now_ms + lease_ms) as u64
    }
}

// ---------------------------------------------------------------------------
// Operations under way

/// One more operation is under way for the terminal.
pub open spec fn operation_begun(s: AppView, terminal_id: Option<Seq<char>>) -> AppView {
    match terminal_id {
        None => s,
        Some(t) => AppView {
            pending_owner_operations: list::with(
                s.pending_owner_operations,
                t,
                match list::lookup(s.pending_owner_operations, t) {
                    Some(n) => if n == u64::MAX {
                        n
                    } else {
                        (n + 1) as u64
                    },
                    None => 1,
                },
            ),
            ..s
        },
    }
}

/// One operation less is under way for the terminal.
pub open spec fn operation_finished(s: AppView, terminal_id: Option<Seq<char>>) -> AppView {
    match terminal_id {
        None => s,
        Some(t) => AppView {
            pending_owner_operations: match list::lookup(s.pending_owner_operations, t) {
                Some(n) => if n > 1 {
                    list::with(s.pending_owner_operations, t, (n - 1) as u64)
                } else {
                    list::without(s.pending_owner_operations, t)
                },
                None => s.pending_owner_operations,
            },
            ..s
        },
    }
}

impl App {
    pub fn begin_pending_owner_operation(&mut self, terminal_id: &Option<String>)
        ensures
            final(self)@ == operation_begun(old(self)@, text::opt_view(*terminal_id)),
    {
        match terminal_id {
            None => {},
            Some(t) => {
                let n: u64 = match self.pending_owner_operations.get(t.as_str()) {
                    Some(n) => n.saturating_add(1),
                    None => 1,
                };
                self.pending_owner_operations.insert(t.clone(), n);
            },
        }
    }

    pub fn finish_pending_owner_operation(&mut self, terminal_id: &Option<String>)
        ensures
            final(self)@ == operation_finished(old(self)@, text::opt_view(*terminal_id)),
    {
        let t = match terminal_id {
            None => return,
            Some(t) => t,
        };
        let n: u64 = match self.pending_owner_operations.get(t.as_str()) {
            Some(n) => *n,
            None => return,
        };
        if n > 1 {
            self.pending_owner_operations.insert(t.clone(), n - 1);
        } else {
            self.pending_owner_operations.discard(t.as_str());
        }
    }
}

// ---------------------------------------------------------------------------
// Activation

/// The terminal waits for the peer to confirm; what it waited for before counts
/// no more.
pub open spec fn waiting(
    s: AppView,
    terminal_id: Seq<char>,
    peer: PeerView,
    connection_id: Seq<char>,
    delegation: DelegationView,
    attach: AttachView,
    release_bridge_on_owner_close: bool,
) -> AppView {
    let c = release::activations_cancelled(
        s,
        list::keys_of(
            s.pending_owner_activations.filter(presentations::for_terminal(terminal_id)),
        ),
    );
    AppView {
        pending_owner_activations: list::with(
            c.pending_owner_activations,
            delegation.delegation_id,
            ActivationView {
                terminal_id,
                bridge: BridgeRefView { peer_id: peer.id, connection_id },
                peer,
                delegation,
                release_bridge_on_owner_close,
            },
        ),
        effects: c.effects.push(
            EffectView::WatchActivation { delegation_id: delegation.delegation_id, attach },
        ),
        ..c
    }
}

/// The transport over which a terminal of an SSH peer is reached.
pub open spec fn shell_transport(peer: PeerView, delegation: DelegationView) -> Option<
    AgentTransportView,
> {
    match peer.transport {
        PeerTransportView::Ssh { target, ssh_args, managed_control_path, session } => Some(
            AgentTransportView::Ssh {
                target,
                ssh_args,
                managed_control_path,
                session,
                remote_terminal_id: delegation.terminal_id,
                remote_pane_id: delegation.pane_id,
                remote_agent: None,
                remote_cwd: None,
            },
        ),
        PeerTransportView::ApiSocket { .. } => None,
    }
}

/// The transport of a remote shell, where the peer is reached over SSH.
pub fn ssh_shell_transport(peer: &PeerInfo, delegation: &TerminalDelegationInfo) -> (r: Option<
    AgentTransportInfo,
>)
    ensures
        text::viewed(r) == shell_transport(peer@, delegation@),
{
    match &peer.transport {
        PeerTransportInfo::Ssh { target, ssh_args, managed_control_path, session } => Some(
            AgentTransportInfo::Ssh {
                target: target.clone(),
                ssh_args: text::clone_strings(ssh_args),
                managed_control_path: text::clone_opt(managed_control_path),
                session: text::clone_opt(session),
                remote_terminal_id: delegation.terminal_id.clone(),
                remote_pane_id: delegation.pane_id.clone(),
                remote_agent: None,
                remote_cwd: None,
            },
        ),
        PeerTransportInfo::ApiSocket { .. } => None,
    }
}

/// The pane that shows a terminal, in a workspace or for another host.
pub open spec fn pane_of_terminal(s: AppView, terminal_id: Seq<char>) -> Option<u64> {
    match presentations::pane_showing(s.workspaces, terminal_id) {
        Some(pane) => Some(pane.pane_id),
        None => match list::first(s.delegated, release::lends(terminal_id)) {
            Some((_, d)) => Some(d.moved.pane_id),
            None => None,
        },
    }
}

/// The terminal has that transport, where the terminal is there.
pub open spec fn with_transport(
    terminals: Seq<(Seq<char>, TerminalView)>,
    terminal_id: Seq<char>,
    transport: AgentTransportView,
) -> Seq<(Seq<char>, TerminalView)> {
    match list::lookup(terminals, terminal_id) {
        Some(t) => list::with(
            terminals,
            terminal_id,
            TerminalView { remote_agent_transport: Some(transport), ..t },
        ),
        None => terminals,
    }
}

/// The remote terminal is mirrored; an earlier mirror is stopped.
pub open spec fn mirrored(
    s: AppView,
    terminal_id: Seq<char>,
    peer: PeerView,
    delegation: DelegationView,
) -> AppView {
    match (shell_transport(peer, delegation), pane_of_terminal(s, terminal_id)) {
        (Some(transport), Some(pane_id)) => {
            let c = release::mirror_cancelled(s, terminal_id);
            AppView {
                terminals: with_transport(s.terminals, terminal_id, transport),
                remote_mirrors: list::with(c.remote_mirrors, terminal_id, ()),
                effects: c.effects.push(
                    EffectView::StartMirror { terminal_id, pane_id, transport },
                ),
                ..c
            }
        },
        _ => s,
    }
}

/// The rows under a key with that connection.
pub open spec fn linked_by(terminal_id: Seq<char>, b: BridgeRefView) -> spec_fn(
    (Seq<char>, BridgeRefView),
) -> bool {
    |row: (Seq<char>, BridgeRefView)| row.0 == terminal_id && row.1 == b
}

/// The terminal shows the remote one.
pub open spec fn showing(s: AppView, p: ActivationView, now_ms: u64) -> AppView {
    AppView {
        session_dirty: true,
        ..mirrored(
            AppView {
                ssh_shell_bridges: if p.release_bridge_on_owner_close && !list::some(
                    s.ssh_shell_bridges,
                    linked_by(p.terminal_id, p.bridge),
                ) {
                    s.ssh_shell_bridges.push((p.terminal_id, p.bridge))
                } else {
                    s.ssh_shell_bridges
                },
                remote_owner_deadlines: if p.release_bridge_on_owner_close {
                    s.remote_owner_deadlines
                } else {
                    list::with(
                        s.remote_owner_deadlines,
                        p.terminal_id,
                        lease_end(now_ms, REMOTE_OWNER_LEASE_MS),
                    )
                },
                remote_owner_presentations: list::with(
                    s.remote_owner_presentations,
                    p.terminal_id,
                    p.delegation,
                ),
                remote_owner_peers: list::with(
                    s.remote_owner_peers,
                    p.terminal_id,
                    p.bridge.peer_id,
                ),
                ..s
            },
            p.terminal_id,
            p.peer,
            p.delegation,
        )
    }
}

/// The wait for an activation is over.
pub open spec fn activation_finished(
    s: AppView,
    delegation_id: Seq<char>,
    activated: bool,
    now_ms: u64,
) -> AppView {
    match list::lookup(s.pending_owner_activations, delegation_id) {
        None => s,
        Some(p) => {
            let c = release::activation_cancelled(s, delegation_id);
            if activated && list::present(s.terminals, p.terminal_id) && release::connected(
                s,
                p.bridge,
            ) {
                showing(c, p, now_ms)
            } else {
                c
            }
        },
    }
}

/// An activation of that epoch is waited for.
pub open spec fn awaited(s: AppView, claim: (Seq<char>, u64)) -> bool {
    match list::lookup(s.pending_owner_activations, claim.0) {
        Some(p) => p.delegation.epoch == claim.1,
        None => false,
    }
}

impl App {
    /// A local terminal waits for a peer to confirm that it may show a remote one.
    pub fn register_pending_owner_activation(
        &mut self,
        terminal_id: String,
        peer: PeerInfo,
        connection_id: String,
        delegation: TerminalDelegationInfo,
        attach: AgentAttachInfo,
        release_bridge_on_owner_close: bool,
    )
        ensures
            final(self)@ == waiting(
                old(self)@,
                terminal_id@,
                peer@,
                connection_id@,
                delegation@,
                attach@,
                release_bridge_on_owner_close,
            ),
    {
        let hit = |row: &(String, PendingOwnerActivation)| -> (b: bool)
            ensures
                b == presentations::for_terminal(terminal_id@)(row@),
        {
            text::str_eq(row.1.terminal_id.as_str(), terminal_id.as_str())
        };
        let stale = self.pending_owner_activations.keys_by(
            hit,
            Ghost(presentations::for_terminal(terminal_id@)),
        );
        self.cancel_activations(&stale);
        self.effects.push(
            Effect::WatchActivation { delegation_id: delegation.delegation_id.clone(), attach },
        );
        let bridge = BridgeRef { peer_id: peer.id.clone(), connection_id };
        self.pending_owner_activations.insert(
            delegation.delegation_id.clone(),
            PendingOwnerActivation {
                terminal_id,
                bridge,
                peer,
                delegation,
                release_bridge_on_owner_close,
            },
        );
    }

    fn pane_showing_terminal(&self, terminal_id: &str) -> (r: Option<u64>)
        ensures
            r == pane_of_terminal(self@, terminal_id@),
    {
        match self.pane_for_terminal(terminal_id) {
            Some(pane_id) => Some(pane_id),
            None => {
                let hit = |row: &(String, DelegatedPane)| -> (b: bool)
                    ensures
                        b == release::lends(terminal_id@)(row@),
                {
                    text::str_eq(row.1.moved.terminal_id.as_str(), terminal_id)
                };
                match self.delegated.find_by(hit, Ghost(release::lends(terminal_id@))) {
                    Some(i) => Some(self.delegated.at(i).1.moved.pane_id),
                    None => None,
                }
            },
        }
    }

    pub(crate) fn set_transport(&mut self, terminal_id: &str, transport: AgentTransportInfo)
        ensures
            final(self)@ == (AppView {
                terminals: with_transport(old(self)@.terminals, terminal_id@, transport@),
                ..old(self)@
            }),
    {
        match self.terminals.remove(terminal_id) {
            Some(t) => {
                let mut t = t;
                t.remote_agent_transport = Some(transport);
                proof {
                    list::lemma_without_twice(old(self)@.terminals, terminal_id@);
                }
                self.terminals.insert(terminal_id.to_string(), t);
            },
            None => {
                proof {
                    list::lemma_without_absent(old(self)@.terminals, terminal_id@);
                }
            },
        }
    }

    fn start_ssh_shell_mirror(
        &mut self,
        terminal_id: &str,
        peer: &PeerInfo,
        delegation: &TerminalDelegationInfo,
    )
        ensures
            final(self)@ == mirrored(old(self)@, terminal_id@, peer@, delegation@),
    {
        let transport = match ssh_shell_transport(peer, delegation) {
            Some(transport) => transport,
            None => return,
        };
        let pane_id = match self.pane_showing_terminal(terminal_id) {
            Some(pane_id) => pane_id,
            None => return,
        };
        let _ = self.cancel_mirror(terminal_id);
        self.set_transport(terminal_id, transport.clone());
        self.remote_mirrors.insert(terminal_id.to_string(), ());
        self.effects.push(
            Effect::StartMirror { terminal_id: terminal_id.to_string(), pane_id, transport },
        );
    }

    fn link_owner(&mut self, p: &PendingOwnerActivation, now_ms: u64)
        ensures
            final(self)@ == (AppView {
                ssh_shell_bridges: if p@.release_bridge_on_owner_close && !list::some(
                    old(self)@.ssh_shell_bridges,
                    linked_by(p@.terminal_id, p@.bridge),
                ) {
                    old(self)@.ssh_shell_bridges.push((p@.terminal_id, p@.bridge))
                } else {
                    old(self)@.ssh_shell_bridges
                },
                remote_owner_deadlines: if p@.release_bridge_on_owner_close {
                    old(self)@.remote_owner_deadlines
                } else {
                    list::with(
                        old(self)@.remote_owner_deadlines,
                        p@.terminal_id,
                        lease_end(now_ms, REMOTE_OWNER_LEASE_MS),
                    )
                },
                ..old(self)@
            }),
    {
        if p.release_bridge_on_owner_close {
            let hit = |row: &(String, BridgeRef)| -> (b: bool)
                ensures
                    b == linked_by(p@.terminal_id, p@.bridge)(row@),
            {
                text::str_eq(row.0.as_str(), p.terminal_id.as_str()) && release::same_bridge(
                    &row.1,
                    p.bridge.peer_id.as_str(),
                    p.bridge.connection_id.as_str(),
                )
            };
            let linked = self.ssh_shell_bridges.some_by(
                hit,
                Ghost(linked_by(p@.terminal_id, p@.bridge)),
            );
            if !linked {
                self.ssh_shell_bridges.push((p.terminal_id.clone(), p.bridge.clone()));
            }
        } else {
            self.remote_owner_deadlines.insert(
                p.terminal_id.clone(),
                now_ms.saturating_add(REMOTE_OWNER_LEASE_MS),
            );
        }
    }

    fn show_remote(&mut self, p: PendingOwnerActivation, now_ms: u64)
        ensures
            final(self)@ == showing(old(self)@, p@, now_ms),
    {
        self.link_owner(&p, now_ms);
        self.remote_owner_presentations.insert(p.terminal_id.clone(), p.delegation.clone());
        self.remote_owner_peers.insert(p.terminal_id.clone(), p.bridge.peer_id.clone());
        self.start_ssh_shell_mirror(p.terminal_id.as_str(), &p.peer, &p.delegation);
        self.session_dirty = true;
    }

    /// The wait for an activation is over: the terminal shows the remote one
    /// where it was activated and both the terminal and the connection are there.
    pub fn finish_pending_owner_activation(
        &mut self,
        delegation_id: &str,
        activated: bool,
        now_ms: u64,
    )
        ensures
            final(self)@ == activation_finished(old(self)@, delegation_id@, activated, now_ms),
    {
        let p = match self.pending_owner_activations.remove(delegation_id) {
            Some(p) => p,
            None => {
                proof {
                    list::lemma_without_absent(
                        old(self)@.pending_owner_activations,
                        delegation_id@,
                    );
                }
                return;
            },
        };
        self.effects.push(Effect::CancelActivation(delegation_id.to_string()));
        if !activated || !self.terminals.contains(p.terminal_id.as_str()) || !self.is_connected(
            p.bridge.peer_id.as_str(),
            p.bridge.connection_id.as_str(),
        ) {
            return;
        }
        self.show_remote(p, now_ms);
    }

    /// An activation of that epoch is waited for.
    pub fn awaits(&self, claim: &TerminalDelegationClaim) -> (r: bool)
        ensures
            r == awaited(self@, claim@),
    {
        match self.pending_owner_activations.get(claim.delegation_id.as_str()) {
            Some(p) => p.delegation.epoch == claim.epoch,
            None => false,
        }
    }
}

// ---------------------------------------------------------------------------
// Terminations in bulk

/// The delegation of a claim is ended.
#[verifier::opaque]
pub open spec fn one_terminated(s: AppView, claim: (Seq<char>, u64), now_ms: u64) -> AppView {
    release::terminated(s, claim, now_ms)
}

/// The delegations of these claims are ended, in that order.
pub open spec fn terminated_all(s: AppView, claims: Seq<(Seq<char>, u64)>, now_ms: u64) -> AppView
    decreases claims.len(),
{
    if claims.len() == 0 {
        s
    } else {
        terminated_all(one_terminated(s, claims[0], now_ms), claims.skip(1), now_ms)
    }
}

pub open spec fn routed_by(peer_id: Seq<char>) -> spec_fn((Seq<char>, DelegatedView)) -> bool {
    |row: (Seq<char>, DelegatedView)| row.1.info.owner.route.contains(peer_id)
}

pub open spec fn pending_by(peer_id: Seq<char>) -> spec_fn((Seq<char>, PendingView)) -> bool {
    |row: (Seq<char>, PendingView)| row.1.info.owner.route.contains(peer_id)
}

pub open spec fn anything() -> spec_fn((Seq<char>, DelegatedView)) -> bool {
    |row: (Seq<char>, DelegatedView)| true
}

pub open spec fn claim_to(row: (Seq<char>, DelegatedView)) -> (Seq<char>, u64) {
    (row.1.info.delegation_id, row.1.info.epoch)
}

pub open spec fn claims_to(rows: Seq<(Seq<char>, DelegatedView)>) -> Seq<(Seq<char>, u64)> {
    rows.map_values(|row: (Seq<char>, DelegatedView)| claim_to(row))
}

/// Every delegation whose route passes a host has ended.
pub open spec fn route_terminated(s: AppView, peer_id: Seq<char>, now_ms: u64) -> AppView {
    presentations::failed_all(
        terminated_all(s, claims_to(s.delegated.filter(routed_by(peer_id))), now_ms),
        list::keys_of(s.pending.filter(pending_by(peer_id))),
        now_ms,
    )
}

/// Every delegation has ended.
pub open spec fn all_terminated(s: AppView, now_ms: u64) -> AppView {
    let ended = terminated_all(s, claims_to(s.delegated), now_ms);
    presentations::failed_all(ended, list::keys_of(ended.pending), now_ms)
}

impl App {
    fn claims_by<F: Fn(&(String, DelegatedPane)) -> bool>(
        &self,
        f: F,
        Ghost(p): Ghost<spec_fn((Seq<char>, DelegatedView)) -> bool>,
    ) -> (r: List<TerminalDelegationClaim>)
        requires
            forall|row: &(String, DelegatedPane)| #[trigger] f.requires((row,)),
            forall|row: &(String, DelegatedPane), b: bool| #[trigger]
                f.ensures((row,), b) ==> b == p(row@),
        ensures
            r@ == claims_to(self@.delegated.filter(p)),
    {
        let ghost all = self@.delegated;
        let mut out: List<TerminalDelegationClaim> = List::new();
        let mut i: usize = 0;
        proof {
            list::lemma_filter_empty(p);
            assert(all.take(0) =~= Seq::<(Seq<char>, DelegatedView)>::empty());
            assert(out@ =~= claims_to(all.take(0).filter(p)));
        }
        while i < self.delegated.len()
            invariant
                i <= all.len(),
                all == self@.delegated,
                out@ == claims_to(all.take(i as int).filter(p)),
                forall|row: &(String, DelegatedPane)| #[trigger] f.requires((row,)),
                forall|row: &(String, DelegatedPane), b: bool| #[trigger]
                    f.ensures((row,), b) ==> b == p(row@),
            decreases all.len() - i,
        {
            let row = self.delegated.at(i);
            let hit = f(row);
            proof {
                list::lemma_filter_step(all, i as int, p);
                assert(hit == p(all[i as int]));
            }
            if hit {
                out.push(
                    TerminalDelegationClaim {
                        delegation_id: row.1.info.delegation_id.clone(),
                        epoch: row.1.info.epoch,
                    },
                );
                assert(out@ =~= claims_to(all.take(i as int + 1).filter(p)));
            }
            i += 1;
        }
        assert(all.take(all.len() as int) =~= all);
        out
    }

    fn terminate_one(&mut self, claim: &TerminalDelegationClaim, now_ms: u64)
        ensures
            final(self)@ == one_terminated(old(self)@, claim@, now_ms),
    {
        proof {
            reveal(one_terminated);
        }
        let _ = self.terminate_terminal_delegation(claim, now_ms);
    }

    fn terminate_claims(&mut self, claims: &List<TerminalDelegationClaim>, now_ms: u64)
        ensures
            final(self)@ == terminated_all(old(self)@, claims@, now_ms),
    {
        let mut i: usize = 0;
        assert(claims@.skip(0) =~= claims@);
        while i < claims.len()
            invariant
                i <= claims@.len(),
                terminated_all(self@, claims@.skip(i as int), now_ms) == terminated_all(
                    old(self)@,
                    claims@,
                    now_ms,
                ),
            decreases claims@.len() - i,
        {
            assert(claims@.skip(i as int)[0] == claims@[i as int]);
            assert(claims@.skip(i as int).skip(1) =~= claims@.skip(i as int + 1));
            self.terminate_one(claims.at(i), now_ms);
            i += 1;
        }
    }

    /// Ends every delegation whose route passes a host; tells how many were
    /// active.
    pub fn terminate_remote_presentations_for_route_peer(
        &mut self,
        peer_id: &str,
        now_ms: u64,
    ) -> (count: usize)
        ensures
            count == old(self)@.delegated.filter(routed_by(peer_id@)).len(),
            final(self)@ == route_terminated(old(self)@, peer_id@, now_ms),
    {
        let active = |row: &(String, DelegatedPane)| -> (b: bool)
            ensures
                b == routed_by(peer_id@)(row@),
        {
            text::contains_string(&row.1.info.owner.route, peer_id)
        };
        let claims = self.claims_by(active, Ghost(routed_by(peer_id@)));
        let waiting = |row: &(String, PendingTerminalDelegation)| -> (b: bool)
            ensures
                b == pending_by(peer_id@)(row@),
        {
            text::contains_string(&row.1.info.owner.route, peer_id)
        };
        let ids = self.pending.keys_by(waiting, Ghost(pending_by(peer_id@)));
        let count: usize = claims.len();
        self.terminate_claims(&claims, now_ms);
        self.fail_pending_ids(&ids, now_ms);
        count
    }

    /// Ends every delegation; tells how many were active.
    pub fn terminate_all_remote_presentations(&mut self, now_ms: u64) -> (count: usize)
        ensures
            count == old(self)@.delegated.len(),
            final(self)@ == all_terminated(old(self)@, now_ms),
    {
        let every = |row: &(String, DelegatedPane)| -> (b: bool)
            ensures
                b,
        {
            true
        };
        let claims = self.claims_by(every, Ghost(anything()));
        proof {
            list::lemma_filter_all(self@.delegated, anything());
        }
        let count: usize = self.active_remote_presentation_count();
        self.terminate_claims(&claims, now_ms);
        self.fail_all_pending(now_ms);
        count
    }

    fn fail_all_pending(&mut self, now_ms: u64)
        ensures
            final(self)@ == presentations::failed_all(
                old(self)@,
                list::keys_of(old(self)@.pending),
                now_ms,
            ),
    {
        let every = |row: &(String, PendingTerminalDelegation)| -> (b: bool)
            ensures
                b,
        {
            true
        };
        let ghost p = |row: (Seq<char>, PendingView)| true;
        let ids = self.pending.keys_by(every, Ghost(p));
        proof {
            list::lemma_filter_all(self@.pending, p);
        }
        self.fail_pending_ids(&ids, now_ms);
    }
}

// ---------------------------------------------------------------------------
// Leases

pub open spec fn lapsed(now_ms: u64) -> spec_fn((Seq<char>, u64)) -> bool {
    |row: (Seq<char>, u64)| now_ms >= row.1
}

/// The earliest of the deadlines.
pub open spec fn earliest<K>(rows: Seq<(K, u64)>) -> Option<u64>
    decreases rows.len(),
{
    if rows.len() == 0 {
        None
    } else {
        match earliest(rows.drop_last()) {
            None => Some(rows.last().1),
            Some(d) => if rows.last().1 < d {
                Some(rows.last().1)
            } else {
                Some(d)
            },
        }
    }
}

fn earliest_of<K: View>(rows: &List<(K, u64)>) -> (r: Option<u64>)
    ensures
        r == earliest(rows@),
{
    let mut best: Option<u64> = None;
    let mut i: usize = 0;
    while i < rows.len()
        invariant
            i <= rows@.len(),
            best == earliest(rows@.take(i as int)),
        decreases rows@.len() - i,
    {
        let d: u64 = rows.at(i).1;
        assert(rows@.take(i as int + 1).drop_last() =~= rows@.take(i as int));
        assert(rows@.take(i as int + 1).last() == rows@[i as int]);
        best = match best {
            None => Some(d),
            Some(b) => if d < b {
                Some(d)
            } else {
                Some(b)
            },
        };
        i += 1;
    }
    assert(rows@.take(rows@.len() as int) =~= rows@);
    best
}

/// No deadline is before the earliest one, which is one of them.
pub proof fn lemma_earliest<K>(rows: Seq<(K, u64)>)
    ensures
        earliest(rows) is None <==> rows.len() == 0,
        earliest(rows) matches Some(d) ==> (exists|i: int|
            0 <= i < rows.len() && (#[trigger] rows[i]).1 == d) && forall|i: int|
            0 <= i < rows.len() ==> d <= (#[trigger] rows[i]).1,
    decreases rows.len(),
{
    if rows.len() > 0 {
        let front = rows.drop_last();
        lemma_earliest(front);
        let n = rows.len() - 1;
        match earliest(front) {
            None => {
                assert(rows[n].1 == rows.last().1);
            },
            Some(d) => {
                let k = choose|i: int| 0 <= i < front.len() && (#[trigger] front[i]).1 == d;
                assert(rows[k].1 == d);
                assert(rows[n].1 == rows.last().1);
                assert forall|i: int| 0 <= i < rows.len() implies earliest(rows)->0 <= (
                #[trigger] rows[i]).1 by {
                    if i < n {
                        assert(front[i].1 == rows[i].1);
                    }
                }
            },
        }
    }
}

/// The terminals whose lease has run out have gone.
pub open spec fn owners_aged(s: AppView, now_ms: u64) -> AppView {
    release::terminals_shut_down(
        AppView {
            remote_owner_deadlines: s.remote_owner_deadlines.filter(not_lapsed(now_ms)),
            ..s
        },
        list::keys_of(s.remote_owner_deadlines.filter(lapsed(now_ms))),
        now_ms,
    )
}

pub open spec fn not_lapsed(now_ms: u64) -> spec_fn((Seq<char>, u64)) -> bool {
    |row: (Seq<char>, u64)| now_ms < row.1
}

impl App {
    pub fn next_ssh_shell_bridge_deadline(&self) -> (r: Option<u64>)
        ensures
            r == earliest(self@.ssh_shell_bridge_deadlines),
    {
        earliest_of(&self.ssh_shell_bridge_deadlines)
    }

    pub fn next_incoming_peer_deadline(&self) -> (r: Option<u64>)
        ensures
            r == earliest(self@.incoming_peer_deadlines),
    {
        earliest_of(&self.incoming_peer_deadlines)
    }

    pub fn next_remote_owner_deadline(&self) -> (r: Option<u64>)
        ensures
            r == earliest(self@.remote_owner_deadlines),
    {
        earliest_of(&self.remote_owner_deadlines)
    }

    /// Extends the lease of a terminal that has one.
    pub fn renew_remote_owner_lease(&mut self, terminal_id: &str, now_ms: u64)
        ensures
            final(self)@ == (AppView {
                remote_owner_deadlines: if list::present(
                    old(self)@.remote_owner_deadlines,
                    terminal_id@,
                ) {
                    list::with(
                        old(self)@.remote_owner_deadlines,
                        terminal_id@,
                        lease_end(now_ms, REMOTE_OWNER_LEASE_MS),
                    )
                } else {
                    old(self)@.remote_owner_deadlines
                },
                ..old(self)@
            }),
    {
        if self.remote_owner_deadlines.contains(terminal_id) {
            self.remote_owner_deadlines.insert(
                terminal_id.to_string(),
                now_ms.saturating_add(REMOTE_OWNER_LEASE_MS),
            );
        }
    }

    /// Takes the terminals down whose lease has run out; tells whether there were
    /// any.
    pub fn expire_remote_owner_leases(&mut self, now_ms: u64) -> (changed: bool)
        ensures
            changed == list::some(old(self)@.remote_owner_deadlines, lapsed(now_ms)),
            final(self)@ == owners_aged(old(self)@, now_ms),
    {
        let late = |row: &(String, u64)| -> (b: bool)
            ensures
                b == lapsed(now_ms)(row@),
        {
            now_ms >= row.1
        };
        let changed = self.remote_owner_deadlines.some_by(late, Ghost(lapsed(now_ms)));
        let expired = self.remote_owner_deadlines.keys_by(late, Ghost(lapsed(now_ms)));
        let kept = |row: &(String, u64)| -> (b: bool)
            ensures
                b == not_lapsed(now_ms)(row@),
        {
            now_ms < row.1
        };
        self.remote_owner_deadlines.retain_by(kept, Ghost(not_lapsed(now_ms)));
        self.shutdown_outbound_owner_terminals(&expired, now_ms);
        changed
    }
}

} // verus!
