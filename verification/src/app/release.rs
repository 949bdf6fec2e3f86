//! Taking connections and presentations down.
//!
//! A connection that goes takes the terminals with it that are shown over it; a
//! terminal that goes takes the connections with it that were made for it.

use vstd::prelude::*;
use vstd::string::*;

use super::list::{self, List};
use super::remote_presentations as presentations;
use super::{
    ActivationView, App, AppView, BridgeRef, BridgeRefView, BridgeView, DelegatedPane,
    DelegatedView, Effect, EffectView, PeerBridge, PendingOwnerActivation, TerminalView,
};
use crate::api::schema::peers::{
    PeerInfo, PeerView, TerminalDelegationClaim, TerminalDelegationStatus,
};
use crate::desktop_queue::order;
use crate::text;

verus! {

// ---------------------------------------------------------------------------
// Refreshes

/// The peer is not asked for its agents any more.
pub open spec fn refresh_cancelled(s: AppView, peer_id: Seq<char>) -> AppView {
    AppView {
        peer_refreshes: list::without(s.peer_refreshes, peer_id),
        peer_refresh_generations: list::without(s.peer_refresh_generations, peer_id),
        peer_agent_cache: list::without(s.peer_agent_cache, peer_id),
        incoming_peer_deadlines: list::without(s.incoming_peer_deadlines, peer_id),
        effects: if list::present(s.peer_refreshes, peer_id) {
            s.effects.push(EffectView::CancelRefresh(peer_id))
        } else {
            s.effects
        },
        ..s
    }
}

/// The peer is asked for its agents from now on; answers to earlier questions do
/// not count.
pub open spec fn refresh_started(s: AppView, peer: PeerView) -> AppView {
    let c = refresh_cancelled(s, peer.id);
    AppView {
        next_peer_refresh_generation: presentations::next_sequence(s.next_peer_refresh_generation),
        peer_refresh_generations: list::with(
            c.peer_refresh_generations,
            peer.id,
            s.next_peer_refresh_generation,
        ),
        peer_refreshes: list::with(c.peer_refreshes, peer.id, ()),
        effects: c.effects.push(
            EffectView::StartRefresh { peer, generation: s.next_peer_refresh_generation },
        ),
        ..c
    }
}

impl App {
    pub fn cancel_peer_refresh(&mut self, peer_id: &str)
        ensures
            final(self)@ == refresh_cancelled(old(self)@, peer_id@),
    {
        if self.peer_refreshes.contains(peer_id) {
            self.effects.push(Effect::CancelRefresh(peer_id.to_string()));
        }
        self.peer_refreshes.discard(peer_id);
        self.peer_refresh_generations.discard(peer_id);
        self.peer_agent_cache.discard(peer_id);
        self.incoming_peer_deadlines.discard(peer_id);
    }

    pub fn start_peer_refresh(&mut self, peer: PeerInfo)
        ensures
            final(self)@ == refresh_started(old(self)@, peer@),
    {
        self.cancel_peer_refresh(peer.id.as_str());
        let generation: u64 = self.next_peer_refresh_generation;
        self.next_peer_refresh_generation = generation.wrapping_add(1);
        self.peer_refresh_generations.insert(peer.id.clone(), generation);
        self.peer_refreshes.insert(peer.id.clone(), ());
        self.effects.push(Effect::StartRefresh { peer, generation });
    }
}

// ---------------------------------------------------------------------------
// Activations that are waited for

/// The activation is not waited for any more.
pub open spec fn activation_cancelled(s: AppView, delegation_id: Seq<char>) -> AppView {
    AppView {
        pending_owner_activations: list::without(s.pending_owner_activations, delegation_id),
        effects: presentations::effects_if(
            s.effects,
            list::present(s.pending_owner_activations, delegation_id),
            EffectView::CancelActivation(delegation_id),
        ),
        ..s
    }
}

pub open spec fn activations_cancelled(s: AppView, ids: Seq<Seq<char>>) -> AppView
    decreases ids.len(),
{
    if ids.len() == 0 {
        s
    } else {
        activations_cancelled(activation_cancelled(s, ids[0]), ids.skip(1))
    }
}

pub open spec fn over_bridge(b: BridgeRefView) -> spec_fn((Seq<char>, ActivationView)) -> bool {
    |row: (Seq<char>, ActivationView)| row.1.bridge == b
}

pub open spec fn over_peer(peer_id: Seq<char>) -> spec_fn((Seq<char>, ActivationView)) -> bool {
    |row: (Seq<char>, ActivationView)| row.1.bridge.peer_id == peer_id
}

pub(crate) fn same_bridge(a: &BridgeRef, peer_id: &str, connection_id: &str) -> (r: bool)
    ensures
        r == (a@ == (BridgeRefView { peer_id: peer_id@, connection_id: connection_id@ })),
{
    text::str_eq(a.peer_id.as_str(), peer_id) && text::str_eq(
        a.connection_id.as_str(),
        connection_id,
    )
}

impl App {
    pub fn cancel_pending_owner_activation(&mut self, delegation_id: &str)
        ensures
            final(self)@ == activation_cancelled(old(self)@, delegation_id@),
    {
        if self.pending_owner_activations.contains(delegation_id) {
            self.effects.push(Effect::CancelActivation(delegation_id.to_string()));
        }
        self.pending_owner_activations.discard(delegation_id);
    }

    pub(crate) fn cancel_activations(&mut self, ids: &Vec<String>)
        ensures
            final(self)@ == activations_cancelled(old(self)@, text::views(ids@)),
    {
        let mut i: usize = 0;
        assert(text::views(ids@).skip(0) =~= text::views(ids@));
        while i < ids.len()
            invariant
                i <= ids@.len(),
                activations_cancelled(self@, text::views(ids@).skip(i as int))
                    == activations_cancelled(old(self)@, text::views(ids@)),
            decreases ids@.len() - i,
        {
            assert(text::views(ids@).skip(i as int)[0] == ids@[i as int]@);
            assert(text::views(ids@).skip(i as int).skip(1) =~= text::views(ids@).skip(
                i as int + 1,
            ));
            self.cancel_pending_owner_activation(ids[i].as_str());
            i += 1;
        }
    }

    pub(crate) fn cancel_pending_owner_activations_for_bridge(
        &mut self,
        peer_id: &str,
        connection_id: &str,
    )
        ensures
            final(self)@ == activations_cancelled(
                old(self)@,
                list::keys_of(
                    old(self)@.pending_owner_activations.filter(
                        over_bridge(
                            BridgeRefView { peer_id: peer_id@, connection_id: connection_id@ },
                        ),
                    ),
                ),
            ),
    {
        let hit = |row: &(String, PendingOwnerActivation)| -> (b: bool)
            ensures
                b == over_bridge(
                    BridgeRefView { peer_id: peer_id@, connection_id: connection_id@ },
                )(row@),
        {
            same_bridge(&row.1.bridge, peer_id, connection_id)
        };
        let ids = self.pending_owner_activations.keys_by(
            hit,
            Ghost(
                over_bridge(
                    BridgeRefView { peer_id: peer_id@, connection_id: connection_id@ },
                ),
            ),
        );
        self.cancel_activations(&ids);
    }

    pub(crate) fn cancel_pending_owner_activations_for_peer(&mut self, peer_id: &str)
        ensures
            final(self)@ == activations_cancelled(
                old(self)@,
                list::keys_of(old(self)@.pending_owner_activations.filter(over_peer(peer_id@))),
            ),
    {
        let hit = |row: &(String, PendingOwnerActivation)| -> (b: bool)
            ensures
                b == over_peer(peer_id@)(row@),
        {
            text::str_eq(row.1.bridge.peer_id.as_str(), peer_id)
        };
        let ids = self.pending_owner_activations.keys_by(hit, Ghost(over_peer(peer_id@)));
        self.cancel_activations(&ids);
    }
}

// ---------------------------------------------------------------------------
// The terminals shown over a connection

pub open spec fn by_bridge(b: BridgeRefView) -> spec_fn((Seq<char>, BridgeRefView)) -> bool {
    |row: (Seq<char>, BridgeRefView)| row.1 == b
}

pub open spec fn not_by_bridge(b: BridgeRefView) -> spec_fn((Seq<char>, BridgeRefView)) -> bool {
    |row: (Seq<char>, BridgeRefView)| row.1 != b
}

pub open spec fn by_peer(peer_id: Seq<char>) -> spec_fn((Seq<char>, BridgeRefView)) -> bool {
    |row: (Seq<char>, BridgeRefView)| row.1.peer_id == peer_id
}

pub open spec fn deadline_of_other(b: BridgeRefView) -> spec_fn((BridgeRefView, u64)) -> bool {
    |row: (BridgeRefView, u64)| row.0 != b
}

pub open spec fn owned_by(peer_id: Seq<char>) -> spec_fn((Seq<char>, Seq<char>)) -> bool {
    |row: (Seq<char>, Seq<char>)| row.1 == peer_id
}

/// The terminals that are shown over a connection.
pub open spec fn bridge_owners(s: AppView, b: BridgeRefView) -> Seq<Seq<char>> {
    list::keys_of(s.ssh_shell_bridges.filter(by_bridge(b))) + list::keys_of(
        s.remote_terminal_bridges.filter(by_bridge(b)),
    )
}

pub open spec fn peer_owners(s: AppView, peer_id: Seq<char>) -> Seq<Seq<char>> {
    list::keys_of(s.remote_owner_peers.filter(owned_by(peer_id)))
}

/// The transport of the terminal is forgotten.
pub open spec fn without_transport(s: AppView, terminal_id: Seq<char>) -> AppView {
    AppView {
        terminals: match list::lookup(s.terminals, terminal_id) {
            Some(t) => list::with(
                s.terminals,
                terminal_id,
                TerminalView { remote_agent_transport: None, ..t },
            ),
            None => s.terminals,
        },
        ..s
    }
}

/// The mirror of the terminal is stopped, where there is one.
pub open spec fn mirror_cancelled(s: AppView, terminal_id: Seq<char>) -> AppView {
    AppView {
        remote_mirrors: list::without(s.remote_mirrors, terminal_id),
        effects: presentations::effects_if(
            s.effects,
            list::present(s.remote_mirrors, terminal_id),
            EffectView::CancelMirror(terminal_id),
        ),
        ..s
    }
}

/// A terminal that no connection is left for shows no remote terminal any more.
pub open spec fn unlinked(s: AppView, terminal_id: Seq<char>) -> AppView {
    if list::present(s.ssh_shell_bridges, terminal_id) || list::present(
        s.remote_terminal_bridges,
        terminal_id,
    ) {
        s
    } else {
        without_transport(
            mirror_cancelled(
                AppView {
                    remote_owner_presentations: list::without(
                        s.remote_owner_presentations,
                        terminal_id,
                    ),
                    remote_owner_peers: list::without(s.remote_owner_peers, terminal_id),
                    remote_owner_deadlines: list::without(s.remote_owner_deadlines, terminal_id),
                    ..s
                },
                terminal_id,
            ),
            terminal_id,
        )
    }
}

pub open spec fn unlinked_all(s: AppView, terminals: Seq<Seq<char>>) -> AppView
    decreases terminals.len(),
{
    if terminals.len() == 0 {
        s
    } else {
        unlinked_all(unlinked(s, terminals[0]), terminals.skip(1))
    }
}

/// No shell uses the connection any more.
pub open spec fn shell_bridge_removed(s: AppView, b: BridgeRefView) -> AppView {
    unlinked_all(
        AppView { ssh_shell_bridges: s.ssh_shell_bridges.filter(not_by_bridge(b)), ..s },
        list::keys_of(s.ssh_shell_bridges.filter(by_bridge(b))),
    )
}

impl App {
    fn forget_transport(&mut self, terminal_id: &str)
        ensures
            final(self)@ == without_transport(old(self)@, terminal_id@),
    {
        match self.terminals.remove(terminal_id) {
            Some(t) => {
                let mut t = t;
                t.remote_agent_transport = None;
                proof {
                    list::lemma_without_twice(old(self)@.terminals, terminal_id@);
                }
                self.terminals.insert(terminal_id.to_string(), t);
            },
            None => {
                proof {
                    list::lemma_without_absent(old(self)@.terminals, terminal_id@);
                }
            },
        }
    }

    pub(crate) fn cancel_mirror(&mut self, terminal_id: &str) -> (cancelled: bool)
        ensures
            cancelled == list::present(old(self)@.remote_mirrors, terminal_id@),
            final(self)@ == mirror_cancelled(old(self)@, terminal_id@),
    {
        let cancelled = self.remote_mirrors.contains(terminal_id);
        if cancelled {
            self.effects.push(Effect::CancelMirror(terminal_id.to_string()));
        }
        self.remote_mirrors.discard(terminal_id);
        cancelled
    }

    fn unlink(&mut self, terminal_id: &str)
        ensures
            final(self)@ == unlinked(old(self)@, terminal_id@),
    {
        if self.ssh_shell_bridges.contains(terminal_id) || self.remote_terminal_bridges.contains(
            terminal_id,
        ) {
            return;
        }
        self.remote_owner_presentations.discard(terminal_id);
        self.remote_owner_peers.discard(terminal_id);
        self.remote_owner_deadlines.discard(terminal_id);
        let _ = self.cancel_mirror(terminal_id);
        self.forget_transport(terminal_id);
    }

    fn shell_owners(&self, peer_id: &str, connection_id: &str) -> (r: Vec<String>)
        ensures
            text::views(r@) == list::keys_of(
                self@.ssh_shell_bridges.filter(
                    by_bridge(BridgeRefView { peer_id: peer_id@, connection_id: connection_id@ }),
                ),
            ),
    {
        let hit = |row: &(String, BridgeRef)| -> (b: bool)
            ensures
                b == by_bridge(
                    BridgeRefView { peer_id: peer_id@, connection_id: connection_id@ },
                )(row@),
        {
            same_bridge(&row.1, peer_id, connection_id)
        };
        self.ssh_shell_bridges.keys_by(
            hit,
            Ghost(by_bridge(BridgeRefView { peer_id: peer_id@, connection_id: connection_id@ })),
        )
    }

    pub(crate) fn outbound_owner_terminals_for_bridge(&self, peer_id: &str, connection_id: &str) -> (r: Vec<
        String,
    >)
        ensures
            text::views(r@) == bridge_owners(
                self@,
                BridgeRefView { peer_id: peer_id@, connection_id: connection_id@ },
            ),
    {
        let hit = |row: &(String, BridgeRef)| -> (b: bool)
            ensures
                b == by_bridge(
                    BridgeRefView { peer_id: peer_id@, connection_id: connection_id@ },
                )(row@),
        {
            same_bridge(&row.1, peer_id, connection_id)
        };
        let mut terminals = self.shell_owners(peer_id, connection_id);
        let more = self.remote_terminal_bridges.keys_by(
            hit,
            Ghost(by_bridge(BridgeRefView { peer_id: peer_id@, connection_id: connection_id@ })),
        );
        text::extend(&mut terminals, &more);
        terminals
    }

    pub(crate) fn remove_shell_bridge_owner(&mut self, peer_id: &str, connection_id: &str)
        ensures
            final(self)@ == shell_bridge_removed(
                old(self)@,
                BridgeRefView { peer_id: peer_id@, connection_id: connection_id@ },
            ),
    {
        let ghost b = BridgeRefView { peer_id: peer_id@, connection_id: connection_id@ };
        let affected = self.shell_owners(peer_id, connection_id);
        let other = |row: &(String, BridgeRef)| -> (r: bool)
            ensures
                r == not_by_bridge(
                    BridgeRefView { peer_id: peer_id@, connection_id: connection_id@ },
                )(row@),
        {
            !same_bridge(&row.1, peer_id, connection_id)
        };
        self.ssh_shell_bridges.retain_by(other, Ghost(not_by_bridge(b)));
        let ghost start = self@;
        let mut i: usize = 0;
        assert(text::views(affected@).skip(0) =~= text::views(affected@));
        while i < affected.len()
            invariant
                i <= affected@.len(),
                unlinked_all(self@, text::views(affected@).skip(i as int)) == unlinked_all(
                    start,
                    text::views(affected@),
                ),
            decreases affected@.len() - i,
        {
            assert(text::views(affected@).skip(i as int)[0] == affected@[i as int]@);
            assert(text::views(affected@).skip(i as int).skip(1) =~= text::views(affected@).skip(
                i as int + 1,
            ));
            self.unlink(affected[i].as_str());
            i += 1;
        }
    }
}

// ---------------------------------------------------------------------------
// Connections

pub open spec fn bridge_at(b: BridgeRefView) -> spec_fn((Seq<char>, BridgeView)) -> bool {
    |row: (Seq<char>, BridgeView)| row.0 == b.peer_id && row.1.connection_id == b.connection_id
}

pub open spec fn not_bridge_at(b: BridgeRefView) -> spec_fn((Seq<char>, BridgeView)) -> bool {
    |row: (Seq<char>, BridgeView)| row.0 != b.peer_id || row.1.connection_id != b.connection_id
}

/// The connection to the peer that was made last.
pub open spec fn latest(bridges: Seq<(Seq<char>, BridgeView)>, peer_id: Seq<char>) -> Option<
    BridgeView,
>
    decreases bridges.len(),
{
    if bridges.len() == 0 {
        None
    } else if bridges.last().0 == peer_id {
        Some(bridges.last().1)
    } else {
        latest(bridges.drop_last(), peer_id)
    }
}

pub open spec fn connected(s: AppView, b: BridgeRefView) -> bool {
    list::some(s.peer_bridges, bridge_at(b))
}

/// The survivor of several connections stands for the peer. Off Unix there is no
/// registration to move, and what is known of the peer stays.
pub open spec fn survivor_stands(s: AppView, peer_id: Seq<char>, survivor: BridgeView) -> AppView {
    if s.unix {
        refresh_started(
            AppView {
                peers: list::with(s.peers, peer_id, survivor.peer),
                effects: s.effects.push(
                    EffectView::RegisterBridge(
                        BridgeRefView { peer_id, connection_id: survivor.connection_id },
                    ),
                ),
                ..s
            },
            survivor.peer,
        )
    } else {
        s
    }
}

/// The connection is closed. With its last connection a peer goes, and is told
/// so; otherwise the latest of those that are left stands for it.
pub open spec fn bridge_closed(s: AppView, b: BridgeRefView) -> AppView {
    let left = s.peer_bridges.filter(not_bridge_at(b));
    match latest(left, b.peer_id) {
        None => AppView {
            session_dirty: true,
            ..refresh_cancelled(
                AppView {
                    peer_bridges: left,
                    peers: list::without(s.peers, b.peer_id),
                    effects: s.effects.push(
                        EffectView::StopBridge { bridge: b, unregister: true },
                    ),
                    ..s
                },
                b.peer_id,
            )
        },
        Some(survivor) => AppView {
            session_dirty: true,
            ..survivor_stands(
                AppView {
                    peer_bridges: left,
                    effects: s.effects.push(
                        EffectView::StopBridge { bridge: b, unregister: false },
                    ),
                    ..s
                },
                b.peer_id,
                survivor,
            )
        },
    }
}

/// The terminals that go with a connection: with the last one all those of the
/// peer.
pub open spec fn going_with(s: AppView, b: BridgeRefView, owners: Seq<Seq<char>>) -> Seq<Seq<char>> {
    if latest(s.peer_bridges.filter(not_bridge_at(b)), b.peer_id) is None {
        text::firsts(owners + peer_owners(s, b.peer_id))
    } else {
        text::firsts(owners)
    }
}

/// Nothing waits for the connection any more.
pub open spec fn bridge_unused(s: AppView, b: BridgeRefView) -> AppView {
    let c = activations_cancelled(
        s,
        list::keys_of(s.pending_owner_activations.filter(over_bridge(b))),
    );
    shell_bridge_removed(
        AppView {
            ssh_shell_bridge_deadlines: c.ssh_shell_bridge_deadlines.filter(deadline_of_other(b)),
            ..c
        },
        b,
    )
}

/// To stop waiting closes no connection.
pub proof fn lemma_cancelling_keeps(s: AppView, ids: Seq<Seq<char>>)
    ensures
        activations_cancelled(s, ids).peer_bridges == s.peer_bridges,
        activations_cancelled(s, ids).ssh_shell_bridges == s.ssh_shell_bridges,
        activations_cancelled(s, ids).remote_terminal_bridges == s.remote_terminal_bridges,
    decreases ids.len(),
{
    if ids.len() > 0 {
        lemma_cancelling_keeps(activation_cancelled(s, ids[0]), ids.skip(1));
    }
}

proof fn lemma_unlinking_keeps(s: AppView, terminals: Seq<Seq<char>>)
    ensures
        unlinked_all(s, terminals).peer_bridges == s.peer_bridges,
    decreases terminals.len(),
{
    if terminals.len() > 0 {
        lemma_unlinking_keeps(unlinked(s, terminals[0]), terminals.skip(1));
    }
}

/// No connection is closed where only its uses are taken back.
pub proof fn lemma_unused_keeps_bridges(s: AppView, b: BridgeRefView)
    ensures
        bridge_unused(s, b).peer_bridges == s.peer_bridges,
{
    let ids = list::keys_of(s.pending_owner_activations.filter(over_bridge(b)));
    lemma_cancelling_keeps(s, ids);
    let c = activations_cancelled(s, ids);
    let d = AppView {
        ssh_shell_bridge_deadlines: c.ssh_shell_bridge_deadlines.filter(deadline_of_other(b)),
        ..c
    };
    lemma_unlinking_keeps(
        AppView { ssh_shell_bridges: d.ssh_shell_bridges.filter(not_by_bridge(b)), ..d },
        list::keys_of(d.ssh_shell_bridges.filter(by_bridge(b))),
    );
}

/// To close a connection leaves fewer.
pub proof fn lemma_closing_leaves_fewer(s: AppView, b: BridgeRefView)
    ensures
        bridge_closed(s, b).peer_bridges == s.peer_bridges.filter(not_bridge_at(b)),
        connected(s, b) ==> bridge_closed(s, b).peer_bridges.len() < s.peer_bridges.len(),
{
    list::lemma_filter_len(s.peer_bridges, not_bridge_at(b));
    list::lemma_first(s.peer_bridges, bridge_at(b));
    if connected(s, b) {
        let i = list::place(s.peer_bridges, bridge_at(b));
        assert(!not_bridge_at(b)(s.peer_bridges[i]));
    }
}

// ---------------------------------------------------------------------------
// Taking down

pub open spec fn no_more_bridges(before: AppView, after: AppView) -> bool {
    after.peer_bridges.len() <= before.peer_bridges.len()
}

/// A connection is given back, and the terminals go that were shown over it.
pub open spec fn bridge_released(s: AppView, b: BridgeRefView, now_ms: u64) -> AppView
    decreases s.peer_bridges.len(), 0int, 0int,
{
    let unused = bridge_unused(s, b);
    if connected(unused, b) {
        let owners = going_with(
            unused,
            b,
            bridge_owners(
                activations_cancelled(
                    s,
                    list::keys_of(s.pending_owner_activations.filter(over_bridge(b))),
                ),
                b,
            ),
        );
        proof {
            lemma_unused_keeps_bridges(s, b);
            lemma_closing_leaves_fewer(unused, b);
        }
        terminals_shut_down(bridge_closed(unused, b), owners, now_ms)
    } else {
        unused
    }
}

pub open spec fn bridges_released(s: AppView, bridges: Seq<BridgeRefView>, now_ms: u64) -> AppView
    decreases s.peer_bridges.len(), 1int, bridges.len(),
{
    if bridges.len() == 0 {
        s
    } else {
        let next = bridge_released(s, bridges[0], now_ms);
        if no_more_bridges(s, next) {
            bridges_released(next, bridges.skip(1), now_ms)
        } else {
            next
        }
    }
}

/// The connections that were made for what the terminal waits for alone.
#[verifier::opaque]
pub open spec fn dedicated(rows: Seq<(Seq<char>, ActivationView)>) -> Seq<BridgeRefView>
    decreases rows.len(),
{
    if rows.len() == 0 {
        Seq::empty()
    } else {
        let r = dedicated(rows.drop_last());
        if rows.last().1.release_bridge_on_owner_close {
            in_order(r, rows.last().1.bridge)
        } else {
            r
        }
    }
}

pub open spec fn ref_lt(a: BridgeRefView, b: BridgeRefView) -> bool {
    order::name_lt(a.peer_id, b.peer_id) || a.peer_id == b.peer_id && order::name_lt(
        a.connection_id,
        b.connection_id,
    )
}

/// `b` in its place among connections that stand in order, each once.
pub open spec fn in_order(s: Seq<BridgeRefView>, b: BridgeRefView) -> Seq<BridgeRefView>
    decreases s.len(),
{
    if s.len() == 0 {
        seq![b]
    } else if s[0] == b {
        s
    } else if ref_lt(b, s[0]) {
        seq![b] + s
    } else {
        seq![s[0]] + in_order(s.skip(1), b)
    }
}

/// The connections that the shells of a terminal opened.
pub open spec fn shell_bridges_of(s: AppView, terminal_id: Seq<char>) -> Seq<BridgeRefView> {
    s.ssh_shell_bridges.filter(list::keyed(terminal_id)).map_values(
        |row: (Seq<char>, BridgeRefView)| row.1,
    )
}

/// The terminal shows no remote terminal any more.
pub open spec fn unshown(s: AppView, terminal_id: Seq<char>) -> AppView {
    let was_remote = list::present(s.remote_mirrors, terminal_id) || list::present(
        s.remote_terminal_bridges,
        terminal_id,
    ) || match list::lookup(s.terminals, terminal_id) {
        Some(t) => t.remote_agent_transport is Some,
        None => false,
    };
    AppView {
        remote_owner_presentations: list::without(s.remote_owner_presentations, terminal_id),
        remote_owner_peers: list::without(s.remote_owner_peers, terminal_id),
        remote_terminal_bridges: list::without(s.remote_terminal_bridges, terminal_id),
        terminals: match list::lookup(s.terminals, terminal_id) {
            Some(t) => if was_remote {
                list::with(
                    s.terminals,
                    terminal_id,
                    TerminalView { remote_agent_transport: None, has_launch_argv: false, ..t },
                )
            } else {
                s.terminals
            },
            None => s.terminals,
        },
        ..mirror_cancelled(s, terminal_id)
    }
}

pub open spec fn as_list(b: Option<BridgeRefView>) -> Seq<BridgeRefView> {
    match b {
        Some(b) => seq![b],
        None => Seq::empty(),
    }
}

/// What the terminal waits for is given up, and the connections that were made
/// for it.
pub open spec fn waiting_given_up(s: AppView, terminal_id: Seq<char>, now_ms: u64) -> AppView
    decreases s.peer_bridges.len(), 2int, 0int,
{
    let rows = s.pending_owner_activations.filter(presentations::for_terminal(terminal_id));
    let cancelled = activations_cancelled(s, list::keys_of(rows));
    proof {
        lemma_cancelling_keeps(s, list::keys_of(rows));
    }
    bridges_released(cancelled, dedicated(rows), now_ms)
}

/// The terminal has no shell connections any more.
pub open spec fn shells_left(s: AppView, terminal_id: Seq<char>) -> AppView {
    AppView {
        remote_owner_deadlines: list::without(s.remote_owner_deadlines, terminal_id),
        ssh_shell_bridges: list::without(s.ssh_shell_bridges, terminal_id),
        ..s
    }
}

/// The connections are closed that the terminal waits for, or that its shells
/// opened.
pub open spec fn shells_closed(s: AppView, terminal_id: Seq<char>, now_ms: u64) -> AppView
    decreases s.peer_bridges.len(), 3int, 0int,
{
    let given_up = waiting_given_up(s, terminal_id, now_ms);
    if no_more_bridges(s, given_up) {
        bridges_released(
            shells_left(given_up, terminal_id),
            shell_bridges_of(given_up, terminal_id),
            now_ms,
        )
    } else {
        given_up
    }
}

/// The terminal lets go of all that it has from other hosts.
pub open spec fn terminal_released(s: AppView, terminal_id: Seq<char>, now_ms: u64) -> AppView
    decreases s.peer_bridges.len(), 4int, 0int,
{
    let closed = shells_closed(s, terminal_id, now_ms);
    if no_more_bridges(s, closed) {
        bridges_released(
            unshown(closed, terminal_id),
            as_list(list::lookup(closed.remote_terminal_bridges, terminal_id)),
            now_ms,
        )
    } else {
        closed
    }
}

pub open spec fn other_alias(pane_id: u64) -> spec_fn((Seq<char>, u64)) -> bool {
    |row: (Seq<char>, u64)| row.1 != pane_id
}

/// The pane and its terminal are gone from this host.
pub open spec fn pane_gone(s: AppView, d: DelegatedView) -> AppView {
    presentations::shut_down(
        AppView {
            delegated_terminal_ids: s.delegated_terminal_ids.filter(
                presentations::other_delegated(d.moved.pane_id),
            ),
            pane_id_aliases: s.pane_id_aliases.filter(other_alias(d.moved.pane_id)),
            public_pane_id_aliases: s.public_pane_id_aliases.filter(other_alias(d.moved.pane_id)),
            terminals: list::without(s.terminals, d.moved.terminal_id),
            ..s
        },
        d.moved.terminal_id,
    )
}

/// A delegation is ended by its claimant: what was prepared has failed, what was
/// active is gone with its terminal.
pub open spec fn terminated(s: AppView, claim: (Seq<char>, u64), now_ms: u64) -> AppView
    decreases s.peer_bridges.len(), 5int, 0int,
{
    match list::lookup(s.pending, claim.0) {
        Some(p) => if p.info.epoch != claim.1 {
            s
        } else {
            presentations::failed(
                AppView { pending: list::without(s.pending, claim.0), ..s },
                p,
                now_ms,
            )
        },
        None => match list::lookup(s.delegated, claim.0) {
            None => s,
            Some(d) => if d.info.epoch != claim.1 {
                s
            } else {
                let released = terminal_released(
                    AppView { delegated: list::without(s.delegated, claim.0), ..s },
                    d.moved.terminal_id,
                    now_ms,
                );
                AppView {
                    session_dirty: true,
                    ..presentations::takeovers_failed(
                        presentations::ended(
                            pane_gone(released, d),
                            claim.0,
                            d.info,
                            TerminalDelegationStatus::Terminated,
                            now_ms,
                        ),
                        claim.0,
                        now_ms,
                    )
                }
            },
        },
    }
}

/// The claim is one that a termination answers to.
pub open spec fn terminable(s: AppView, claim: (Seq<char>, u64)) -> bool {
    match list::lookup(s.pending, claim.0) {
        Some(p) => p.info.epoch == claim.1,
        None => match list::lookup(s.delegated, claim.0) {
            Some(d) => d.info.epoch == claim.1,
            None => false,
        },
    }
}

pub open spec fn lends(terminal_id: Seq<char>) -> spec_fn((Seq<char>, DelegatedView)) -> bool {
    |row: (Seq<char>, DelegatedView)| row.1.moved.terminal_id == terminal_id
}

/// A terminal that showed a remote one goes: with its delegation where another
/// host presents it in turn, with its pane otherwise.
pub open spec fn terminal_shut_down(s: AppView, terminal_id: Seq<char>, now_ms: u64) -> AppView
    decreases s.peer_bridges.len(), 6int, 0int,
{
    match list::first(s.delegated, lends(terminal_id)) {
        Some((_, d)) => terminated(s, (d.info.delegation_id, d.info.epoch), now_ms),
        None => {
            let released = terminal_released(s, terminal_id, now_ms);
            let gone = presentations::shut_down(
                AppView { terminals: list::without(released.terminals, terminal_id), ..released },
                terminal_id,
            );
            AppView {
                effects: match presentations::pane_showing(s.workspaces, terminal_id) {
                    Some(pane) => gone.effects.push(EffectView::PaneDied(pane.pane_id)),
                    None => gone.effects,
                },
                ..gone
            }
        },
    }
}

pub open spec fn terminals_shut_down(s: AppView, terminals: Seq<Seq<char>>, now_ms: u64) -> AppView
    decreases s.peer_bridges.len(), 7int, terminals.len(),
{
    if terminals.len() == 0 {
        s
    } else {
        let next = terminal_shut_down(s, terminals[0], now_ms);
        if no_more_bridges(s, next) {
            terminals_shut_down(next, terminals.skip(1), now_ms)
        } else {
            next
        }
    }
}

impl App {
    pub fn is_connected(&self, peer_id: &str, connection_id: &str) -> (r: bool)
        ensures
            r == connected(
                self@,
                BridgeRefView { peer_id: peer_id@, connection_id: connection_id@ },
            ),
    {
        let hit = |row: &(String, PeerBridge)| -> (b: bool)
            ensures
                b == bridge_at(
                    BridgeRefView { peer_id: peer_id@, connection_id: connection_id@ },
                )(row@),
        {
            text::str_eq(row.0.as_str(), peer_id) && text::str_eq(
                row.1.connection_id.as_str(),
                connection_id,
            )
        };
        self.peer_bridges.some_by(
            hit,
            Ghost(bridge_at(BridgeRefView { peer_id: peer_id@, connection_id: connection_id@ })),
        )
    }

    /// The connection to a peer that was made last.
    pub fn latest_bridge(&self, peer_id: &str) -> (r: Option<&PeerBridge>)
        ensures
            text::viewed(r) == latest(self@.peer_bridges, peer_id@),
    {
        let ghost all = self@.peer_bridges;
        let mut n: usize = self.peer_bridges.len();
        assert(all.take(n as int) =~= all);
        while n > 0
            invariant
                n <= all.len(),
                all == self@.peer_bridges,
                latest(all, peer_id@) == latest(all.take(n as int), peer_id@),
            decreases n,
        {
            let row = self.peer_bridges.at(n - 1);
            assert(all.take(n as int).last() == all[n - 1]);
            if text::str_eq(row.0.as_str(), peer_id) {
                return Some(&row.1);
            }
            assert(all.take(n as int).drop_last() =~= all.take(n - 1));
            n -= 1;
        }
        None
    }

    pub(crate) fn stand_in(&mut self, peer_id: &str, survivor: PeerInfo, connection_id: String)
        ensures
            forall|view: BridgeView|
                view.peer == survivor@ && view.connection_id == connection_id@ ==> final(self)@
                    == #[trigger] survivor_stands(old(self)@, peer_id@, view),
    {
        if !self.unix {
            return;
        }
        self.effects.push(
            Effect::RegisterBridge(BridgeRef { peer_id: peer_id.to_string(), connection_id }),
        );
        self.peers.insert(peer_id.to_string(), survivor.clone());
        self.start_peer_refresh(survivor);
    }

    pub(crate) fn close_bridge(&mut self, peer_id: &str, connection_id: &str, owners: Vec<String>) -> (going:
        Vec<String>)
        ensures
            ({
                let b = BridgeRefView { peer_id: peer_id@, connection_id: connection_id@ };
                &&& final(self)@ == bridge_closed(old(self)@, b)
                &&& text::views(going@) == going_with(old(self)@, b, text::views(owners@))
            }),
    {
        let ghost b = BridgeRefView { peer_id: peer_id@, connection_id: connection_id@ };
        let other = |row: &(String, PeerBridge)| -> (r: bool)
            ensures
                r == not_bridge_at(
                    BridgeRefView { peer_id: peer_id@, connection_id: connection_id@ },
                )(row@),
        {
            !text::str_eq(row.0.as_str(), peer_id) || !text::str_eq(
                row.1.connection_id.as_str(),
                connection_id,
            )
        };
        self.peer_bridges.retain_by(other, Ghost(not_bridge_at(b)));
        let survivor = match self.latest_bridge(peer_id) {
            Some(bridge) => Some((bridge.peer.clone(), bridge.connection_id.clone())),
            None => None,
        };
        let stopped = BridgeRef {
            peer_id: peer_id.to_string(),
            connection_id: connection_id.to_string(),
        };
        match survivor {
            None => {
                let hit = |row: &(String, String)| -> (r: bool)
                    ensures
                        r == owned_by(peer_id@)(row@),
                {
                    text::str_eq(row.1.as_str(), peer_id)
                };
                let more = self.remote_owner_peers.keys_by(hit, Ghost(owned_by(peer_id@)));
                let mut all = owners;
                text::extend(&mut all, &more);
                self.effects.push(Effect::StopBridge { bridge: stopped, unregister: true });
                self.peers.discard(peer_id);
                self.cancel_peer_refresh(peer_id);
                self.session_dirty = true;
                text::keep_firsts(&all)
            },
            Some((peer, survivor_id)) => {
                self.effects.push(Effect::StopBridge { bridge: stopped, unregister: false });
                self.stand_in(peer_id, peer, survivor_id);
                self.session_dirty = true;
                text::keep_firsts(&owners)
            },
        }
    }

    pub(crate) fn dedicated_bridges(&self, terminal_id: &str) -> (r: List<BridgeRef>)
        ensures
            r@ == dedicated(
                self@.pending_owner_activations.filter(presentations::for_terminal(terminal_id@)),
            ),
    {
        let ghost all = self@.pending_owner_activations;
        let ghost p = presentations::for_terminal(terminal_id@);
        let mut out: List<BridgeRef> = List::new();
        let mut i: usize = 0;
        proof {
            reveal(dedicated);
            list::lemma_filter_empty(p);
            assert(all.take(0) =~= Seq::<(Seq<char>, ActivationView)>::empty());
        }
        while i < self.pending_owner_activations.len()
            invariant
                i <= all.len(),
                all == self@.pending_owner_activations,
                p == presentations::for_terminal(terminal_id@),
                out@ == dedicated(all.take(i as int).filter(p)),
            decreases all.len() - i,
        {
            let row = &self.pending_owner_activations.at(i).1;
            proof {
                reveal(dedicated);
                list::lemma_filter_step(all, i as int, p);
                assert(all.take(i as int).filter(p).push(all[i as int]).drop_last() =~= all.take(
                    i as int,
                ).filter(p));
            }
            if text::str_eq(row.terminal_id.as_str(), terminal_id)
                && row.release_bridge_on_owner_close {
                put_in_order(&mut out, row.bridge.clone());
            }
            i += 1;
        }
        assert(all.take(all.len() as int) =~= all);
        out
    }

    pub(crate) fn take_shell_bridges(&mut self, terminal_id: &str) -> (r: List<BridgeRef>)
        ensures
            r@ == shell_bridges_of(old(self)@, terminal_id@),
            final(self)@ == (AppView {
                ssh_shell_bridges: list::without(old(self)@.ssh_shell_bridges, terminal_id@),
                ..old(self)@
            }),
    {
        let ghost all = self@.ssh_shell_bridges;
        let ghost p = list::keyed::<BridgeRefView>(terminal_id@);
        let ghost pick = |row: (Seq<char>, BridgeRefView)| row.1;
        let mut out: List<BridgeRef> = List::new();
        let mut i: usize = 0;
        proof {
            list::lemma_filter_empty(p);
            assert(all.take(0) =~= Seq::<(Seq<char>, BridgeRefView)>::empty());
            assert(out@ =~= all.take(0).filter(p).map_values(pick));
        }
        while i < self.ssh_shell_bridges.len()
            invariant
                i <= all.len(),
                all == self@.ssh_shell_bridges,
                p == list::keyed::<BridgeRefView>(terminal_id@),
                pick == (|row: (Seq<char>, BridgeRefView)| row.1),
                out@ == all.take(i as int).filter(p).map_values(pick),
            decreases all.len() - i,
        {
            let row = self.ssh_shell_bridges.at(i);
            proof {
                list::lemma_filter_step(all, i as int, p);
            }
            if text::str_eq(row.0.as_str(), terminal_id) {
                let ghost before = out@;
                out.push(row.1.clone());
                assert(out@ =~= all.take(i as int + 1).filter(p).map_values(pick));
            }
            i += 1;
        }
        assert(all.take(all.len() as int) =~= all);
        assert(out@ =~= shell_bridges_of(self@, terminal_id@));
        self.ssh_shell_bridges.discard(terminal_id);
        out
    }

    pub(crate) fn stop_showing(&mut self, terminal_id: &str) -> (bridge: List<BridgeRef>)
        ensures
            final(self)@ == unshown(old(self)@, terminal_id@),
            bridge@ == as_list(list::lookup(old(self)@.remote_terminal_bridges, terminal_id@)),
    {
        let ghost s = self@;
        let mirrored = self.cancel_mirror(terminal_id);
        self.remote_owner_presentations.discard(terminal_id);
        self.remote_owner_peers.discard(terminal_id);
        let mut bridge: List<BridgeRef> = List::new();
        let mut linked = false;
        match self.remote_terminal_bridges.remove(terminal_id) {
            Some(b) => {
                linked = true;
                bridge.push(b);
            },
            None => {},
        }
        assert(bridge@ =~= as_list(list::lookup(s.remote_terminal_bridges, terminal_id@)));
        let transported = match self.terminals.get(terminal_id) {
            Some(t) => t.remote_agent_transport.is_some(),
            None => false,
        };
        if mirrored || linked || transported {
            match self.terminals.remove(terminal_id) {
                Some(t) => {
                    let mut t = t;
                    t.remote_agent_transport = None;
                    t.has_launch_argv = false;
                    proof {
                        list::lemma_without_twice(s.terminals, terminal_id@);
                    }
                    self.terminals.insert(terminal_id.to_string(), t);
                },
                None => {
                    proof {
                        list::lemma_without_absent(s.terminals, terminal_id@);
                    }
                },
            }
        }
        bridge
    }
}

fn ref_less(a: &BridgeRef, b: &BridgeRef) -> (r: bool)
    ensures
        r == ref_lt(a@, b@),
{
    order::name_less(a.peer_id.as_str(), b.peer_id.as_str()) || (text::str_eq(
        a.peer_id.as_str(),
        b.peer_id.as_str(),
    ) && order::name_less(a.connection_id.as_str(), b.connection_id.as_str()))
}

proof fn lemma_in_order_skips(s: Seq<BridgeRefView>, b: BridgeRefView, i: int)
    requires
        0 <= i <= s.len(),
        forall|j: int| 0 <= j < i ==> #[trigger] s[j] != b && !ref_lt(b, s[j]),
    ensures
        in_order(s, b) == s.take(i) + in_order(s.skip(i), b),
    decreases i,
{
    if i == 0 {
        assert(s.skip(0) =~= s);
        assert(s.take(0) + in_order(s, b) =~= in_order(s, b));
    } else {
        assert(s[0] != b && !ref_lt(b, s[0]));
        assert forall|j: int| 0 <= j < i - 1 implies #[trigger] s.skip(1)[j] != b && !ref_lt(
            b,
            s.skip(1)[j],
        ) by {
            assert(s.skip(1)[j] == s[j + 1]);
        }
        lemma_in_order_skips(s.skip(1), b, i - 1);
        assert(s.skip(1).skip(i - 1) =~= s.skip(i));
        assert(seq![s[0]] + (s.skip(1).take(i - 1) + in_order(s.skip(i), b)) =~= s.take(i)
            + in_order(s.skip(i), b));
    }
}

fn put_in_order(refs: &mut List<BridgeRef>, b: BridgeRef)
    ensures
        final(refs)@ == in_order(old(refs)@, b@),
{
    let ghost s = refs@;
    let mut i: usize = 0;
    while i < refs.len()
        invariant
            i <= refs@.len(),
            refs@ == s,
            s == old(refs)@,
            forall|j: int| 0 <= j < i ==> #[trigger] s[j] != b@ && !ref_lt(b@, s[j]),
        decreases refs@.len() - i,
    {
        let here = refs.at(i);
        if same_bridge(here, b.peer_id.as_str(), b.connection_id.as_str()) {
            proof {
                lemma_in_order_skips(s, b@, i as int);
                assert(s.skip(i as int)[0] == b@);
                assert(s.take(i as int) + s.skip(i as int) =~= s);
            }
            return;
        }
        if ref_less(&b, here) {
            proof {
                lemma_in_order_skips(s, b@, i as int);
                assert(s.skip(i as int)[0] == s[i as int]);
                assert(s.take(i as int) + (seq![b@] + s.skip(i as int)) =~= s.insert(
                    i as int,
                    b@,
                ));
            }
            refs.insert_at(i, b);
            return;
        }
        i += 1;
    }
    proof {
        lemma_in_order_skips(s, b@, s.len() as int);
        assert(s.skip(s.len() as int) =~= Seq::<BridgeRefView>::empty());
        assert(s.take(s.len() as int) + seq![b@] =~= s.push(b@));
    }
    refs.push(b);
}

impl App {
    pub(crate) fn drop_delegated_pane(&mut self, d: &DelegatedPane)
        ensures
            final(self)@ == pane_gone(old(self)@, d@),
    {
        let pane_id: u64 = d.moved.pane_id;
        let other = |row: &(u64, String)| -> (b: bool)
            ensures
                b == (row@.0 != pane_id),
        {
            row.0 != pane_id
        };
        self.delegated_terminal_ids.retain_by(
            other,
            Ghost(presentations::other_delegated(pane_id)),
        );
        let alias = |row: &(String, u64)| -> (b: bool)
            ensures
                b == (row@.1 != pane_id),
        {
            row.1 != pane_id
        };
        self.pane_id_aliases.retain_by(alias, Ghost(other_alias(pane_id)));
        self.public_pane_id_aliases.retain_by(alias, Ghost(other_alias(pane_id)));
        self.terminals.discard(d.moved.terminal_id.as_str());
        self.shut_down_runtime(d.moved.terminal_id.as_str());
    }

    /// The claim to the delegation under which another host presents a terminal.
    pub(crate) fn lending_claim(&self, terminal_id: &str) -> (r: Option<TerminalDelegationClaim>)
        ensures
            text::viewed(r) == match list::first(self@.delegated, lends(terminal_id@)) {
                Some((_, d)) => Some((d.info.delegation_id, d.info.epoch)),
                None => None,
            },
    {
        let hit = |row: &(String, DelegatedPane)| -> (b: bool)
            ensures
                b == lends(terminal_id@)(row@),
        {
            text::str_eq(row.1.moved.terminal_id.as_str(), terminal_id)
        };
        match self.delegated.find_by(hit, Ghost(lends(terminal_id@))) {
            Some(i) => {
                let info = &self.delegated.at(i).1.info;
                Some(
                    TerminalDelegationClaim {
                        delegation_id: info.delegation_id.clone(),
                        epoch: info.epoch,
                    },
                )
            },
            None => None,
        }
    }
}

} // verus!
