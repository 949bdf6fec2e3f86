//! Letting go of a pane that its host has taken back, while others are still shown
//! from there.
//!
//! Connections are shared. One that another pane, a shell or something that is
//! waited for still hangs on stays open; the run that hands panes back keeps it in
//! mind, and it is closed when nothing uses it any more. With the last pane all
//! that were kept are closed.

use vstd::prelude::*;
use vstd::string::*;

use super::letting_go;
use super::list::{self, List};
use super::release;
use super::remote_presentations as presentations;
use super::{
    ActivationView, App, AppView, BridgeRef, BridgeRefView, BridgeView, PeerBridge,
    PendingOwnerActivation,
};
use crate::api::schema::peers::TerminalDelegationInfo;
use crate::text;

verus! {

/// Another connection to the peer of `b`.
pub open spec fn beside(b: BridgeRefView) -> spec_fn((Seq<char>, BridgeView)) -> bool {
    |row: (Seq<char>, BridgeView)| row.0 == b.peer_id && row.1.connection_id != b.connection_id
}

/// Something is waited for, or shown, over the connection. On the last connection
/// to a peer hangs all that is waited for or shown from that peer.
pub open spec fn in_use(s: AppView, b: BridgeRefView) -> bool {
    if list::some(s.peer_bridges, beside(b)) {
        ||| list::some(s.pending_owner_activations, release::over_bridge(b))
        ||| list::some(s.ssh_shell_bridges, release::by_bridge(b))
        ||| list::some(s.remote_terminal_bridges, release::by_bridge(b))
    } else {
        ||| list::some(s.pending_owner_activations, release::over_peer(b.peer_id))
        ||| list::some(s.ssh_shell_bridges, release::by_peer(b.peer_id))
        ||| list::some(s.remote_terminal_bridges, release::by_peer(b.peer_id))
        ||| list::some(s.remote_owner_peers, release::owned_by(b.peer_id))
    }
}

pub open spec fn waiting_rows(s: AppView, terminal_id: Seq<char>) -> Seq<
    (Seq<char>, ActivationView),
> {
    s.pending_owner_activations.filter(presentations::for_terminal(terminal_id))
}

/// The terminal waits for nothing and shows nothing from other hosts any more. No
/// connection is closed.
pub open spec fn detached(s: AppView, terminal_id: Seq<char>) -> AppView {
    release::unshown(
        release::shells_left(
            release::activations_cancelled(s, list::keys_of(waiting_rows(s, terminal_id))),
            terminal_id,
        ),
        terminal_id,
    )
}

/// The connections that the terminal has, or waits for.
pub open spec fn bridges_of(s: AppView, terminal_id: Seq<char>) -> Seq<BridgeRefView> {
    release::dedicated(waiting_rows(s, terminal_id)) + release::shell_bridges_of(s, terminal_id)
        + release::as_list(list::lookup(s.remote_terminal_bridges, terminal_id))
}

/// Those of the connections are given back that nothing uses, one after the other;
/// the others are left over.
pub open spec fn unused_closed(s: AppView, bridges: Seq<BridgeRefView>, now_ms: u64) -> (
    AppView,
    Seq<BridgeRefView>,
)
    decreases bridges.len(),
{
    if bridges.len() == 0 {
        (s, Seq::empty())
    } else if in_use(s, bridges[0]) {
        let (end, kept) = unused_closed(s, bridges.skip(1), now_ms);
        (end, seq![bridges[0]] + kept)
    } else {
        unused_closed(
            release::bridge_released(s, bridges[0], now_ms),
            bridges.skip(1),
            now_ms,
        )
    }
}

/// The terminal lets go of what it has from other hosts. `held` are the connections
/// that were kept for others before; the second result are those that are kept now.
pub open spec fn let_go(
    s: AppView,
    terminal_id: Seq<char>,
    held: Seq<BridgeRefView>,
    now_ms: u64,
) -> (AppView, Seq<BridgeRefView>) {
    if list::some(s.remote_owner_presentations, list::unkeyed(terminal_id)) {
        unused_closed(detached(s, terminal_id), held + bridges_of(s, terminal_id), now_ms)
    } else {
        (
            release::bridges_released(
                release::terminal_released(s, terminal_id, now_ms),
                held,
                now_ms,
            ),
            Seq::empty(),
        )
    }
}

fn add_refs(all: &mut List<BridgeRef>, more: &List<BridgeRef>)
    ensures
        final(all)@ == old(all)@ + more@,
{
    let ghost start = all@;
    let mut i: usize = 0;
    assert(start + more@.take(0) =~= start);
    while i < more.len()
        invariant
            i <= more@.len(),
            all@ == start + more@.take(i as int),
        decreases more@.len() - i,
    {
        all.push(more.at(i).clone());
        i += 1;
        assert(all@ =~= start + more@.take(i as int));
    }
    assert(more@.take(more@.len() as int) =~= more@);
}

impl App {
    fn is_waited_for(&self, b: &BridgeRef, peer_wide: bool) -> (r: bool)
        ensures
            r == list::some(
                self@.pending_owner_activations,
                if peer_wide {
                    release::over_peer(b@.peer_id)
                } else {
                    release::over_bridge(b@)
                },
            ),
    {
        let hit = |row: &(String, PendingOwnerActivation)| -> (r: bool)
            ensures
                r == (if peer_wide {
                    release::over_peer(b@.peer_id)
                } else {
                    release::over_bridge(b@)
                })(row@),
        {
            text::str_eq(row.1.bridge.peer_id.as_str(), b.peer_id.as_str()) && (peer_wide
                || text::str_eq(row.1.bridge.connection_id.as_str(), b.connection_id.as_str()))
        };
        self.pending_owner_activations.some_by(
            hit,
            Ghost(
                if peer_wide {
                    release::over_peer(b@.peer_id)
                } else {
                    release::over_bridge(b@)
                },
            ),
        )
    }

    /// Something hangs on the connection.
    pub fn is_in_use(&self, b: &BridgeRef) -> (r: bool)
        ensures
            r == in_use(self@, b@),
    {
        let other = |row: &(String, PeerBridge)| -> (r: bool)
            ensures
                r == beside(b@)(row@),
        {
            text::str_eq(row.0.as_str(), b.peer_id.as_str()) && !text::str_eq(
                row.1.connection_id.as_str(),
                b.connection_id.as_str(),
            )
        };
        if self.peer_bridges.some_by(other, Ghost(beside(b@))) {
            let hit = |row: &(String, BridgeRef)| -> (r: bool)
                ensures
                    r == release::by_bridge(b@)(row@),
            {
                release::same_bridge(&row.1, b.peer_id.as_str(), b.connection_id.as_str())
            };
            self.is_waited_for(b, false) || self.ssh_shell_bridges.some_by(
                hit,
                Ghost(release::by_bridge(b@)),
            ) || self.remote_terminal_bridges.some_by(hit, Ghost(release::by_bridge(b@)))
        } else {
            let hit = |row: &(String, BridgeRef)| -> (r: bool)
                ensures
                    r == release::by_peer(b@.peer_id)(row@),
            {
                text::str_eq(row.1.peer_id.as_str(), b.peer_id.as_str())
            };
            let owned = |row: &(String, String)| -> (r: bool)
                ensures
                    r == release::owned_by(b@.peer_id)(row@),
            {
                text::str_eq(row.1.as_str(), b.peer_id.as_str())
            };
            self.is_waited_for(b, true) || self.ssh_shell_bridges.some_by(
                hit,
                Ghost(release::by_peer(b@.peer_id)),
            ) || self.remote_terminal_bridges.some_by(hit, Ghost(release::by_peer(b@.peer_id)))
                || self.remote_owner_peers.some_by(owned, Ghost(release::owned_by(b@.peer_id)))
        }
    }

    fn detach(&mut self, terminal_id: &str) -> (bridges: List<BridgeRef>)
        ensures
            final(self)@ == detached(old(self)@, terminal_id@),
            bridges@ == bridges_of(old(self)@, terminal_id@),
    {
        let ghost s = self@;
        let ghost p = presentations::for_terminal(terminal_id@);
        let mut bridges = self.dedicated_bridges(terminal_id);
        let hit = |row: &(String, PendingOwnerActivation)| -> (b: bool)
            ensures
                b == presentations::for_terminal(terminal_id@)(row@),
        {
            text::str_eq(row.1.terminal_id.as_str(), terminal_id)
        };
        let ids = self.pending_owner_activations.keys_by(hit, Ghost(p));
        self.cancel_activations(&ids);
        proof {
            release::lemma_cancelling_keeps(s, list::keys_of(waiting_rows(s, terminal_id@)));
        }
        let shells = self.take_shell_bridges(terminal_id);
        self.remote_owner_deadlines.discard(terminal_id);
        let own = self.stop_showing(terminal_id);
        add_refs(&mut bridges, &shells);
        add_refs(&mut bridges, &own);
        bridges
    }

    fn close_unused(&mut self, bridges: &List<BridgeRef>, now_ms: u64) -> (kept: List<BridgeRef>)
        ensures
            (final(self)@, kept@) == unused_closed(old(self)@, bridges@, now_ms),
    {
        let ghost s = self@;
        let mut kept: List<BridgeRef> = List::new();
        let mut i: usize = 0;
        assert(bridges@.skip(0) =~= bridges@);
        assert(kept@ + unused_closed(s, bridges@, now_ms).1 =~= unused_closed(
            s,
            bridges@,
            now_ms,
        ).1);
        while i < bridges.len()
            invariant
                i <= bridges@.len(),
                s == old(self)@,
                ({
                    let (end, more) = unused_closed(self@, bridges@.skip(i as int), now_ms);
                    unused_closed(s, bridges@, now_ms) == (end, kept@ + more)
                }),
            decreases bridges@.len() - i,
        {
            let b = bridges.at(i);
            let ghost before = kept@;
            assert(bridges@.skip(i as int)[0] == b@);
            assert(bridges@.skip(i as int).skip(1) =~= bridges@.skip(i as int + 1));
            if self.is_in_use(b) {
                kept.push(b.clone());
                assert(before + (seq![b@] + unused_closed(
                    self@,
                    bridges@.skip(i as int + 1),
                    now_ms,
                ).1) =~= kept@ + unused_closed(self@, bridges@.skip(i as int + 1), now_ms).1);
            } else {
                self.release_peer_bridge(b.peer_id.as_str(), b.connection_id.as_str(), now_ms);
            }
            i += 1;
        }
        assert(kept@ + Seq::<BridgeRefView>::empty() =~= kept@);
        kept
    }

    /// A terminal lets go of what it has from other hosts. Connections that others
    /// use are kept.
    pub fn let_terminal_go(&mut self, terminal_id: &str, held: List<BridgeRef>, now_ms: u64) -> (kept:
        List<BridgeRef>)
        ensures
            (final(self)@, kept@) == let_go(old(self)@, terminal_id@, held@, now_ms),
    {
        let other = |row: &(String, TerminalDelegationInfo)| -> (r: bool)
            ensures
                r == list::unkeyed(terminal_id@)(row@),
        {
            !text::str_eq(row.0.as_str(), terminal_id)
        };
        if self.remote_owner_presentations.some_by(other, Ghost(list::unkeyed(terminal_id@))) {
            let mut bridges = held;
            let own = self.detach(terminal_id);
            add_refs(&mut bridges, &own);
            self.close_unused(&bridges, now_ms)
        } else {
            self.release_remote_terminal_bridge(terminal_id, now_ms);
            self.release_bridges(&held, now_ms);
            let none: List<BridgeRef> = List::new();
            assert(none@ =~= Seq::<BridgeRefView>::empty());
            none
        }
    }
}

// ---------------------------------------------------------------------------
// What the others keep

proof fn lemma_none<W>(s: Seq<W>, p: spec_fn(W) -> bool)
    requires
        !list::some(s, p),
    ensures
        s.filter(p) == Seq::<W>::empty(),
{
    list::lemma_first(s, p);
    let q = |w: W| !p(w);
    assert forall|i: int| 0 <= i < s.len() implies q(#[trigger] s[i]) by {}
    list::lemma_filter_keeps(s, p, q);
    list::lemma_filtered_holds(s, p);
    if s.filter(p).len() > 0 {
        assert(q(s.filter(p)[0]));
    }
}

/// A predicate that is stronger than one that holds of no row holds of none.
proof fn lemma_none_stronger<W>(s: Seq<W>, p: spec_fn(W) -> bool, q: spec_fn(W) -> bool)
    requires
        !list::some(s, p),
        forall|w: W| #[trigger] q(w) ==> p(w),
    ensures
        !list::some(s, q),
{
    list::lemma_first(s, p);
    list::lemma_first(s, q);
}

proof fn lemma_latest(bridges: Seq<(Seq<char>, BridgeView)>, peer_id: Seq<char>)
    ensures
        release::latest(bridges, peer_id) is None <==> forall|i: int|
            0 <= i < bridges.len() ==> (#[trigger] bridges[i]).0 != peer_id,
        release::latest(bridges, peer_id) matches Some(v) ==> bridges.contains((peer_id, v)),
    decreases bridges.len(),
{
    if bridges.len() > 0 {
        let front = bridges.drop_last();
        lemma_latest(front, peer_id);
        assert(bridges[bridges.len() - 1] == bridges.last());
        assert forall|i: int| 0 <= i < front.len() implies front[i] == #[trigger] bridges[i] by {}
        if bridges.last().0 != peer_id {
            match release::latest(front, peer_id) {
                Some(v) => {
                    let i = front.index_of((peer_id, v));
                    assert(bridges[i] == (peer_id, v));
                },
                None => {},
            }
            if forall|i: int| 0 <= i < bridges.len() ==> (#[trigger] bridges[i]).0 != peer_id {
                assert forall|i: int| 0 <= i < front.len() implies (#[trigger] front[i]).0
                    != peer_id by {
                    assert(front[i] == bridges[i]);
                }
            }
        }
    }
}

/// A connection is the peer's last one where there is none beside it.
proof fn lemma_last(s: AppView, b: BridgeRefView)
    ensures
        release::latest(s.peer_bridges.filter(release::not_bridge_at(b)), b.peer_id) is None
            <==> !list::some(s.peer_bridges, beside(b)),
{
    let p = release::not_bridge_at(b);
    let left = s.peer_bridges.filter(p);
    lemma_latest(left, b.peer_id);
    list::lemma_first(s.peer_bridges, beside(b));
    list::lemma_filtered_holds(s.peer_bridges, p);
    letting_go::lemma_filter_within(s.peer_bridges, p);
    if list::some(s.peer_bridges, beside(b)) {
        let i = list::place(s.peer_bridges, beside(b));
        s.peer_bridges.lemma_filter_contains(p, i);
        let j = left.index_of(s.peer_bridges[i]);
        assert(left[j].0 == b.peer_id);
    } else {
        assert forall|j: int| 0 <= j < left.len() implies (#[trigger] left[j]).0 != b.peer_id by {
            assert(left.contains(left[j]));
            let i = s.peer_bridges.index_of(left[j]);
            assert(!beside(b)(s.peer_bridges[i]));
            assert(p(left[j]));
        }
    }
}

/// Nothing is taken back where nothing uses the connection.
proof fn lemma_unused(s: AppView, b: BridgeRefView)
    requires
        !in_use(s, b),
    ensures
        !list::some(s.pending_owner_activations, release::over_bridge(b)),
        !list::some(s.ssh_shell_bridges, release::by_bridge(b)),
        !list::some(s.remote_terminal_bridges, release::by_bridge(b)),
        release::bridge_unused(s, b) == (AppView {
            ssh_shell_bridge_deadlines: s.ssh_shell_bridge_deadlines.filter(
                release::deadline_of_other(b),
            ),
            ..s
        }),
{
    if !list::some(s.peer_bridges, beside(b)) {
        lemma_none_stronger(
            s.pending_owner_activations,
            release::over_peer(b.peer_id),
            release::over_bridge(b),
        );
        lemma_none_stronger(
            s.ssh_shell_bridges,
            release::by_peer(b.peer_id),
            release::by_bridge(b),
        );
        lemma_none_stronger(
            s.remote_terminal_bridges,
            release::by_peer(b.peer_id),
            release::by_bridge(b),
        );
    }
    lemma_none(s.pending_owner_activations, release::over_bridge(b));
    let ids = list::keys_of(s.pending_owner_activations.filter(release::over_bridge(b)));
    assert(ids.len() == 0);
    let shells = s.ssh_shell_bridges;
    lemma_none(shells, release::by_bridge(b));
    list::lemma_first(shells, release::by_bridge(b));
    assert forall|i: int| 0 <= i < shells.len() implies release::not_by_bridge(b)(
        #[trigger] shells[i],
    ) by {
        assert(!release::by_bridge(b)(shells[i]));
    }
    list::lemma_filter_all(shells, release::not_by_bridge(b));
    assert(list::keys_of(shells.filter(release::by_bridge(b))).len() == 0);
}

/// A connection that nothing uses is given back alone.
proof fn lemma_goes_alone(s: AppView, b: BridgeRefView, now_ms: u64)
    requires
        !in_use(s, b),
    ensures
        ({
            let unused = release::bridge_unused(s, b);
            release::bridge_released(s, b, now_ms) == if release::connected(unused, b) {
                release::bridge_closed(unused, b)
            } else {
                unused
            }
        }),
{
    lemma_unused(s, b);
    lemma_last(s, b);
    let unused = release::bridge_unused(s, b);
    lemma_none(s.pending_owner_activations, release::over_bridge(b));
    lemma_none(s.ssh_shell_bridges, release::by_bridge(b));
    lemma_none(s.remote_terminal_bridges, release::by_bridge(b));
    assert(list::keys_of(s.pending_owner_activations.filter(release::over_bridge(b))).len() == 0);
    assert(release::bridge_owners(s, b).len() == 0);
    if !list::some(s.peer_bridges, beside(b)) {
        lemma_none(s.remote_owner_peers, release::owned_by(b.peer_id));
        assert(release::peer_owners(unused, b.peer_id).len() == 0);
    }
    assert(release::going_with(unused, b, release::bridge_owners(s, b)).len() == 0);
}

/// The tables that say what the terminals here show from other hosts are the same.
pub open spec fn same_links(s: AppView, t: AppView) -> bool {
    &&& s.remote_owner_presentations == t.remote_owner_presentations
    &&& s.remote_owner_peers == t.remote_owner_peers
    &&& s.ssh_shell_bridges == t.ssh_shell_bridges
    &&& s.remote_terminal_bridges == t.remote_terminal_bridges
    &&& s.workspaces == t.workspaces
}

/// Every connection was made over SSH.
pub open spec fn over_ssh(s: AppView) -> bool {
    forall|i: int|
        0 <= i < s.peer_bridges.len() ==> (#[trigger] s.peer_bridges[i]).1.peer.transport is Ssh
}

/// The peer is known, and reached over SSH.
pub open spec fn reachable(s: AppView, peer_id: Seq<char>) -> bool {
    list::lookup(s.peers, peer_id) matches Some(peer) && peer.transport is Ssh
}

/// Some terminal is linked to the peer.
pub open spec fn linked_to(s: AppView, peer_id: Seq<char>) -> bool {
    ||| list::some(s.ssh_shell_bridges, release::by_peer(peer_id))
    ||| list::some(s.remote_terminal_bridges, release::by_peer(peer_id))
    ||| list::some(s.remote_owner_peers, release::owned_by(peer_id))
}

proof fn lemma_still_over_ssh(s: AppView, p: spec_fn((Seq<char>, BridgeView)) -> bool)
    requires
        over_ssh(s),
    ensures
        over_ssh(AppView { peer_bridges: s.peer_bridges.filter(p), ..s }),
{
    let q = |row: (Seq<char>, BridgeView)| row.1.peer.transport is Ssh;
    assert forall|i: int| 0 <= i < s.peer_bridges.len() implies q(
        #[trigger] s.peer_bridges[i],
    ) by {}
    list::lemma_filter_keeps(s.peer_bridges, p, q);
    let left = s.peer_bridges.filter(p);
    assert forall|i: int| 0 <= i < left.len() implies (
    #[trigger] left[i]).1.peer.transport is Ssh by {
        assert(q(left[i]));
    }
}

/// To give back a connection that nothing uses leaves what is shown, and the peers
/// that it is shown from.
pub proof fn lemma_unused_connection_is_given_back_alone(
    s: AppView,
    b: BridgeRefView,
    now_ms: u64,
)
    requires
        !in_use(s, b),
    ensures
        ({
            let t = release::bridge_released(s, b, now_ms);
            &&& same_links(s, t)
            &&& letting_go::nothing_gained(s, t)
            &&& over_ssh(s) ==> over_ssh(t) && forall|peer_id: Seq<char>|
                linked_to(s, peer_id) && #[trigger] reachable(s, peer_id) ==> reachable(t, peer_id)
        }),
{
    let t = release::bridge_released(s, b, now_ms);
    let unused = release::bridge_unused(s, b);
    lemma_unused(s, b);
    lemma_goes_alone(s, b, now_ms);
    letting_go::lemma_release_gains_nothing(s, b, now_ms);
    if release::connected(unused, b) && over_ssh(s) {
        let p = release::not_bridge_at(b);
        let left = s.peer_bridges.filter(p);
        lemma_still_over_ssh(s, p);
        assert(t.peer_bridges == left);
        assert(over_ssh(t));
        lemma_last(s, b);
        lemma_latest(left, b.peer_id);
        assert forall|peer_id: Seq<char>|
            linked_to(s, peer_id) && #[trigger] reachable(s, peer_id) implies reachable(
            t,
            peer_id,
        ) by {
            match release::latest(left, b.peer_id) {
                None => {
                    assert(t.peers == list::without(s.peers, b.peer_id));
                    list::lemma_without_keeps(s.peers, b.peer_id, peer_id);
                },
                Some(survivor) => {
                    if s.unix {
                        assert(t.peers == list::with(s.peers, b.peer_id, survivor.peer));
                        if peer_id == b.peer_id {
                            let i = left.index_of((b.peer_id, survivor));
                            assert(left[i].1.peer.transport is Ssh);
                            letting_go::lemma_without_gone(s.peers, b.peer_id);
                            list::lemma_first_pushed(
                                list::without(s.peers, b.peer_id),
                                (b.peer_id, survivor.peer),
                                list::keyed(b.peer_id),
                            );
                        } else {
                            list::lemma_with_keeps(s.peers, b.peer_id, survivor.peer, peer_id);
                        }
                    }
                },
            }
        }
    }
}

/// So is every one of several.
proof fn lemma_unused_closed(s: AppView, bridges: Seq<BridgeRefView>, now_ms: u64)
    ensures
        ({
            let t = unused_closed(s, bridges, now_ms).0;
            &&& same_links(s, t)
            &&& letting_go::nothing_gained(s, t)
            &&& over_ssh(s) ==> over_ssh(t) && forall|peer_id: Seq<char>|
                linked_to(s, peer_id) && #[trigger] reachable(s, peer_id) ==> reachable(t, peer_id)
        }),
    decreases bridges.len(),
{
    if bridges.len() == 0 {
        letting_go::lemma_same(s, s);
    } else if in_use(s, bridges[0]) {
        lemma_unused_closed(s, bridges.skip(1), now_ms);
    } else {
        let next = release::bridge_released(s, bridges[0], now_ms);
        let t = unused_closed(s, bridges, now_ms).0;
        lemma_unused_connection_is_given_back_alone(s, bridges[0], now_ms);
        lemma_unused_closed(next, bridges.skip(1), now_ms);
        letting_go::lemma_chain(s, next, t);
        if over_ssh(s) {
            assert forall|peer_id: Seq<char>|
                linked_to(s, peer_id) && #[trigger] reachable(s, peer_id) implies reachable(
                t,
                peer_id,
            ) by {
                assert(reachable(next, peer_id));
                assert(linked_to(next, peer_id));
            }
        }
    }
}

proof fn lemma_cancelling_alone(s: AppView, ids: Seq<Seq<char>>)
    ensures
        ({
            let c = release::activations_cancelled(s, ids);
            c == AppView {
                pending_owner_activations: c.pending_owner_activations,
                effects: c.effects,
                ..s
            }
        }),
    decreases ids.len(),
{
    if ids.len() > 0 {
        lemma_cancelling_alone(release::activation_cancelled(s, ids[0]), ids.skip(1));
    }
}

/// A terminal that is detached shows nothing; the others show what they did.
proof fn lemma_detached(s: AppView, terminal_id: Seq<char>)
    ensures
        ({
            let t = detached(s, terminal_id);
            &&& letting_go::shows_nothing(t, terminal_id)
            &&& letting_go::nothing_gained(s, t)
            &&& t.peers == s.peers
            &&& t.peer_bridges == s.peer_bridges
            &&& t.workspaces == s.workspaces
            &&& forall|k: Seq<char>|
                k != terminal_id ==> #[trigger] list::lookup(t.remote_owner_presentations, k)
                    == list::lookup(s.remote_owner_presentations, k)
            &&& forall|k: Seq<char>|
                k != terminal_id ==> #[trigger] list::lookup(t.remote_owner_peers, k)
                    == list::lookup(s.remote_owner_peers, k)
            &&& forall|k: Seq<char>|
                k != terminal_id ==> #[trigger] list::lookup(t.ssh_shell_bridges, k)
                    == list::lookup(s.ssh_shell_bridges, k)
            &&& forall|k: Seq<char>|
                k != terminal_id ==> #[trigger] list::lookup(t.remote_terminal_bridges, k)
                    == list::lookup(s.remote_terminal_bridges, k)
        }),
{
    let ids = list::keys_of(waiting_rows(s, terminal_id));
    let c = release::activations_cancelled(s, ids);
    let t = detached(s, terminal_id);
    lemma_cancelling_alone(s, ids);
    letting_go::lemma_activations(s, ids);
    letting_go::lemma_without_gone(s.remote_owner_presentations, terminal_id);
    letting_go::lemma_without_gone(s.remote_owner_peers, terminal_id);
    letting_go::lemma_without_gone(s.ssh_shell_bridges, terminal_id);
    letting_go::lemma_without_gone(s.remote_terminal_bridges, terminal_id);
    letting_go::lemma_without_gone(s.remote_mirrors, terminal_id);
    assert(letting_go::nothing_gained(c, t)) by {
        reveal(letting_go::nothing_gained);
    }
    letting_go::lemma_chain(s, c, t);
    assert forall|k: Seq<char>| k != terminal_id implies #[trigger] list::lookup(
        t.remote_owner_presentations,
        k,
    ) == list::lookup(s.remote_owner_presentations, k) by {
        list::lemma_without_keeps(s.remote_owner_presentations, terminal_id, k);
    }
    assert forall|k: Seq<char>| k != terminal_id implies #[trigger] list::lookup(
        t.remote_owner_peers,
        k,
    ) == list::lookup(s.remote_owner_peers, k) by {
        list::lemma_without_keeps(s.remote_owner_peers, terminal_id, k);
    }
    assert forall|k: Seq<char>| k != terminal_id implies #[trigger] list::lookup(
        t.ssh_shell_bridges,
        k,
    ) == list::lookup(s.ssh_shell_bridges, k) by {
        list::lemma_without_keeps(s.ssh_shell_bridges, terminal_id, k);
    }
    assert forall|k: Seq<char>| k != terminal_id implies #[trigger] list::lookup(
        t.remote_terminal_bridges,
        k,
    ) == list::lookup(s.remote_terminal_bridges, k) by {
        list::lemma_without_keeps(s.remote_terminal_bridges, terminal_id, k);
    }
}

proof fn lemma_bridges_released_gain_nothing(
    s: AppView,
    bridges: Seq<BridgeRefView>,
    now_ms: u64,
)
    ensures
        letting_go::nothing_gained(s, release::bridges_released(s, bridges, now_ms)),
    decreases bridges.len(),
{
    if bridges.len() == 0 {
        letting_go::lemma_same(s, s);
    } else {
        let next = release::bridge_released(s, bridges[0], now_ms);
        letting_go::lemma_release_gains_nothing(s, bridges[0], now_ms);
        if release::no_more_bridges(s, next) {
            lemma_bridges_released_gain_nothing(next, bridges.skip(1), now_ms);
            letting_go::lemma_chain(s, next, release::bridges_released(s, bridges, now_ms));
        }
    }
}

/// The other terminals show what they did, and the peers that they are linked to
/// are reached as before.
pub open spec fn others_keep(s: AppView, t: AppView, terminal_id: Seq<char>) -> bool {
    &&& t.workspaces == s.workspaces
    &&& forall|k: Seq<char>|
        k != terminal_id ==> #[trigger] list::lookup(t.remote_owner_presentations, k)
            == list::lookup(s.remote_owner_presentations, k)
    &&& forall|k: Seq<char>|
        k != terminal_id ==> #[trigger] list::lookup(t.remote_owner_peers, k) == list::lookup(
            s.remote_owner_peers,
            k,
        )
    &&& forall|k: Seq<char>|
        k != terminal_id ==> #[trigger] list::lookup(t.ssh_shell_bridges, k) == list::lookup(
            s.ssh_shell_bridges,
            k,
        )
    &&& forall|k: Seq<char>|
        k != terminal_id ==> #[trigger] list::lookup(t.remote_terminal_bridges, k)
            == list::lookup(s.remote_terminal_bridges, k)
    &&& over_ssh(s) ==> over_ssh(t) && forall|peer_id: Seq<char>|
        linked_to(t, peer_id) && #[trigger] reachable(s, peer_id) ==> reachable(t, peer_id)
}

/// A terminal that let go shows nothing from other hosts. While others do, they
/// keep all of it.
pub proof fn lemma_let_go(
    s: AppView,
    terminal_id: Seq<char>,
    held: Seq<BridgeRefView>,
    now_ms: u64,
)
    ensures
        ({
            let t = let_go(s, terminal_id, held, now_ms).0;
            &&& !list::present(t.remote_owner_presentations, terminal_id)
            &&& letting_go::nothing_gained(s, t)
            &&& list::some(s.remote_owner_presentations, list::unkeyed(terminal_id))
                ==> others_keep(s, t, terminal_id)
        }),
{
    let t = let_go(s, terminal_id, held, now_ms).0;
    if list::some(s.remote_owner_presentations, list::unkeyed(terminal_id)) {
        let d = detached(s, terminal_id);
        let bridges = held + bridges_of(s, terminal_id);
        lemma_detached(s, terminal_id);
        lemma_unused_closed(d, bridges, now_ms);
        letting_go::lemma_chain(s, d, t);
        if over_ssh(s) {
            assert(over_ssh(d));
            assert forall|peer_id: Seq<char>|
                linked_to(t, peer_id) && #[trigger] reachable(s, peer_id) implies reachable(
                t,
                peer_id,
            ) by {
                assert(reachable(d, peer_id));
            }
        }
    } else {
        let released = release::terminal_released(s, terminal_id, now_ms);
        letting_go::lemma_released_terminal_shows_nothing(s, terminal_id, now_ms);
        lemma_bridges_released_gain_nothing(released, held, now_ms);
        letting_go::lemma_chain(s, released, t);
        reveal(letting_go::nothing_gained);
    }
}

} // verus!
