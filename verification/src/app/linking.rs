//! Which terminals hang on a peer or a connection, and where a pane comes home to.

use vstd::prelude::*;
use vstd::string::*;

use super::api::agents as api_agents;
use super::api::peers::{self as api_peers, ShellConnectView};
use super::handoff;
use super::list;
use super::release;
use super::remote_presentations as presentations;
use super::returning;
use super::{ActivationView, AppView, BridgeRefView, DelegatedView, EffectView, PlaceView};
use crate::api::schema::common::Method;
use crate::api::schema::peers::{DelegationView, PeerView};
use crate::text;

verus! {

/// A row of the table has this key, and this value with it.
pub open spec fn has_row<W>(t: Seq<(Seq<char>, W)>, k: Seq<char>, p: spec_fn((Seq<char>, W)) -> bool) -> bool {
    exists|i: int| 0 <= i < t.len() && (#[trigger] t[i]).0 == k && p(t[i])
}

proof fn lemma_keys_of_filtered<W>(
    t: Seq<(Seq<char>, W)>,
    p: spec_fn((Seq<char>, W)) -> bool,
    k: Seq<char>,
)
    ensures
        list::keys_of(t.filter(p)).contains(k) <==> has_row(t, k, p),
{
    let kept = t.filter(p);
    let keys = list::keys_of(kept);
    if keys.contains(k) {
        let j = keys.index_of(k);
        list::lemma_filter_contains(t, p, kept[j]);
        assert(kept.contains(kept[j]));
        let i = t.index_of(kept[j]);
        assert(t[i].0 == k);
    }
    if has_row(t, k, p) {
        let i = choose|i: int| 0 <= i < t.len() && (#[trigger] t[i]).0 == k && p(t[i]);
        list::lemma_filter_contains(t, p, t[i]);
        assert(t.contains(t[i]));
        let j = kept.index_of(t[i]);
        assert(keys[j] == k);
    }
}

proof fn lemma_contains_sum(a: Seq<Seq<char>>, b: Seq<Seq<char>>, x: Seq<char>)
    ensures
        (a + b).contains(x) <==> a.contains(x) || b.contains(x),
{
    if a.contains(x) {
        assert((a + b)[a.index_of(x)] == x);
    }
    if b.contains(x) {
        assert((a + b)[a.len() + b.index_of(x)] == x);
    }
    if (a + b).contains(x) {
        let i = (a + b).index_of(x);
        if i < a.len() {
            assert(a[i] == x);
        } else {
            assert(b[i - a.len()] == x);
        }
    }
}

/// The terminals of a peer are those that a shell of theirs, an agent of theirs or what they
/// show links to it; each is one of them once.
pub proof fn lemma_terminals_of_a_peer_are_linked_to_it(
    s: AppView,
    peer_id: Seq<char>,
    terminal_id: Seq<char>,
)
    ensures
        api_peers::terminals_of_peer(s, peer_id).contains(terminal_id) <==> (exists|i: int|
            0 <= i < s.ssh_shell_bridges.len() && (#[trigger] s.ssh_shell_bridges[i]).0
                == terminal_id && s.ssh_shell_bridges[i].1.peer_id == peer_id) || (exists|i: int|
            0 <= i < s.remote_terminal_bridges.len() && (
            #[trigger] s.remote_terminal_bridges[i]).0 == terminal_id
                && s.remote_terminal_bridges[i].1.peer_id == peer_id) || (exists|i: int|
            0 <= i < s.remote_owner_peers.len() && (#[trigger] s.remote_owner_peers[i]).0
                == terminal_id && s.remote_owner_peers[i].1 == peer_id),
        api_peers::terminals_of_peer(s, peer_id).no_duplicates(),
{
    let a = list::keys_of(s.ssh_shell_bridges.filter(release::by_peer(peer_id)));
    let b = list::keys_of(s.remote_terminal_bridges.filter(release::by_peer(peer_id)));
    let c = release::peer_owners(s, peer_id);
    text::lemma_firsts_keep_each_once(a + b + c, terminal_id);
    lemma_contains_sum(a + b, c, terminal_id);
    lemma_contains_sum(a, b, terminal_id);
    lemma_keys_of_filtered(s.ssh_shell_bridges, release::by_peer(peer_id), terminal_id);
    lemma_keys_of_filtered(s.remote_terminal_bridges, release::by_peer(peer_id), terminal_id);
    lemma_keys_of_filtered(s.remote_owner_peers, release::owned_by(peer_id), terminal_id);
}

/// The terminals that go with a connection are those that are linked by it, and with the last
/// connection to a peer also those that show something of the peer.
pub proof fn lemma_terminals_go_with_their_connection(
    s: AppView,
    b: BridgeRefView,
    terminal_id: Seq<char>,
)
    ensures
        ({
            let linked = (exists|i: int|
                0 <= i < s.ssh_shell_bridges.len() && (#[trigger] s.ssh_shell_bridges[i]).0
                    == terminal_id && s.ssh_shell_bridges[i].1 == b) || (exists|i: int|
                0 <= i < s.remote_terminal_bridges.len() && (
                #[trigger] s.remote_terminal_bridges[i]).0 == terminal_id
                    && s.remote_terminal_bridges[i].1 == b);
            let shows = exists|i: int|
                0 <= i < s.remote_owner_peers.len() && (#[trigger] s.remote_owner_peers[i]).0
                    == terminal_id && s.remote_owner_peers[i].1 == b.peer_id;
            let going = release::going_with(s, b, release::bridge_owners(s, b));
            &&& release::bridge_owners(s, b).contains(terminal_id) <==> linked
            &&& going.contains(terminal_id) <==> linked || (shows && release::latest(
                s.peer_bridges.filter(release::not_bridge_at(b)),
                b.peer_id,
            ) is None)
            &&& going.no_duplicates()
        }),
{
    let a = list::keys_of(s.ssh_shell_bridges.filter(release::by_bridge(b)));
    let c = list::keys_of(s.remote_terminal_bridges.filter(release::by_bridge(b)));
    let owners = release::bridge_owners(s, b);
    lemma_contains_sum(a, c, terminal_id);
    lemma_keys_of_filtered(s.ssh_shell_bridges, release::by_bridge(b), terminal_id);
    lemma_keys_of_filtered(s.remote_terminal_bridges, release::by_bridge(b), terminal_id);
    lemma_keys_of_filtered(s.remote_owner_peers, release::owned_by(b.peer_id), terminal_id);
    text::lemma_firsts_keep_each_once(owners, terminal_id);
    text::lemma_firsts_keep_each_once(owners + release::peer_owners(s, b.peer_id), terminal_id);
    lemma_contains_sum(owners, release::peer_owners(s, b.peer_id), terminal_id);
}

/// A peer that is connected to is known as it was found, over a connection that is the
/// latest, and on Unix is asked what it has parked.
pub proof fn lemma_connected_peers_are_asked_what_they_parked(
    s: AppView,
    c: ShellConnectView,
    now_ms: u64,
)
    ensures
        ({
            let after = api_peers::linked(s, c, None, now_ms);
            &&& s.unix ==> after.effects.last() == EffectView::DiscoverParked(c.peer)
            &&& after.effects.contains(
                EffectView::StartRefresh {
                    peer: c.peer,
                    generation: s.next_peer_refresh_generation,
                },
            )
            &&& list::lookup(after.peers, c.peer.id) == Some(c.peer)
            &&& release::latest(after.peer_bridges, c.peer.id) == Some(c.bridge)
            &&& list::lookup(after.peer_refresh_generations, c.peer.id) == Some(
                s.next_peer_refresh_generation,
            )
        }),
{
    let b = BridgeRefView { peer_id: c.peer.id, connection_id: c.bridge.connection_id };
    let leased = api_peers::bridge_leased(
        AppView { peer_bridges: s.peer_bridges.push((c.peer.id, c.bridge)), ..s },
        b,
        now_ms,
    );
    let known = api_peers::peer_known(leased, c.peer);
    let after = api_peers::linked(s, c, None, now_ms);
    let start = EffectView::StartRefresh {
        peer: c.peer,
        generation: s.next_peer_refresh_generation,
    };
    list::lemma_tables_change_one_key(s.peers, c.peer.id, c.peer, (c.peer.id, c.peer));
    let kept = list::without(s.peer_refresh_generations, c.peer.id);
    list::lemma_tables_change_one_key(
        kept,
        c.peer.id,
        s.next_peer_refresh_generation,
        (c.peer.id, s.next_peer_refresh_generation),
    );
    assert(known.effects.last() == start);
    assert(after.effects[known.effects.len() - 1] == start);
    assert(after.peer_bridges.last() == (c.peer.id, c.bridge));
}

/// A pane comes home to a workspace of its own: with its terminal and its number, as it was
/// seen, under the names that it is given, in its own directory and under its own label. It
/// is found by the name that it had before, and the workspace is active where none was.
pub proof fn lemma_panes_come_home_to_a_workspace_of_their_own(
    s: AppView,
    d: DelegatedView,
    home: PlaceView,
)
    requires
        s.workspaces.len() <= usize::MAX,
    ensures
        ({
            let after = handoff::rehomed(s, d, home);
            let w = after.workspaces.last();
            let terminal = list::lookup(s.terminals, d.moved.terminal_id);
            &&& after.workspaces.drop_last() == s.workspaces
            &&& w.id == home.workspace_id && w.focused == Some(d.moved.pane_id)
            &&& w.panes.len() == 1 && w.panes[0].pane_id == d.moved.pane_id
                && w.panes[0].terminal_id == d.moved.terminal_id && w.panes[0].public_pane_id
                == Some(home.pane_id) && w.panes[0].seen == d.moved.seen
            &&& w.tabs.len() == 1 && w.tabs[0].public_tab_id == Some(home.tab_id)
                && w.tabs[0].focused == d.moved.pane_id && w.active_tab == 0
            &&& terminal is Some ==> w.cwd == (terminal->0).cwd && w.tabs[0].label == (
            terminal->0).manual_label
            &&& list::lookup(after.public_pane_id_aliases, d.place.pane_id) == Some(
                d.moved.pane_id,
            )
            &&& s.active is Some ==> after.active == s.active && after.selected == s.selected
            &&& s.active is None ==> after.active == Some(s.workspaces.len() as usize)
                && after.selected == s.workspaces.len()
        }),
{
    let after = handoff::rehomed(s, d, home);
    assert(after.workspaces.drop_last() =~= s.workspaces);
    list::lemma_tables_change_one_key(
        s.public_pane_id_aliases,
        d.place.pane_id,
        d.moved.pane_id,
        (d.place.pane_id, d.moved.pane_id),
    );
}

/// A connection is in use exactly if something is waited for over it or a terminal is linked
/// by it; the last one to a peer also if that holds of the peer, or something of it is shown.
pub proof fn lemma_connections_in_use(s: AppView, b: BridgeRefView)
    ensures
        ({
            let another = exists|i: int|
                0 <= i < s.peer_bridges.len() && (#[trigger] s.peer_bridges[i]).0 == b.peer_id
                    && s.peer_bridges[i].1.connection_id != b.connection_id;
            let waited = exists|i: int|
                0 <= i < s.pending_owner_activations.len() && (
                #[trigger] s.pending_owner_activations[i]).1.bridge == b;
            let linked = (exists|i: int|
                0 <= i < s.ssh_shell_bridges.len() && (#[trigger] s.ssh_shell_bridges[i]).1 == b)
                || (exists|i: int|
                0 <= i < s.remote_terminal_bridges.len() && (
                #[trigger] s.remote_terminal_bridges[i]).1 == b);
            let shown = exists|i: int|
                0 <= i < s.remote_owner_peers.len() && (#[trigger] s.remote_owner_peers[i]).1
                    == b.peer_id;
            &&& waited || linked ==> returning::in_use(s, b)
            &&& another ==> (returning::in_use(s, b) <==> waited || linked)
            &&& !another && shown ==> returning::in_use(s, b)
        }),
{
    list::lemma_first(s.peer_bridges, returning::beside(b));
    list::lemma_first(s.pending_owner_activations, release::over_bridge(b));
    list::lemma_first(s.ssh_shell_bridges, release::by_bridge(b));
    list::lemma_first(s.remote_terminal_bridges, release::by_bridge(b));
    list::lemma_first(s.pending_owner_activations, release::over_peer(b.peer_id));
    list::lemma_first(s.ssh_shell_bridges, release::by_peer(b.peer_id));
    list::lemma_first(s.remote_terminal_bridges, release::by_peer(b.peer_id));
    list::lemma_first(s.remote_owner_peers, release::owned_by(b.peer_id));
    if list::some(s.peer_bridges, returning::beside(b)) {
        let i = list::place(s.peer_bridges, returning::beside(b));
        assert(returning::beside(b)(s.peer_bridges[i]));
    }
    if list::some(s.pending_owner_activations, release::over_bridge(b)) {
        let i = list::place(s.pending_owner_activations, release::over_bridge(b));
        assert(release::over_bridge(b)(s.pending_owner_activations[i]));
    }
    if list::some(s.ssh_shell_bridges, release::by_bridge(b)) {
        let i = list::place(s.ssh_shell_bridges, release::by_bridge(b));
        assert(release::by_bridge(b)(s.ssh_shell_bridges[i]));
    }
    if list::some(s.remote_terminal_bridges, release::by_bridge(b)) {
        let i = list::place(s.remote_terminal_bridges, release::by_bridge(b));
        assert(release::by_bridge(b)(s.remote_terminal_bridges[i]));
    }
}

/// An agent of a peer is attached for the host that presents the pane it is attached to,
/// where one does, and else for this host, which is then the whole route.
pub proof fn lemma_agents_are_attached_for_who_presents_the_pane(s: AppView, pane_id: Seq<char>)
    ensures
        match list::first(s.delegated, presentations::publicly(s, pane_id)) {
            Some((_, d)) => api_agents::attach_owner(s, pane_id) == d.info.owner,
            None => ({
                let owner = api_agents::attach_owner(s, pane_id);
                owner.peer_id == s.local_peer_id && owner.pane_id == pane_id && owner.route
                    == seq![s.local_peer_id]
            }),
        },
{
}

/// An agent that a peer has prepared is waited for by the terminal that asked for it, over
/// the latest connection to that peer, which outlives the wait. It is refused exactly if the
/// peer is not reached over SSH, the terminal is not there, or no connection is up.
pub proof fn lemma_prepared_agents_are_waited_for(
    s: AppView,
    peer: PeerView,
    owner: Option<Seq<char>>,
    d: DelegationView,
)
    ensures
        ({
            let (after, r) = api_agents::delegation_prepared(s, peer, owner, d);
            let bridge = release::latest(s.peer_bridges, peer.id);
            &&& r is Ok <==> peer.transport is Ssh && owner is Some && list::lookup(
                s.terminals,
                owner->0,
            ) is Some && bridge is Some
            &&& r is Err ==> after == s
            &&& r is Ok ==> (list::lookup(after.pending_owner_activations, d.delegation_id) matches
                Some(p) && p.terminal_id == owner->0 && p.peer == peer && p.delegation == d
                && p.bridge.peer_id == peer.id && p.bridge.connection_id == (
            bridge->0).connection_id && !p.release_bridge_on_owner_close)
            &&& r is Ok ==> after.effects.last() is WatchActivation
                && after.effects.last()->WatchActivation_delegation_id == d.delegation_id
        }),
{
    if owner is Some {
        let c = release::activations_cancelled(
            s,
            list::keys_of(
                s.pending_owner_activations.filter(presentations::for_terminal(owner->0)),
            ),
        );
        let p = ActivationView {
            terminal_id: owner->0,
            bridge: BridgeRefView {
                peer_id: peer.id,
                connection_id: (release::latest(s.peer_bridges, peer.id)->0).connection_id,
            },
            peer,
            delegation: d,
            release_bridge_on_owner_close: false,
        };
        list::lemma_tables_change_one_key(
            c.pending_owner_activations,
            d.delegation_id,
            p,
            (d.delegation_id, p),
        );
    }
}

/// Only an attachment is prepared for a terminal: the one in the pane that asks.
pub proof fn lemma_attachments_are_for_the_pane_that_asks(
    s: AppView,
    method: Method,
    parsed: Option<(usize, u64)>,
)
    ensures
        method is AgentAttachPrepare ==> api_agents::request_owner(s, method, parsed)
            == api_peers::owner_terminal(
            s,
            Some((method->AgentAttachPrepare_0).owner_pane_id@),
            parsed,
        ),
        !(method is AgentAttachPrepare) ==> api_agents::request_owner(s, method, parsed) == Ok::<
            Option<Seq<char>>,
            presentations::Refusal,
        >(None),
{
}

} // verus!
