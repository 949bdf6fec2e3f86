//! What holds of terminals that show remote ones, and of the peers they are shown from.

use vstd::prelude::*;
use vstd::string::*;

use super::api::peer_health;
use super::api::peers::{self as api_peers, ConnectedView, RemoteShellConnect};
use super::dwindling;
use super::letting_go;
use super::list;
use super::owners;
use super::presenting;
use super::release;
use super::remote_presentations::{self as presentations, Refusal};
use super::resumption;
use super::sorting;
use super::{ActivationView, AppView, BridgeRefView, BridgeView, EffectView};
use crate::api::schema::agents::{AgentTransportView, AttachView};
use crate::api::schema::peers::{
    DelegationView, OwnerView, PeerStatus, PeerTransportView, PeerView,
};
use crate::desktop_queue::order;
use crate::text;

verus! {

// ---------------------------------------------------------------------------
// Operations under way

/// While an operation is under way for a terminal, the terminal counts as linked; an
/// operation that has finished leaves the count as it was before.
pub proof fn lemma_operations_are_counted(s: AppView, t: Seq<char>, other: Seq<char>)
    ensures
        ({
            let begun = owners::operation_begun(s, Some(t));
            let done = owners::operation_finished(begun, Some(t));
            &&& presentations::has_downstream(begun, t)
            &&& begun == (AppView {
                pending_owner_operations: begun.pending_owner_operations,
                ..s
            })
            &&& list::lookup(begun.pending_owner_operations, t) matches Some(n) && n > 0 && (
            list::lookup(s.pending_owner_operations, t) is None ==> n == 1)
            &&& list::lookup(s.pending_owner_operations, t) is None ==> list::lookup(
                done.pending_owner_operations,
                t,
            ) is None
            &&& list::lookup(s.pending_owner_operations, t) matches Some(n) ==> (0 < n < u64::MAX
                ==> list::lookup(done.pending_owner_operations, t) == Some(n))
            &&& other != t ==> list::lookup(done.pending_owner_operations, other) == list::lookup(
                s.pending_owner_operations,
                other,
            )
        }),
        owners::operation_begun(s, None) == s,
        owners::operation_finished(s, None) == s,
{
    let begun = owners::operation_begun(s, Some(t));
    let n = list::lookup(begun.pending_owner_operations, t);
    let was = match list::lookup(s.pending_owner_operations, t) {
        Some(n) => if n == u64::MAX {
            n
        } else {
            (n + 1) as u64
        },
        None => 1,
    };
    list::lemma_tables_change_one_key(s.pending_owner_operations, t, was, (other, was));
    list::lemma_lookup_reads_the_table(begun.pending_owner_operations, t);
    list::lemma_tables_change_one_key(
        begun.pending_owner_operations,
        t,
        (was - 1) as u64,
        (other, was),
    );
}

// ---------------------------------------------------------------------------
// Activations

proof fn lemma_cancelled(s: AppView, ids: Seq<Seq<char>>, k: Seq<char>)
    ensures
        ({
            let c = release::activations_cancelled(s, ids);
            &&& c == (AppView {
                pending_owner_activations: c.pending_owner_activations,
                effects: c.effects,
                ..s
            })
            &&& ids.contains(k) ==> list::lookup(c.pending_owner_activations, k) is None
            &&& !ids.contains(k) ==> list::lookup(c.pending_owner_activations, k) == list::lookup(
                s.pending_owner_activations,
                k,
            )
            &&& list::lookup(s.pending_owner_activations, k) is None ==> list::lookup(
                c.pending_owner_activations,
                k,
            ) is None
        }),
    decreases ids.len(),
{
    if ids.len() > 0 {
        let next = release::activation_cancelled(s, ids[0]);
        let rest = ids.skip(1);
        lemma_cancelled(next, rest, k);
        letting_go::lemma_without_gone(s.pending_owner_activations, ids[0]);
        if k == ids[0] {
            assert(list::lookup(next.pending_owner_activations, k) is None);
        } else {
            list::lemma_without_keeps(s.pending_owner_activations, ids[0], k);
            if ids.contains(k) {
                assert(rest[ids.index_of(k) - 1] == k);
            }
            if rest.contains(k) {
                assert(ids[rest.index_of(k) + 1] == k);
            }
        }
        assert(ids.contains(ids[0]));
    }
}

/// A terminal that waits for a peer to confirm waits for that alone: over the connection
/// that it was prepared on, for the terminal that was delegated. The confirmation is
/// watched for.
pub proof fn lemma_terminals_wait_for_one_confirmation(
    s: AppView,
    terminal_id: Seq<char>,
    peer: PeerView,
    connection_id: Seq<char>,
    delegation: DelegationView,
    attach: AttachView,
    own: bool,
)
    ensures
        ({
            let after = owners::waiting(
                s,
                terminal_id,
                peer,
                connection_id,
                delegation,
                attach,
                own,
            );
            &&& list::lookup(after.pending_owner_activations, delegation.delegation_id) == Some(
                ActivationView {
                    terminal_id,
                    bridge: BridgeRefView { peer_id: peer.id, connection_id },
                    peer,
                    delegation,
                    release_bridge_on_owner_close: own,
                },
            )
            &&& after.effects.len() > 0 && after.effects.last() == (EffectView::WatchActivation {
                delegation_id: delegation.delegation_id,
                attach,
            })
            &&& forall|k: Seq<char>|
                k != delegation.delegation_id && (list::lookup(s.pending_owner_activations, k)
                    matches Some(p) && p.terminal_id == terminal_id) ==> #[trigger] list::lookup(
                    after.pending_owner_activations,
                    k,
                ) is None
            &&& presentations::has_downstream(after, terminal_id)
            &&& after == (AppView {
                pending_owner_activations: after.pending_owner_activations,
                effects: after.effects,
                ..s
            })
        }),
{
    let p = presentations::for_terminal(terminal_id);
    let rows = s.pending_owner_activations.filter(p);
    let ids = list::keys_of(rows);
    let c = release::activations_cancelled(s, ids);
    let id = delegation.delegation_id;
    let row = ActivationView {
        terminal_id,
        bridge: BridgeRefView { peer_id: peer.id, connection_id },
        peer,
        delegation,
        release_bridge_on_owner_close: own,
    };
    let after = owners::waiting(s, terminal_id, peer, connection_id, delegation, attach, own);
    lemma_cancelled(s, ids, id);
    list::lemma_tables_change_one_key(c.pending_owner_activations, id, row, (id, row));
    assert forall|k: Seq<char>|
        k != id && (list::lookup(s.pending_owner_activations, k) matches Some(x) && x.terminal_id
            == terminal_id) implies #[trigger] list::lookup(after.pending_owner_activations, k)
        is None by {
        list::lemma_tables_change_one_key(c.pending_owner_activations, id, row, (k, row));
        lemma_cancelled(s, ids, k);
        let x = list::lookup(s.pending_owner_activations, k)->0;
        list::lemma_lookup_reads_the_table(s.pending_owner_activations, k);
        assert(s.pending_owner_activations.contains((k, x)));
        list::lemma_filter_contains(s.pending_owner_activations, p, (k, x));
        let i = rows.index_of((k, x));
        assert(ids[i] == k);
    }
    let n = after.pending_owner_activations.len() - 1;
    assert(p(after.pending_owner_activations[n]));
    list::lemma_first(after.pending_owner_activations, p);
}

/// A terminal comes to show a remote one exactly if the peer confirmed it while it was
/// waited for, the terminal is there and the connection is up. Either way it is waited for
/// no more. What it shows is what was delegated, of the peer of that connection.
pub proof fn lemma_confirmed_terminals_are_shown(
    s: AppView,
    id: Seq<char>,
    activated: bool,
    now_ms: u64,
    p: ActivationView,
    other: Seq<char>,
)
    requires
        list::lookup(s.pending_owner_activations, id) == Some(p),
        other != p.terminal_id,
    ensures
        ({
            let after = owners::activation_finished(s, id, activated, now_ms);
            let up = exists|i: int|
                0 <= i < s.peer_bridges.len() && (#[trigger] s.peer_bridges[i]).0
                    == p.bridge.peer_id && s.peer_bridges[i].1.connection_id
                    == p.bridge.connection_id;
            &&& list::lookup(after.pending_owner_activations, id) is None
            &&& after.effects.len() > s.effects.len() && after.effects[s.effects.len() as int]
                == EffectView::CancelActivation(id)
            &&& list::lookup(after.remote_owner_presentations, other) == list::lookup(
                s.remote_owner_presentations,
                other,
            )
            &&& if activated && list::lookup(s.terminals, p.terminal_id) is Some && up {
                &&& list::lookup(after.remote_owner_presentations, p.terminal_id) == Some(
                    p.delegation,
                )
                &&& list::lookup(after.remote_owner_peers, p.terminal_id) == Some(p.bridge.peer_id)
                &&& !p.release_bridge_on_owner_close && now_ms + 15_000 <= u64::MAX
                    ==> list::lookup(after.remote_owner_deadlines, p.terminal_id) == Some(
                    (now_ms + 15_000) as u64,
                )
                &&& p.release_bridge_on_owner_close ==> after.ssh_shell_bridges.contains(
                    (p.terminal_id, p.bridge),
                )
                &&& after.session_dirty
            } else {
                after == (AppView {
                    pending_owner_activations: after.pending_owner_activations,
                    effects: s.effects.push(EffectView::CancelActivation(id)),
                    ..s
                })
            }
        }),
{
    let c = release::activation_cancelled(s, id);
    let after = owners::activation_finished(s, id, activated, now_ms);
    list::lemma_lookup_reads_the_table(s.pending_owner_activations, id);
    list::lemma_lookup_reads_the_table(s.terminals, p.terminal_id);
    letting_go::lemma_without_gone(s.pending_owner_activations, id);
    let at = release::bridge_at(p.bridge);
    list::lemma_first(s.peer_bridges, at);
    if release::connected(s, p.bridge) {
        let i = list::place(s.peer_bridges, at);
        assert(s.peer_bridges[i].0 == p.bridge.peer_id && s.peer_bridges[i].1.connection_id
            == p.bridge.connection_id);
    } else {
        assert forall|i: int| 0 <= i < s.peer_bridges.len() implies !((
        #[trigger] s.peer_bridges[i]).0 == p.bridge.peer_id && s.peer_bridges[i].1.connection_id
            == p.bridge.connection_id) by {
            assert(!at(s.peer_bridges[i]));
        }
    }
    list::lemma_tables_change_one_key(
        s.remote_owner_presentations,
        p.terminal_id,
        p.delegation,
        (other, p.delegation),
    );
    list::lemma_tables_change_one_key(
        s.remote_owner_peers,
        p.terminal_id,
        p.bridge.peer_id,
        (other, p.bridge.peer_id),
    );
    list::lemma_tables_change_one_key(
        s.remote_owner_deadlines,
        p.terminal_id,
        owners::lease_end(now_ms, owners::REMOTE_OWNER_LEASE_MS),
        (other, 0),
    );
    let by = owners::linked_by(p.terminal_id, p.bridge);
    list::lemma_first(s.ssh_shell_bridges, by);
    let row = (p.terminal_id, p.bridge);
    assert(s.ssh_shell_bridges.push(row)[s.ssh_shell_bridges.len() as int] == row);
    if list::some(s.ssh_shell_bridges, by) {
        let i = list::place(s.ssh_shell_bridges, by);
        assert(s.ssh_shell_bridges[i] == row);
    }
}

/// A remote shell that is shown in a pane is mirrored there: over the way that its peer is
/// reached, of the terminal and pane that were delegated.
pub proof fn lemma_shown_shells_are_mirrored(
    s: AppView,
    terminal_id: Seq<char>,
    peer: PeerView,
    delegation: DelegationView,
    i: int,
    k: int,
)
    requires
        resumption::shows_first(s, terminal_id, i, k),
        list::lookup(s.terminals, terminal_id) is Some,
    ensures
        ({
            let after = owners::mirrored(s, terminal_id, peer, delegation);
            match peer.transport {
                PeerTransportView::Ssh { target, ssh_args, managed_control_path, session } => {
                    let transport = AgentTransportView::Ssh {
                        target,
                        ssh_args,
                        managed_control_path,
                        session,
                        remote_terminal_id: delegation.terminal_id,
                        remote_pane_id: delegation.pane_id,
                        remote_agent: None,
                        remote_cwd: None,
                    };
                    &&& list::lookup(after.terminals, terminal_id) matches Some(t)
                        && t.remote_agent_transport == Some(transport)
                    &&& list::lookup(after.remote_mirrors, terminal_id) is Some
                    &&& after.effects.last() == (EffectView::StartMirror {
                        terminal_id,
                        pane_id: s.workspaces[i].panes[k].pane_id,
                        transport,
                    })
                },
                PeerTransportView::ApiSocket { .. } => after == s,
            }
        }),
{
    let w = s.workspaces[i];
    let attached = presentations::pane_attached(terminal_id);
    let holds = presentations::holds_terminal(terminal_id);
    resumption::lemma_first_is(w.panes, attached, k);
    assert forall|h: int| 0 <= h < i implies !holds(#[trigger] s.workspaces[h]) by {
        let panes = s.workspaces[h].panes;
        list::lemma_first(panes, attached);
        assert forall|j: int| 0 <= j < panes.len() implies !attached(#[trigger] panes[j]) by {
            assert(s.workspaces[h].panes[j].terminal_id != terminal_id);
        }
    }
    assert(holds(w));
    resumption::lemma_first_is(s.workspaces, holds, i);
    match owners::shell_transport(peer, delegation) {
        Some(transport) => {
            let t = super::TerminalView {
                remote_agent_transport: Some(transport),
                ..list::lookup(s.terminals, terminal_id)->0
            };
            list::lemma_tables_change_one_key(s.terminals, terminal_id, t, (terminal_id, t));
            let c = release::mirror_cancelled(s, terminal_id);
            list::lemma_tables_change_one_key(
                c.remote_mirrors,
                terminal_id,
                (),
                (terminal_id, ()),
            );
        },
        None => {},
    }
}

// ---------------------------------------------------------------------------
// Leases

/// A lease of a quarter of a minute ends that much later, or never.
pub proof fn lemma_leases_last_a_quarter_of_a_minute(now_ms: u64)
    ensures
        owners::REMOTE_OWNER_LEASE_MS == 15_000,
        owners::SSH_SHELL_BRIDGE_LEASE_MS == 15_000,
        owners::INCOMING_PEER_LEASE_MS == 15_000,
        now_ms + 15_000 <= u64::MAX ==> owners::lease_end(now_ms, 15_000) == now_ms + 15_000,
        owners::lease_end(now_ms, 15_000) >= now_ms,
{
}

proof fn lemma_shut_down_show_nothing(
    s: AppView,
    terminals: Seq<Seq<char>>,
    now_ms: u64,
    t: Seq<char>,
)
    requires
        terminals.contains(t),
        list::first(s.delegated, release::lends(t)) is None,
    ensures
        !list::present(
            release::terminals_shut_down(s, terminals, now_ms).remote_owner_presentations,
            t,
        ),
    decreases terminals.len(),
{
    let next = release::terminal_shut_down(s, terminals[0], now_ms);
    let rest = terminals.skip(1);
    dwindling::lemma_terminal_shut_down(s, terminals[0], now_ms);
    assert(release::terminals_shut_down(s, terminals, now_ms) == release::terminals_shut_down(
        next,
        rest,
        now_ms,
    ));
    if terminals[0] == t {
        letting_go::lemma_released_terminal_shows_nothing(s, t, now_ms);
        assert(!list::present(next.remote_owner_presentations, t));
        letting_go::lemma_taking_down_gains_nothing(next, rest, now_ms);
        reveal(letting_go::nothing_gained);
    } else {
        let i = terminals.index_of(t);
        assert(rest[i - 1] == t);
        letting_go::lemma_taking_down_gains_nothing(s, seq![terminals[0]], now_ms);
        assert(seq![terminals[0]].skip(1) =~= Seq::<Seq<char>>::empty());
        assert(release::terminals_shut_down(next, Seq::<Seq<char>>::empty(), now_ms) == next);
        assert(list::first(next.delegated, release::lends(t)) is None) by {
            reveal(letting_go::nothing_gained);
            list::lemma_first(next.delegated, release::lends(t));
            list::lemma_first(s.delegated, release::lends(t));
            assert forall|j: int| 0 <= j < next.delegated.len() implies !release::lends(t)(
                #[trigger] next.delegated[j],
            ) by {
                let row = next.delegated[j];
                assert(next.delegated.contains(row));
                assert(s.delegated.contains(row));
                let n = s.delegated.index_of(row);
                assert(!release::lends(t)(s.delegated[n]));
            }
        }
        lemma_shut_down_show_nothing(next, rest, now_ms, t);
    }
}

/// A terminal whose lease has run out shows no remote one any more, where no other host
/// presents it. While no lease has run out nothing changes.
pub proof fn lemma_terminals_are_shown_while_their_lease_runs(
    s: AppView,
    now_ms: u64,
    t: Seq<char>,
    deadline: u64,
)
    requires
        s.remote_owner_deadlines.contains((t, deadline)),
    ensures
        now_ms >= deadline && (forall|j: int|
            0 <= j < s.delegated.len() ==> (#[trigger] s.delegated[j]).1.moved.terminal_id != t)
            ==> list::lookup(owners::owners_aged(s, now_ms).remote_owner_presentations, t) is None,
        (forall|j: int|
            0 <= j < s.remote_owner_deadlines.len() ==> now_ms < (
            #[trigger] s.remote_owner_deadlines[j]).1) ==> owners::owners_aged(s, now_ms) == s,
{
    let rows = s.remote_owner_deadlines;
    let late = owners::lapsed(now_ms);
    let left = rows.filter(late);
    let going = list::keys_of(left);
    if now_ms >= deadline && (forall|j: int|
        0 <= j < s.delegated.len() ==> (#[trigger] s.delegated[j]).1.moved.terminal_id != t) {
        list::lemma_filter_contains(rows, late, (t, deadline));
        let i = left.index_of((t, deadline));
        assert(going[i] == t);
        let dropped = AppView {
            remote_owner_deadlines: rows.filter(owners::not_lapsed(now_ms)),
            ..s
        };
        list::lemma_first(s.delegated, release::lends(t));
        assert forall|j: int| 0 <= j < s.delegated.len() implies !release::lends(t)(
            #[trigger] s.delegated[j],
        ) by {
            assert(s.delegated[j].1.moved.terminal_id != t);
        }
        lemma_shut_down_show_nothing(dropped, going, now_ms, t);
    }
    if forall|j: int| 0 <= j < rows.len() ==> now_ms < (#[trigger] rows[j]).1 {
        assert forall|j: int| 0 <= j < rows.len() implies owners::not_lapsed(now_ms)(
            #[trigger] rows[j],
        ) by {
            assert(now_ms < rows[j].1);
        }
        list::lemma_filter_all(rows, owners::not_lapsed(now_ms));
        if left.len() > 0 {
            list::lemma_filtered_holds(rows, late);
            assert(late(left[0]));
            list::lemma_filter_contains(rows, late, left[0]);
            assert(left.contains(left[0]));
            let j = rows.index_of(left[0]);
            assert(now_ms < rows[j].1);
        }
        assert(going =~= Seq::<Seq<char>>::empty());
    }
}

// ---------------------------------------------------------------------------
// Registration

/// A peer is registered exactly if its id is made of at most sixty-four letters, digits,
/// dots, underscores and hyphens.
pub proof fn lemma_peer_ids_are_plain(value: Seq<char>)
    ensures
        api_peers::peer_id_valid(value) ==> 0 < value.len() && text::utf8_len(value) <= 64
            && forall|i: int|
            0 <= i < value.len() ==> {
                let c = #[trigger] value[i];
                ('a' <= c <= 'z') || ('A' <= c <= 'Z') || ('0' <= c <= '9') || c == '.' || c == '_'
                    || c == '-'
            },
        0 < value.len() && text::utf8_len(value) <= 64 && (forall|i: int|
            0 <= i < value.len() ==> {
                let c = #[trigger] value[i];
                ('a' <= c <= 'z') || ('A' <= c <= 'Z') || ('0' <= c <= '9') || c == '.' || c == '_'
                    || c == '-'
            }) ==> api_peers::peer_id_valid(value),
{
    if 0 < value.len() && text::utf8_len(value) <= 64 && (forall|i: int|
        0 <= i < value.len() ==> {
            let c = #[trigger] value[i];
            ('a' <= c <= 'z') || ('A' <= c <= 'Z') || ('0' <= c <= '9') || c == '.' || c == '_'
                || c == '-'
        }) {
        assert forall|i: int| 0 <= i < value.len() implies api_peers::peer_id_char(
            #[trigger] value[i],
        ) by {}
    }
}

/// A peer that is registered is known as it described itself, connected, and asked for its
/// agents anew; answers to earlier questions do not count. One that connected to this
/// server has a lease. Other peers stay as they were.
pub proof fn lemma_registered_peers_are_known(
    s: AppView,
    peer: PeerView,
    now_ms: u64,
    other: Seq<char>,
)
    requires
        other != peer.id,
        now_ms + 15_000 <= u64::MAX,
    ensures
        ({
            let after = api_peers::registered(s, peer, now_ms);
            let known = PeerView { status: PeerStatus::Connected, ..peer };
            &&& list::lookup(after.peers, peer.id) == Some(known)
            &&& list::lookup(after.peers, other) == list::lookup(s.peers, other)
            &&& list::lookup(after.peer_refresh_generations, peer.id) == Some(
                s.next_peer_refresh_generation,
            )
            &&& after.next_peer_refresh_generation != s.next_peer_refresh_generation
            &&& list::lookup(after.peer_agent_cache, peer.id) is None
            &&& list::lookup(after.peer_agent_cache, other) == list::lookup(
                s.peer_agent_cache,
                other,
            )
            &&& after.effects.last() == (EffectView::StartRefresh {
                peer: known,
                generation: s.next_peer_refresh_generation,
            })
            &&& peer.transport is ApiSocket ==> list::lookup(
                after.incoming_peer_deadlines,
                peer.id,
            ) == Some((now_ms + 15_000) as u64)
            &&& peer.transport is Ssh ==> list::lookup(after.incoming_peer_deadlines, peer.id)
                is None
            &&& after.peer_bridges == s.peer_bridges && after.delegated == s.delegated
            &&& after.session_dirty
        }),
{
    let known = PeerView { status: PeerStatus::Connected, ..peer };
    let listed = AppView { peers: list::with(s.peers, peer.id, known), ..s };
    let c = release::refresh_cancelled(listed, peer.id);
    list::lemma_tables_change_one_key(s.peers, peer.id, known, (other, known));
    list::lemma_tables_change_one_key(
        s.peer_refresh_generations,
        peer.id,
        s.next_peer_refresh_generation,
        (other, 0),
    );
    list::lemma_tables_change_one_key(
        c.peer_refresh_generations,
        peer.id,
        s.next_peer_refresh_generation,
        (other, 0),
    );
    list::lemma_tables_change_one_key(
        s.peer_agent_cache,
        peer.id,
        Seq::empty(),
        (other, Seq::empty()),
    );
    list::lemma_tables_change_one_key(
        s.incoming_peer_deadlines,
        peer.id,
        0u64,
        (other, 0),
    );
    list::lemma_tables_change_one_key(
        c.incoming_peer_deadlines,
        peer.id,
        (now_ms + 15_000) as u64,
        (other, 0),
    );
}

/// No connection to the peer is left, nothing is asked of it or known of its agents, and
/// no terminal waits for it.
pub open spec fn cut_off(s: AppView, peer_id: Seq<char>) -> bool {
    &&& forall|i: int| 0 <= i < s.peer_bridges.len() ==> (#[trigger] s.peer_bridges[i]).0 != peer_id
    &&& forall|i: int|
        0 <= i < s.ssh_shell_bridges.len() ==> (#[trigger] s.ssh_shell_bridges[i]).1.peer_id
            != peer_id
    &&& forall|i: int|
        0 <= i < s.ssh_shell_bridge_deadlines.len() ==> (
        #[trigger] s.ssh_shell_bridge_deadlines[i]).0.peer_id != peer_id
    &&& list::lookup(s.peer_refresh_generations, peer_id) is None
    &&& list::lookup(s.peer_refreshes, peer_id) is None
    &&& list::lookup(s.peer_agent_cache, peer_id) is None
    &&& list::lookup(s.incoming_peer_deadlines, peer_id) is None
}

proof fn lemma_cut_off(s: AppView, peer_id: Seq<char>)
    ensures
        cut_off(api_peers::peer_cut_off(s, peer_id), peer_id),
        forall|i: int|
            0 <= i < s.peer_bridges.len() && (#[trigger] s.peer_bridges[i]).0 == peer_id
                ==> api_peers::peer_cut_off(s, peer_id).effects.contains(
                EffectView::StopBridge {
                    bridge: BridgeRefView {
                        peer_id,
                        connection_id: s.peer_bridges[i].1.connection_id,
                    },
                    unregister: true,
                },
            ),
{
    let ids = list::keys_of(s.pending_owner_activations.filter(release::over_peer(peer_id)));
    let c = release::activations_cancelled(s, ids);
    lemma_cancelled(s, ids, peer_id);
    let stopped = api_peers::bridges_stopped(c, peer_id);
    let after = api_peers::peer_cut_off(s, peer_id);
    list::lemma_filtered_holds(c.peer_bridges, list::unkeyed::<BridgeView>(peer_id));
    assert forall|i: int| 0 <= i < after.peer_bridges.len() implies (
    #[trigger] after.peer_bridges[i]).0 != peer_id by {
        assert(list::unkeyed::<BridgeView>(peer_id)(after.peer_bridges[i]));
    }
    list::lemma_filtered_holds(stopped.ssh_shell_bridges, api_peers::not_by_peer(peer_id));
    assert forall|i: int| 0 <= i < after.ssh_shell_bridges.len() implies (
    #[trigger] after.ssh_shell_bridges[i]).1.peer_id != peer_id by {
        assert(api_peers::not_by_peer(peer_id)(after.ssh_shell_bridges[i]));
    }
    list::lemma_filtered_holds(
        stopped.ssh_shell_bridge_deadlines,
        api_peers::deadline_not_by(peer_id),
    );
    assert forall|i: int| 0 <= i < after.ssh_shell_bridge_deadlines.len() implies (
    #[trigger] after.ssh_shell_bridge_deadlines[i]).0.peer_id != peer_id by {
        assert(api_peers::deadline_not_by(peer_id)(after.ssh_shell_bridge_deadlines[i]));
    }
    letting_go::lemma_without_gone(stopped.peer_refresh_generations, peer_id);
    letting_go::lemma_without_gone(stopped.peer_refreshes, peer_id);
    letting_go::lemma_without_gone(stopped.peer_agent_cache, peer_id);
    letting_go::lemma_without_gone(stopped.incoming_peer_deadlines, peer_id);
    let with = api_peers::bridges_with(peer_id);
    let rows = c.peer_bridges.filter(with);
    assert forall|i: int|
        0 <= i < s.peer_bridges.len() && (#[trigger] s.peer_bridges[i]).0
            == peer_id implies after.effects.contains(
        EffectView::StopBridge {
            bridge: BridgeRefView { peer_id, connection_id: s.peer_bridges[i].1.connection_id },
            unregister: true,
        },
    ) by {
        let row = s.peer_bridges[i];
        assert(c.peer_bridges.contains(row));
        list::lemma_filter_contains(c.peer_bridges, with, row);
        let k = rows.index_of(row);
        let stop = api_peers::stops(rows)[k];
        assert(stopped.effects[c.effects.len() + k] == stop);
        assert(after.effects[c.effects.len() + k] == stop);
    }
}

/// A peer that is removed is answered as it was known, and cut off. A peer that is not
/// known is not found; either way connections that were begun before do not count any
/// more.
pub proof fn lemma_removed_peers_are_cut_off(s: AppView, peer_id: Seq<char>, now_ms: u64)
    ensures
        ({
            let (after, r) = api_peers::unregistered(s, peer_id, now_ms);
            match list::lookup(s.peers, peer_id) {
                Some(peer) => r == Ok::<PeerView, Refusal>(peer) && cut_off(after, peer_id)
                    && after.session_dirty,
                None => r is Err && r->Err_0.0 == "peer_not_found"@ && after == (AppView {
                    peer_lifecycle_generations: after.peer_lifecycle_generations,
                    ..s
                }) && api_peers::generation_of(after, peer_id) != api_peers::generation_of(
                    s,
                    peer_id,
                ),
            }
        }),
{
    let next = presentations::next_sequence(api_peers::generation_of(s, peer_id));
    list::lemma_tables_change_one_key(
        s.peer_lifecycle_generations,
        peer_id,
        next,
        (peer_id, next),
    );
    if list::lookup(s.peers, peer_id) is Some {
        let counted = AppView {
            peer_lifecycle_generations: list::with(s.peer_lifecycle_generations, peer_id, next),
            ..s
        };
        let gone = api_peers::peer_terminals_gone(
            api_peers::peer_routes_gone(
                AppView { peers: list::without(s.peers, peer_id), ..counted },
                peer_id,
                now_ms,
            ),
            peer_id,
            now_ms,
        );
        lemma_cut_off(gone, peer_id);
    }
}

// ---------------------------------------------------------------------------
// Connections

/// The connection to a peer that was made last is the last one that is listed.
pub proof fn lemma_latest_connection_is_last(
    bridges: Seq<(Seq<char>, BridgeView)>,
    peer_id: Seq<char>,
)
    ensures
        match release::latest(bridges, peer_id) {
            Some(b) => exists|i: int|
                0 <= i < bridges.len() && #[trigger] bridges[i] == (peer_id, b) && forall|j: int|
                    i < j < bridges.len() ==> (#[trigger] bridges[j]).0 != peer_id,
            None => forall|i: int| 0 <= i < bridges.len() ==> (#[trigger] bridges[i]).0 != peer_id,
        },
    decreases bridges.len(),
{
    if bridges.len() > 0 {
        let n = bridges.len() - 1;
        let front = bridges.drop_last();
        if bridges.last().0 == peer_id {
            assert(bridges[n] == (peer_id, bridges.last().1));
        } else {
            lemma_latest_connection_is_last(front, peer_id);
            match release::latest(front, peer_id) {
                Some(b) => {
                    let i = choose|i: int|
                        0 <= i < front.len() && #[trigger] front[i] == (peer_id, b) && forall|
                            j: int,
                        |
                            i < j < front.len() ==> (#[trigger] front[j]).0 != peer_id;
                    assert(bridges[i] == (peer_id, b));
                    assert forall|j: int| i < j < bridges.len() implies (
                    #[trigger] bridges[j]).0 != peer_id by {
                        if j < n {
                            assert(front[j] == bridges[j]);
                        }
                    }
                },
                None => {
                    assert forall|i: int| 0 <= i < bridges.len() implies (
                    #[trigger] bridges[i]).0 != peer_id by {
                        if i < n {
                            assert(front[i] == bridges[i]);
                        }
                    }
                },
            }
        }
    }
}

/// A connection that came about is kept exactly if it is to the peer that was asked for,
/// this was not removed meanwhile, and the pane that it is for is still there. Then the
/// peer is known, the connection is up and leased, and its pane waits for the terminal
/// that the peer prepared. One that is not kept is closed. What failed is told.
pub proof fn lemma_connections_are_kept_for_their_owner(
    s: AppView,
    peer_id: Seq<char>,
    generation: u64,
    owner: Option<Seq<char>>,
    result: Result<RemoteShellConnect, String>,
    now_ms: u64,
)
    requires
        now_ms + 15_000 <= u64::MAX,
    ensures
        ({
            let (after, r) = api_peers::connect_finished(
                s,
                peer_id,
                generation,
                owner,
                result,
                now_ms,
            );
            let current = match list::lookup(s.peer_lifecycle_generations, peer_id) {
                Some(g) => g,
                None => 0,
            };
            match result {
                Err(e) => r == Err::<ConnectedView, Refusal>(("ssh_peer_connect_failed"@, e@))
                    && after.peer_bridges == s.peer_bridges && after.effects == s.effects,
                Ok(c) => {
                    let c = c@;
                    let b = BridgeRefView { peer_id, connection_id: c.bridge.connection_id };
                    if c.peer.id == peer_id && generation == current && (owner matches Some(t)
                        ==> list::lookup(s.terminals, t) is Some) {
                        &&& r == Ok::<ConnectedView, Refusal>(
                            ConnectedView {
                                peer: c.peer,
                                connection_id: c.bridge.connection_id,
                                attach: c.attach,
                            },
                        )
                        &&& list::lookup(after.peers, peer_id) == Some(c.peer)
                        &&& after.peer_bridges == s.peer_bridges.push((peer_id, c.bridge))
                        &&& after.ssh_shell_bridge_deadlines.contains(
                            (b, (now_ms + 15_000) as u64),
                        )
                        &&& owner matches Some(t) ==> list::lookup(
                            after.pending_owner_activations,
                            c.delegation.delegation_id,
                        ) == Some(
                            ActivationView {
                                terminal_id: t,
                                bridge: b,
                                peer: c.peer,
                                delegation: c.delegation,
                                release_bridge_on_owner_close: true,
                            },
                        )
                    } else {
                        &&& r is Err
                        &&& after.peer_bridges == s.peer_bridges
                        &&& after.effects.contains(
                            EffectView::StopBridge {
                                bridge: b,
                                unregister: release::latest(s.peer_bridges, peer_id) is None
                                    || !s.unix,
                            },
                        )
                        &&& after.pending_owner_activations == s.pending_owner_activations
                    }
                },
            }
        }),
{
    let done = owners::operation_finished(s, owner);
    match owner {
        Some(t) => list::lemma_lookup_reads_the_table(s.terminals, t),
        None => {},
    }
    match result {
        Err(_) => {},
        Ok(c) => {
            let c = c@;
            let b = BridgeRefView { peer_id, connection_id: c.bridge.connection_id };
            if c.peer.id == peer_id && generation == api_peers::generation_of(s, peer_id)
                && !api_peers::owner_is_gone(s, owner) {
                let leased = api_peers::bridge_leased(
                    AppView { peer_bridges: s.peer_bridges.push((c.peer.id, c.bridge)), ..done },
                    b,
                    now_ms,
                );
                let row = (b, (now_ms + 15_000) as u64);
                let n = leased.ssh_shell_bridge_deadlines.len() - 1;
                assert(leased.ssh_shell_bridge_deadlines[n] == row);
                let awaited = match owner {
                    Some(t) => {
                        lemma_terminals_wait_for_one_confirmation(
                            leased,
                            t,
                            c.peer,
                            c.bridge.connection_id,
                            c.delegation,
                            c.attach,
                            true,
                        );
                        owners::waiting(
                            leased,
                            t,
                            c.peer,
                            c.bridge.connection_id,
                            c.delegation,
                            c.attach,
                            true,
                        )
                    },
                    None => leased,
                };
                list::lemma_tables_change_one_key(
                    awaited.peers,
                    peer_id,
                    c.peer,
                    (peer_id, c.peer),
                );
                let after = api_peers::linked(done, c, owner, now_ms);
                assert(after.ssh_shell_bridge_deadlines == leased.ssh_shell_bridge_deadlines);
                assert(after.ssh_shell_bridge_deadlines.contains(row));
            } else {
                let stop = EffectView::StopBridge {
                    bridge: b,
                    unregister: release::latest(s.peer_bridges, peer_id) is None || !s.unix,
                };
                let after = api_peers::bridge_uncommitted(done, b);
                assert(after.effects[s.effects.len() as int] == stop);
            }
        },
    }
}

/// A connection that is closed is stopped, and the others stay. With the last one its peer
/// goes, and is told so. On Unix the one that was made last stands for the peer otherwise.
pub proof fn lemma_closed_connections_leave_the_others(
    s: AppView,
    b: BridgeRefView,
    row: (Seq<char>, BridgeView),
)
    ensures
        ({
            let after = release::bridge_closed(s, b);
            let left = release::latest(after.peer_bridges, b.peer_id);
            &&& after.peer_bridges.contains(row) <==> s.peer_bridges.contains(row) && !(row.0
                == b.peer_id && row.1.connection_id == b.connection_id)
            &&& left is None ==> list::lookup(after.peers, b.peer_id) is None
                && after.effects.contains(EffectView::StopBridge { bridge: b, unregister: true })
            &&& left is Some ==> after.effects.contains(
                EffectView::StopBridge { bridge: b, unregister: false },
            )
            &&& left is Some && s.unix ==> list::lookup(after.peers, b.peer_id) == Some(
                (left->0).peer,
            ) && after.effects.contains(
                EffectView::RegisterBridge(
                    BridgeRefView {
                        peer_id: b.peer_id,
                        connection_id: (left->0).connection_id,
                    },
                ),
            )
            &&& row.0 != b.peer_id && (left is Some ==> (left->0).peer.id == b.peer_id)
                ==> list::lookup(after.peers, row.0) == list::lookup(s.peers, row.0)
        }),
{
    let p = release::not_bridge_at(b);
    let rest = s.peer_bridges.filter(p);
    list::lemma_filter_contains(s.peer_bridges, p, row);
    let after = release::bridge_closed(s, b);
    assert(after.peer_bridges == rest);
    match release::latest(rest, b.peer_id) {
        None => {
            let stop = EffectView::StopBridge { bridge: b, unregister: true };
            assert(s.effects.push(stop)[s.effects.len() as int] == stop);
            assert(after.effects[s.effects.len() as int] == stop);
            letting_go::lemma_without_gone(s.peers, b.peer_id);
            if row.0 != b.peer_id {
                list::lemma_without_keeps(s.peers, b.peer_id, row.0);
            }
        },
        Some(survivor) => {
            let stop = EffectView::StopBridge { bridge: b, unregister: false };
            assert(after.effects[s.effects.len() as int] == stop);
            let register = EffectView::RegisterBridge(
                BridgeRefView { peer_id: b.peer_id, connection_id: survivor.connection_id },
            );
            if s.unix {
                assert(after.effects[s.effects.len() as int + 1] == register);
            }
            list::lemma_tables_change_one_key(
                s.peers,
                b.peer_id,
                survivor.peer,
                (row.0, survivor.peer),
            );
        },
    }
}

/// A pane is found by the id that it is called by: the terminal that another host
/// presents under it, else the terminal of the pane that it names here.
pub proof fn lemma_owners_are_found_by_their_pane(
    s: AppView,
    pane: Seq<char>,
    parsed: Option<(usize, u64)>,
    k: int,
)
    requires
        0 <= k < s.delegated.len() ==> presenting::called(s, s.delegated[k].1, pane) && forall|
            j: int,
        |
            0 <= j < k ==> !presenting::called(s, (#[trigger] s.delegated[j]).1, pane),
        !(0 <= k < s.delegated.len()) ==> forall|j: int|
            0 <= j < s.delegated.len() ==> !presenting::called(
                s,
                (#[trigger] s.delegated[j]).1,
                pane,
            ),
    ensures
        ({
            let r = api_peers::owner_terminal(s, Some(pane), parsed);
            if 0 <= k < s.delegated.len() {
                r == Ok::<Option<Seq<char>>, Refusal>(Some(s.delegated[k].1.moved.terminal_id))
            } else {
                match parsed {
                    None => r is Err && r->Err_0.0 == "invalid_ssh_owner"@,
                    Some((w, p)) => if w < s.workspaces.len() && presentations::pane_in(
                        s.workspaces[w as int],
                        p,
                    ) is Some {
                        r == Ok::<Option<Seq<char>>, Refusal>(
                            Some(presentations::pane_in(s.workspaces[w as int], p)->0.terminal_id),
                        )
                    } else {
                        r is Err && r->Err_0.0 == "invalid_ssh_owner"@
                    },
                }
            }
        }),
        api_peers::owner_terminal(s, None, parsed) == Ok::<Option<Seq<char>>, Refusal>(None),
{
    let p = presentations::publicly(s, pane);
    list::lemma_first(s.delegated, p);
    if 0 <= k < s.delegated.len() {
        assert(p(s.delegated[k]));
        assert forall|j: int| 0 <= j < k implies !p(#[trigger] s.delegated[j]) by {
            assert(!presenting::called(s, s.delegated[j].1, pane));
        }
        resumption::lemma_first_is(s.delegated, p, k);
    } else {
        assert forall|j: int| 0 <= j < s.delegated.len() implies !p(#[trigger] s.delegated[j]) by {
            assert(!presenting::called(s, s.delegated[j].1, pane));
        }
    }
}

/// A connection for a pane that another host presents is for that host, by its way; one
/// for a pane of this host is for this host.
pub proof fn lemma_connections_are_for_who_presents_the_pane(
    s: AppView,
    terminal_id: Option<Seq<char>>,
    pane: Option<Seq<char>>,
    k: int,
)
    requires
        0 <= k < s.delegated.len() ==> Some(s.delegated[k].1.moved.terminal_id) == terminal_id
            && forall|j: int|
            0 <= j < k ==> Some((#[trigger] s.delegated[j]).1.moved.terminal_id) != terminal_id,
        !(0 <= k < s.delegated.len()) ==> forall|j: int|
            0 <= j < s.delegated.len() ==> Some((#[trigger] s.delegated[j]).1.moved.terminal_id)
                != terminal_id,
    ensures
        ({
            let r = api_peers::connect_owner(s, terminal_id, pane);
            if 0 <= k < s.delegated.len() {
                r == Some(s.delegated[k].1.info.owner)
            } else {
                match pane {
                    Some(p) => r == Some(
                        OwnerView {
                            peer_id: s.local_peer_id,
                            pane_id: p,
                            route: seq![s.local_peer_id],
                        },
                    ),
                    None => r is None,
                }
            }
        }),
{
    match terminal_id {
        Some(t) => {
            let p = release::lends(t);
            list::lemma_first(s.delegated, p);
            if 0 <= k < s.delegated.len() {
                assert(p(s.delegated[k]));
                assert forall|j: int| 0 <= j < k implies !p(#[trigger] s.delegated[j]) by {
                    assert(Some(s.delegated[j].1.moved.terminal_id) != terminal_id);
                }
                resumption::lemma_first_is(s.delegated, p, k);
            } else {
                assert forall|j: int| 0 <= j < s.delegated.len() implies !p(
                    #[trigger] s.delegated[j],
                ) by {
                    assert(Some(s.delegated[j].1.moved.terminal_id) != terminal_id);
                }
            }
        },
        None => {},
    }
}

// ---------------------------------------------------------------------------
// The list, and the end

/// Each registered peer is listed as it is known, in the order of their names, and no
/// other.
pub proof fn lemma_peers_are_listed_by_name(s: AppView, i: int)
    requires
        0 <= i < peer_health::peers_listed(s).len(),
    ensures
        peer_health::peers_listed(s).len() == s.peers.len(),
        exists|id: Seq<char>| #[trigger]
            list::lookup(s.peers, id) == Some(peer_health::peers_listed(s)[i]),
        ({
            let ids = sorting::ordered(list::keys_of(s.peers));
            &&& list::lookup(s.peers, ids[i]) == Some(peer_health::peers_listed(s)[i])
            &&& forall|j: int| 0 <= j < i ==> !order::name_lt(ids[i], #[trigger] ids[j])
            &&& forall|id: Seq<char>| #[trigger] ids.contains(id) <==> list::lookup(s.peers, id)
                is Some
        }),
{
    let keys = list::keys_of(s.peers);
    let ids = sorting::ordered(keys);
    sorting::lemma_ordered(keys);
    sorting::lemma_ordered_keeps(keys, ids[i]);
    assert(ids.contains(ids[i]));
    list::lemma_key_present(s.peers, ids[i]);
    list::lemma_lookup_reads_the_table(s.peers, ids[i]);
    assert forall|id: Seq<char>| #[trigger] ids.contains(id) <==> list::lookup(s.peers, id)
        is Some by {
        sorting::lemma_ordered_keeps(keys, id);
        list::lemma_key_present(s.peers, id);
    }
}

/// At the end nothing is shared with any peer, and every connection is closed.
pub proof fn lemma_nothing_is_shared_at_the_end(s: AppView, i: int)
    ensures
        ({
            let after = peer_health::alone(s);
            &&& after.peers.len() == 0 && after.peer_bridges.len() == 0
            &&& after.remote_owner_presentations.len() == 0 && after.remote_owner_peers.len() == 0
            &&& after.remote_terminal_bridges.len() == 0 && after.ssh_shell_bridges.len() == 0
            &&& after.pending_owner_activations.len() == 0 && after.peer_refreshes.len() == 0
            &&& after.peer_agent_cache.len() == 0 && after.remote_mirrors.len() == 0
            &&& after.terminals == s.terminals && after.workspaces == s.workspaces
            &&& 0 <= i < s.peer_bridges.len() ==> after.effects.contains(
                EffectView::StopBridge {
                    bridge: BridgeRefView {
                        peer_id: s.peer_bridges[i].0,
                        connection_id: s.peer_bridges[i].1.connection_id,
                    },
                    unregister: true,
                },
            )
            &&& 0 <= i < s.peer_refreshes.len() ==> after.effects.contains(
                EffectView::CancelRefresh(s.peer_refreshes[i].0),
            )
            &&& 0 <= i < s.remote_mirrors.len() ==> after.effects.contains(
                EffectView::CancelMirror(s.remote_mirrors[i].0),
            )
            &&& 0 <= i < s.pending_owner_activations.len() ==> after.effects.contains(
                EffectView::CancelActivation(s.pending_owner_activations[i].0),
            )
        }),
{
    let after = peer_health::alone(s);
    let a = peer_health::cancelled_activations(list::keys_of(s.pending_owner_activations));
    let r = peer_health::cancelled_refreshes(list::keys_of(s.peer_refreshes));
    let m = peer_health::cancelled_mirrors(list::keys_of(s.remote_mirrors));
    let b = api_peers::stops(s.peer_bridges);
    let n = s.effects.len() as int;
    assert(after.effects == s.effects + a + r + m + b);
    if 0 <= i < b.len() {
        assert(after.effects[n + a.len() + r.len() + m.len() + i] == b[i]);
    }
    if 0 <= i < a.len() {
        assert(after.effects[n + i] == a[i]);
    }
    if 0 <= i < r.len() {
        assert(after.effects[n + a.len() + i] == r[i]);
    }
    if 0 <= i < m.len() {
        assert(after.effects[n + a.len() + r.len() + i] == m[i]);
    }
}

} // verus!
