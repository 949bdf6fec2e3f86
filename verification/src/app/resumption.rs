//! What a record of a remote pane is good for: it leads back to the same terminal of
//! the same host.

use vstd::prelude::*;
use vstd::string::*;

use super::letting_go;
use super::list;
use super::remote_presentations as presentations;
use super::remote_resume::{
    self as resume, HandoffActionView, HandoffPaneView, HandoffRunView, PaneSlot, Reacquired,
    StageView, StartView, StoreChangeView,
};
use super::returning;
use super::{AppView, BridgeRefView, EffectView, TerminalView};
use crate::api::schema::agents::AgentTransportView;
use crate::api::schema::peers::{PeerTransportView, PeerView, RemoteResumeParams};
use crate::remote_resume::{RecordView, ResumeRecord};
use crate::text;

verus! {

// ---------------------------------------------------------------------------
// What is written down

/// The record tells how the peer is reached: the target, the arguments and the session
/// of its own transport.
pub open spec fn reaches(record: RecordView, peer: PeerView) -> bool {
    peer.transport matches PeerTransportView::Ssh { target, ssh_args, session, .. }
        && record.ssh.target == target && record.ssh.ssh_args == ssh_args && record.ssh.session
        == session
}

/// `pane` of the workspace at `i` is where a terminal is shown, the first such place.
pub open spec fn shows_first(
    s: AppView,
    terminal_id: Seq<char>,
    i: int,
    k: int,
) -> bool {
    &&& 0 <= i < s.workspaces.len()
    &&& 0 <= k < s.workspaces[i].panes.len()
    &&& s.workspaces[i].panes[k].terminal_id == terminal_id
    &&& forall|j: int|
        0 <= j < k ==> (#[trigger] s.workspaces[i].panes[j]).terminal_id != terminal_id
    &&& forall|h: int, j: int|
        0 <= h < i && 0 <= j < s.workspaces[h].panes.len() ==> (
        #[trigger] s.workspaces[h].panes[j]).terminal_id != terminal_id
}

pub(crate) proof fn lemma_first_is<W>(s: Seq<W>, p: spec_fn(W) -> bool, k: int)
    requires
        0 <= k < s.len(),
        p(s[k]),
        forall|j: int| 0 <= j < k ==> !p(#[trigger] s[j]),
    ensures
        list::first(s, p) == Some(s[k]),
{
    list::lemma_first_comes_first(s, p);
    list::lemma_first(s, p);
    let w = list::first(s, p)->0;
    let i = choose|i: int|
        0 <= i < s.len() && #[trigger] s[i] == w && p(w) && forall|j: int|
            0 <= j < i ==> !p(#[trigger] s[j]);
    if i < k {
        assert(!p(s[i]));
    } else if k < i {
        assert(!p(s[k]));
    }
}

proof fn lemma_placement(s: AppView, terminal_id: Seq<char>, i: int, k: int)
    requires
        shows_first(s, terminal_id, i, k),
    ensures
        ({
            let w = s.workspaces[i];
            let p = w.panes[k];
            let placed = resume::placement_of(s, terminal_id);
            if p.tab < w.tabs.len() && w.tabs[p.tab as int].public_tab_id is Some {
                &&& placed is Some
                &&& placed->0.workspace_id == w.id
                &&& Some(placed->0.public_tab_id) == w.tabs[p.tab as int].public_tab_id
                &&& placed->0.public_pane_id == p.public_pane_id
            } else {
                placed is None
            }
        }),
{
    let w = s.workspaces[i];
    let attached = presentations::pane_attached(terminal_id);
    let holds = presentations::holds_terminal(terminal_id);
    lemma_first_is(w.panes, attached, k);
    assert(holds(w));
    assert forall|h: int| 0 <= h < i implies !holds(#[trigger] s.workspaces[h]) by {
        let panes = s.workspaces[h].panes;
        list::lemma_first(panes, attached);
        assert forall|j: int| 0 <= j < panes.len() implies !attached(#[trigger] panes[j]) by {
            assert(s.workspaces[h].panes[j].terminal_id != terminal_id);
        }
    }
    lemma_first_is(s.workspaces, holds, i);
}

/// The record of a pane leads back to the terminal that the pane shows: on the peer
/// that it is shown from, reached the way that this peer is reached.
pub proof fn lemma_records_lead_back_to_their_peer(
    s: AppView,
    terminal_id: Seq<char>,
    peer_id: Seq<char>,
    peer: PeerView,
    schema: u32,
    unix_ms: u64,
    record: RecordView,
)
    requires
        resume::record_for(s, terminal_id, peer_id, peer, schema, unix_ms) == Some(record),
    ensures
        reaches(record, peer),
        record.peer_id == peer_id,
        list::lookup(s.remote_owner_presentations, terminal_id) matches Some(d)
            && record.remote_terminal_id == d.terminal_id && record.remote_pane_id == d.pane_id,
        record.schema == schema,
        record.handed_off_at_unix_ms == unix_ms,
        record.last_error is None,
        list::lookup(s.terminals, terminal_id) matches Some(t) ==> (record.agent matches Some(a) && {
            &&& t.agent_name is Some ==> a.name == t.agent_name
            &&& t.agent_name is None ==> a.name == t.manual_label
            &&& t.remote_agent_transport matches Some(
                AgentTransportView::Ssh { remote_agent, remote_cwd, .. },
            ) ==> a.agent == remote_agent && a.cwd == remote_cwd
        }),
{
}

/// A pane has a record wherever its peer is reached over SSH, it shows a terminal of a
/// peer, and it has a place that can be found again. The record tells this place.
pub proof fn lemma_records_are_made_of_what_can_be_found_again(
    s: AppView,
    terminal_id: Seq<char>,
    peer_id: Seq<char>,
    peer: PeerView,
    schema: u32,
    unix_ms: u64,
    i: int,
    k: int,
)
    requires
        shows_first(s, terminal_id, i, k),
    ensures
        ({
            let w = s.workspaces[i];
            let p = w.panes[k];
            let r = resume::record_for(s, terminal_id, peer_id, peer, schema, unix_ms);
            &&& r is Some <==> peer.transport is Ssh && list::present(
                s.remote_owner_presentations,
                terminal_id,
            ) && p.tab < w.tabs.len() && w.tabs[p.tab as int].public_tab_id is Some
            &&& r matches Some(record) ==> record.placement.workspace_id == w.id && Some(
                record.placement.public_tab_id,
            ) == w.tabs[p.tab as int].public_tab_id && record.placement.public_pane_id
                == p.public_pane_id
        }),
{
    lemma_placement(s, terminal_id, i, k);
}

/// The peer that a terminal shows a remote one over is that of its connection, where it
/// has one of its own, that of its shell's connection otherwise, and otherwise the peer
/// that it is known to be of.
pub proof fn lemma_panes_are_linked_by_their_connection(s: AppView, terminal_id: Seq<char>)
    ensures
        ({
            let r = resume::link_of(s, terminal_id);
            &&& list::lookup(s.remote_terminal_bridges, terminal_id) matches Some(b) ==> r == Some(
                b.peer_id,
            )
            &&& list::lookup(s.remote_terminal_bridges, terminal_id) is None ==> (list::lookup(
                s.ssh_shell_bridges,
                terminal_id,
            ) matches Some(b) ==> r == Some(b.peer_id))
            &&& list::lookup(s.remote_terminal_bridges, terminal_id) is None && list::lookup(
                s.ssh_shell_bridges,
                terminal_id,
            ) is None ==> r == list::lookup(s.remote_owner_peers, terminal_id)
        }),
{
}

/// The terminal of `pane` is to be handed back to `pane.peer`, under what it is shown
/// by, and the record that is written says so.
pub open spec fn consistent(s: AppView, record: RecordView, pane: HandoffPaneView) -> bool {
    &&& list::lookup(s.remote_owner_presentations, pane.terminal_id) == Some(pane.delegation)
    &&& list::lookup(s.peers, record.peer_id) == Some(pane.peer)
    &&& resume::link_of(s, pane.terminal_id) == Some(record.peer_id)
    &&& reaches(record, pane.peer)
    &&& record.remote_terminal_id == pane.delegation.terminal_id
    &&& record.remote_pane_id == pane.delegation.pane_id
    &&& pane.remote_terminal_id == pane.delegation.terminal_id
}

proof fn lemma_returnable(s: AppView, terminal_id: Seq<char>, schema: u32, unix_ms: u64)
    ensures
        resume::returnable(s, terminal_id, schema, unix_ms) matches Some((record, pane))
            ==> consistent(s, record, pane) && pane.terminal_id == terminal_id
            && record.handed_off_at_unix_ms == unix_ms && record.schema == schema,
{
}

/// What is written down before a pane is handed back is the record of a pane whose turn
/// it is: it names the terminal that the pane shows, and its peer the way it is reached.
/// A run that has nothing to write is over, and tells how many panes went before.
pub proof fn lemma_runs_write_down_what_they_hand_back(
    s: AppView,
    rest: Seq<Seq<char>>,
    handed_off: usize,
    held: Seq<BridgeRefView>,
    schema: u32,
    unix_ms: u64,
)
    ensures
        ({
            let (run, action) = resume::next_pane(s, rest, handed_off, held, schema, unix_ms);
            &&& run.handed_off == handed_off
            &&& match action {
                HandoffActionView::Persist(record) => run.stage matches StageView::Persisting(
                    pane,
                ) && consistent(s, record, pane) && rest.contains(pane.terminal_id),
                HandoffActionView::Done(n) => n == handed_off && run.stage is Over,
                _ => false,
            }
        }),
    decreases rest.len(),
{
    if rest.len() > 0 {
        lemma_returnable(s, rest[0], schema, unix_ms);
        lemma_runs_write_down_what_they_hand_back(
            s,
            rest.skip(1),
            handed_off,
            held,
            schema,
            unix_ms,
        );
        let (run, action) = resume::next_pane(
            s,
            rest.skip(1),
            handed_off,
            held,
            schema,
            unix_ms,
        );
        match run.stage {
            StageView::Persisting(pane) => if rest.skip(1).contains(pane.terminal_id) {
                let j = rest.skip(1).index_of(pane.terminal_id);
                assert(rest[j + 1] == pane.terminal_id);
            },
            _ => {},
        }
        assert(rest.contains(rest[0]));
    }
}

/// A pane whose record was written is handed to the peer that the record leads to, as
/// what it is shown by. Where that fails, its record is the one that goes.
pub proof fn lemma_panes_go_where_their_record_says(
    s: AppView,
    run: HandoffRunView,
    record: RecordView,
    pane: HandoffPaneView,
    schema: u32,
    unix_ms: u64,
    now_ms: u64,
)
    requires
        run.stage == StageView::Persisting(pane),
        consistent(s, record, pane),
    ensures
        ({
            let (after, next, action) = resume::handoff_follows(
                s,
                run,
                true,
                schema,
                unix_ms,
                now_ms,
            );
            &&& after == s
            &&& next.handed_off == run.handed_off
            &&& action matches HandoffActionView::HandOff { peer, delegation } && reaches(
                record,
                peer,
            ) && list::lookup(s.peers, record.peer_id) == Some(peer) && list::lookup(
                s.remote_owner_presentations,
                pane.terminal_id,
            ) == Some(delegation) && delegation.terminal_id == record.remote_terminal_id
            &&& resume::handoff_follows(s, next, false, schema, unix_ms, now_ms).2
                == HandoffActionView::Forget(record.remote_terminal_id)
            &&& resume::handoff_follows(s, run, false, schema, unix_ms, now_ms).2
                == HandoffActionView::Forget(record.remote_terminal_id)
        }),
{
}

/// A pane that lives on its host again is closed here: its terminal is known no more, its
/// process is ended, and the pane goes.
pub proof fn lemma_handed_back_panes_close(
    s: AppView,
    terminal_id: Seq<char>,
    held: Seq<BridgeRefView>,
    now_ms: u64,
)
    ensures
        ({
            let after = resume::given_back(s, terminal_id, held, now_ms).0;
            &&& list::lookup(after.terminals, terminal_id) is None
            &&& list::lookup(after.runtimes, terminal_id) is None
            &&& presentations::pane_showing(after.workspaces, terminal_id) matches Some(pane)
                ==> after.effects.len() > 0 && after.effects.last() == EffectView::PaneDied(
                pane.pane_id,
            )
        }),
{
    reveal(resume::given_back);
    let (released, kept) = returning::let_go(s, terminal_id, held, now_ms);
    letting_go::lemma_without_gone(released.terminals, terminal_id);
    letting_go::lemma_without_gone(released.runtimes, terminal_id);
}

// ---------------------------------------------------------------------------
// Getting panes again

/// A request is about the records that it names: those of one peer, or all.
pub proof fn lemma_requests_are_about_the_records_they_name(
    p: RemoteResumeParams,
    stored: Seq<ResumeRecord>,
    record: ResumeRecord,
)
    ensures
        resume::requested(p, stored).contains(record) <==> stored.contains(record) && (
        p.peer_id matches Some(peer_id) ==> record.peer_id@ == peer_id@),
        p.peer_id is None ==> resume::requested(p, stored) == stored,
{
    match p.peer_id {
        Some(peer_id) => {
            list::lemma_filter_contains(
                stored,
                |r: ResumeRecord| r.peer_id@ == peer_id@,
                record,
            );
        },
        None => {},
    }
}

/// Panes are got again unless the records cannot be read, there is none that the request
/// is about, or one connection is to serve for records of two peers.
pub proof fn lemma_resume_is_refused_only_for_cause(
    p: RemoteResumeParams,
    stored: Result<Vec<ResumeRecord>, String>,
)
    ensures
        resume::resume_objection(p, stored) is None <==> stored is Ok && (exists|i: int|
            0 <= i < (stored->Ok_0)@.len() && (p.peer_id matches Some(peer_id) ==> (
            #[trigger] (stored->Ok_0)@[i]).peer_id@ == peer_id@)) && (p.managed_control_path
            is Some && p.peer_id is None ==> forall|i: int, j: int|
            0 <= i < j < (stored->Ok_0)@.len() ==> (#[trigger] (stored->Ok_0)@[i]).peer_id@ == (
            #[trigger] (stored->Ok_0)@[j]).peer_id@),
{
    match stored {
        Ok(stored) => {
            let all = stored@;
            let wanted = resume::requested(p, all);
            match p.peer_id {
                Some(peer_id) => {
                    let mine = |r: ResumeRecord| r.peer_id@ == peer_id@;
                    list::lemma_filtered_holds(all, mine);
                    if exists|i: int| 0 <= i < all.len() && (#[trigger] all[i]).peer_id@ == peer_id@ {
                        let i = choose|i: int|
                            0 <= i < all.len() && (#[trigger] all[i]).peer_id@ == peer_id@;
                        list::lemma_filter_contains(all, mine, all[i]);
                        assert(wanted.contains(all[i]));
                    }
                    if wanted.len() > 0 {
                        assert(mine(wanted[0]));
                        list::lemma_filter_contains(all, mine, wanted[0]);
                        assert(wanted.contains(wanted[0]));
                        let i = all.index_of(wanted[0]);
                        assert(all[i].peer_id@ == peer_id@);
                        assert forall|j: int| 0 <= j < wanted.len() implies (
                        #[trigger] wanted[j]).peer_id@ == wanted[0].peer_id@ by {
                            assert(mine(wanted[j]));
                        }
                    }
                },
                None => {
                    if all.len() > 0 {
                        assert(all[0].peer_id@ == all[0].peer_id@);
                        if resume::other_peer(all, all[0].peer_id@) {
                            let i = choose|i: int|
                                0 <= i < all.len() && (#[trigger] all[i]).peer_id@
                                    != all[0].peer_id@;
                            assert(0 < i);
                        } else {
                            assert forall|i: int, j: int| 0 <= i < j < all.len() implies (
                            #[trigger] all[i]).peer_id@ == (#[trigger] all[j]).peer_id@ by {
                                assert(all[i].peer_id@ == all[0].peer_id@);
                                assert(all[j].peer_id@ == all[0].peer_id@);
                            }
                        }
                    }
                },
            }
        },
        Err(_) => {},
    }
}

/// A remote terminal that was claimed again is shown by the terminal of the pane that was
/// opened for it: under the delegation that was claimed, over the connection that was
/// made, by the name that it had. Its mirror is started. The other terminals stay as
/// they were.
pub proof fn lemma_panes_show_what_was_claimed_again(
    s: AppView,
    record: RecordView,
    r: StartView,
    ws_idx: usize,
    pane_id: u64,
    k: int,
    t: TerminalView,
    other: Seq<char>,
)
    requires
        ws_idx < s.workspaces.len(),
        0 <= k < s.workspaces[ws_idx as int].panes.len(),
        s.workspaces[ws_idx as int].panes[k].pane_id == pane_id,
        forall|j: int|
            0 <= j < k ==> (#[trigger] s.workspaces[ws_idx as int].panes[j]).pane_id != pane_id,
        list::lookup(s.terminals, s.workspaces[ws_idx as int].panes[k].terminal_id) == Some(t),
    ensures
        ({
            let id = s.workspaces[ws_idx as int].panes[k].terminal_id;
            let (after, told) = resume::placed(s, record, r, Ok((ws_idx, pane_id)));
            &&& told is Ok
            &&& list::lookup(after.remote_owner_presentations, id) == Some(r.delegation)
            &&& list::lookup(after.terminals, id) is Some
            &&& ({
                let shown = list::lookup(after.terminals, id)->0;
                &&& shown.remote_agent_transport == Some(r.transport)
                &&& record.agent is Some && (record.agent->0).name is Some ==> shown.agent_name
                    == (record.agent->0).name && shown.manual_label == (record.agent->0).name
                &&& record.agent is None || (record.agent->0).name is None ==> shown.agent_name
                    == t.agent_name && shown.manual_label == t.manual_label
                &&& shown.cwd == t.cwd
            })
            &&& r.peer is Some && r.bridge is Some ==> list::lookup(
                after.remote_terminal_bridges,
                id,
            ) == Some(
                BridgeRefView {
                    peer_id: (r.peer->0).id,
                    connection_id: (r.bridge->0).connection_id,
                },
            ) && resume::link_of(after, id) == Some((r.peer->0).id) && after.peer_bridges.contains(
                ((r.peer->0).id, r.bridge->0),
            )
            &&& after.effects.contains(
                EffectView::StartMirror { terminal_id: id, pane_id, transport: r.transport },
            )
            &&& after.effects.contains(
                EffectView::ReportAgent { pane_id, agent: r.agent, transport: r.transport },
            )
            &&& list::present(after.remote_mirrors, id)
            &&& after.workspaces == s.workspaces
            &&& other != id ==> list::lookup(after.terminals, other) == list::lookup(
                s.terminals,
                other,
            ) && list::lookup(after.remote_owner_presentations, other) == list::lookup(
                s.remote_owner_presentations,
                other,
            )
        }),
{
    let w = s.workspaces[ws_idx as int];
    let id = w.panes[k].terminal_id;
    let p = presentations::pane_numbered(pane_id);
    assert forall|j: int| 0 <= j < k implies !p(#[trigger] w.panes[j]) by {
        assert(s.workspaces[ws_idx as int].panes[j].pane_id != pane_id);
    }
    lemma_first_is(w.panes, p, k);
    list::lemma_lookup_reads_the_table(s.terminals, id);
    let shown = TerminalView {
        remote_agent_transport: Some(r.transport),
        ..resume::named_as(t, record)
    };
    list::lemma_tables_change_one_key(s.terminals, id, shown, (other, t));
    list::lemma_tables_change_one_key(
        s.remote_owner_presentations,
        id,
        r.delegation,
        (other, r.delegation),
    );
    let after = resume::placed(s, record, r, Ok((ws_idx, pane_id))).0;
    let again = resume::shown_again(s, id, pane_id, record, r);
    let owned = AppView {
        terminals: list::with(s.terminals, id, shown),
        remote_owner_presentations: list::with(s.remote_owner_presentations, id, r.delegation),
        ..s
    };
    let linked = resume::connected_for(owned, id, r);
    match (r.peer, r.bridge) {
        (Some(peer), Some(bridge)) => {
            let link = BridgeRefView { peer_id: peer.id, connection_id: bridge.connection_id };
            list::lemma_tables_change_one_key(
                s.remote_terminal_bridges,
                id,
                link,
                (other, link),
            );
            let row = (peer.id, bridge);
            assert(s.peer_bridges.push(row)[s.peer_bridges.len() as int] == row);
        },
        _ => {},
    }
    list::lemma_tables_change_one_key(linked.remote_mirrors, id, (), (other, ()));
    list::lemma_lookup_reads_the_table(again.remote_mirrors, id);
    let n = linked.effects.len() as int;
    assert(again.effects[n] == EffectView::ReportAgent {
        pane_id,
        agent: r.agent,
        transport: r.transport,
    });
    assert(again.effects[n + 1] == EffectView::StartMirror {
        terminal_id: id,
        pane_id,
        transport: r.transport,
    });
    assert(after.effects[n] == again.effects[n]);
    assert(after.effects[n + 1] == again.effects[n + 1]);
    let rows = again.remote_mirrors;
    assert(list::lookup(rows, id) == Some(()));
}

/// Where no pane was opened, or its terminal is gone, nothing changes and the reason is
/// told.
pub proof fn lemma_panes_that_did_not_open_change_nothing(
    s: AppView,
    record: RecordView,
    r: StartView,
    opened: Result<(usize, u64), String>,
)
    ensures
        opened matches Err(err) ==> resume::placed(s, record, r, opened) == (
            s,
            Err::<(), Seq<char>>(err@),
        ),
        resume::placed(s, record, r, opened).1 is Err ==> resume::placed(s, record, r, opened).0
            == s,
{
}

/// The pane of a record opens beside the pane in focus: of its own tab, where that is
/// still there, of the active one otherwise. Where there is no workspace it gets a new
/// one.
pub proof fn lemma_panes_open_beside_the_focus(s: AppView, tab: Option<(usize, usize)>)
    ensures
        tab matches Some((w, t)) ==> resume::slot_for(s, tab) == (PaneSlot::BesidePane {
            ws_idx: w,
            pane_id: s.workspaces[w as int].tabs[t as int].focused,
        }),
        tab is None && s.workspaces.len() == 0 ==> resume::slot_for(s, tab)
            == PaneSlot::NewWorkspace,
        tab is None && s.workspaces.len() > 0 ==> ({
            let w = match s.active {
                Some(i) => i,
                None => 0,
            };
            resume::slot_for(s, tab) == (PaneSlot::BesidePane {
                ws_idx: w,
                pane_id: s.workspaces[w as int].tabs[
                    s.workspaces[w as int].active_tab as int
                ].focused,
            })
        }),
{
}

/// What becomes of a record is told of its own terminal: it goes once its pane is shown,
/// or its host does not find it; else it keeps the very error that is told.
pub proof fn lemma_records_keep_their_own_error(record: RecordView, ended: Reacquired)
    ensures
        match resume::change_for(record, ended) {
            StoreChangeView::Remove(t) => t == record.remote_terminal_id && (
            resume::error_of(ended) matches Some(e) ==> text::has_substring(e, "not found"@)),
            StoreChangeView::SetLastError { remote_terminal_id, error } => remote_terminal_id
                == record.remote_terminal_id && resume::error_of(ended) == Some(error),
        },
        match ended {
            Reacquired::Claimed { shown: Ok(()) } => resume::error_of(ended) is None
                && resume::change_for(record, ended) is Remove,
            Reacquired::Claimed { shown: Err(e) } => resume::error_of(ended) == Some(e@)
                && resume::change_for(record, ended) is SetLastError,
            Reacquired::Failed(e) => resume::error_of(ended) == Some(e@) && (resume::change_for(
                record,
                ended,
            ) is Remove <==> text::has_substring(e@, "not found"@)),
        },
{
}

} // verus!
