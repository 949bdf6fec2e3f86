//! What clients and peers can rely on in what this server answers.

use vstd::prelude::*;
use vstd::string::*;

use super::local_agents::{self, AgentStep, PaneText, ReadPane};
use super::peer_health as health;
use super::peers as api_peers;
use super::remote_presentations::{self as parked, ParkedOperation, ParkedOutcome, ParkedReply};
use crate::api::schema::agents::{AgentInfo, AgentReadParams, AgentStartParams, AgentView};
use crate::api::schema::common::{
    ErrorBody, Method, PaneReadResult, ReadFormat, ReadSource, Request,
};
use crate::api::schema::peers::TerminalParkedResolveAction;
use crate::app::handoff;
use crate::app::letting_go;
use crate::app::list::{self, List};
use crate::app::owners;
use crate::app::owning;
use crate::app::peer_agents::{self, LocalTarget, RouteView};
use crate::app::remote_presentations::Refusal;
use crate::app::{AppView, BridgeRefView, BridgeView};
use crate::json::{self, Json};
use crate::text;

verus! {

// ---------------------------------------------------------------------------
// Requests of clients

/// A request to start an agent is answered here exactly if it names no peer. Any other
/// request about an agent goes where the agent is, and is refused exactly if there is none.
pub proof fn lemma_requests_are_answered_where_the_agent_is(
    s: AppView,
    method: Method,
    local: LocalTarget,
    locals: Seq<AgentView>,
    r: Result<AgentStep, ErrorBody>,
)
    requires
        local_agents::follows_route(
            r,
            local_agents::answered_by(s, method, local, locals),
            method,
            s,
        ),
    ensures
        method is AgentStart && (method->AgentStart_0).peer is None <==> r is Ok && r->Ok_0
            is StartHere,
        method is AgentStart && (method->AgentStart_0).peer is Some ==> !(r is Ok && r->Ok_0
            is Here),
        method is AgentGet ==> match peer_agents::route_of(
            s,
            (method->AgentGet_0).target@,
            local,
            locals,
        ) {
            Ok(RouteView::Local(t)) => r is Ok && r->Ok_0 == AgentStep::Here(t),
            Ok(RouteView::Peer { peer, target }) => r is Ok && r->Ok_0 is Forward && (
            r->Ok_0->peer)@ == peer,
            Err(e) => r is Err && (r->Err_0)@ == e,
        },
        method is AgentSend ==> match peer_agents::route_of(
            s,
            (method->AgentSend_0).target@,
            local,
            locals,
        ) {
            Ok(RouteView::Local(t)) => r is Ok && r->Ok_0 == AgentStep::Here(t),
            Ok(RouteView::Peer { peer, target }) => r is Ok && r->Ok_0 is Forward && (
            r->Ok_0->peer)@ == peer,
            Err(e) => r is Err && (r->Err_0)@ == e,
        },
{
}

// ---------------------------------------------------------------------------
// Requests of peers

/// A peer learns of every agent here, in order, each under its own terminal and name; and of
/// none where it is or what it was started in.
pub proof fn lemma_peers_learn_of_every_agent(agents: Seq<AgentView>, i: int)
    requires
        0 <= i < agents.len(),
    ensures
        ({
            let shown = local_agents::projected_all(agents);
            &&& shown.len() == agents.len()
            &&& shown[i].terminal_id == agents[i].terminal_id && shown[i].name == agents[i].name
            &&& shown[i].agent == agents[i].agent && shown[i].agent_status
                == agents[i].agent_status
            &&& shown[i].transport is None && shown[i].attach is None && shown[i].cwd is None
            &&& shown[i].foreground_cwd is None && shown[i].agent_session is None
        }),
{
}

/// A peer that asks for one agent is told of the one that it may present, if there is one,
/// and else of the one here; and is refused exactly if there is neither.
pub proof fn lemma_peers_learn_of_the_agent_they_name(
    s: AppView,
    target: Seq<char>,
    here: Result<Option<AgentInfo>, ErrorBody>,
)
    ensures
        ({
            let told = local_agents::agent_for_peer(s, target, here);
            let presented = handoff::delegated_agent_named(s, target);
            &&& presented is Some ==> told is Ok && (told->Ok_0).terminal_id == (
            presented->0).terminal_id
            &&& presented is None && here is Ok && here->Ok_0 is Some ==> told is Ok && (
            told->Ok_0).terminal_id == ((here->Ok_0)->0)@.terminal_id && (told->Ok_0).name == ((
            here->Ok_0)->0)@.name
            &&& told is Err <==> presented is None && !(here is Ok && here->Ok_0 is Some)
            &&& told is Ok ==> (told->Ok_0).transport is None && (told->Ok_0).attach is None && (
            told->Ok_0).cwd is None && (told->Ok_0).agent_session is None
            &&& here is Err && presented is None ==> told == Err::<AgentView, Refusal>(
                (here->Err_0)@,
            )
        }),
{
}

/// A peer may start an agent here exactly if it asks for one of this server, without a way
/// of its own to reach it and without taking the focus.
pub proof fn lemma_peers_start_agents_of_this_server(p: AgentStartParams)
    ensures
        local_agents::start_for_peer_objection(p) is None <==> p.peer is None && p.transport is None
            && !p.focus,
{
}

/// A read takes eighty lines where it says nothing, and never more than a thousand. What is
/// on the screen, or what detection sees, takes no count of lines; detection has no colours.
pub proof fn lemma_reads_take_what_they_ask_for(p: AgentReadParams)
    ensures
        ({
            let n = if p.lines is None {
                80nat
            } else if p.lines->0 <= 1000 {
                (p.lines->0) as nat
            } else {
                1000
            };
            let t = local_agents::text_read(p);
            &&& local_agents::lines_read(p.lines) == n
            &&& p.source == ReadSource::Recent ==> t == if p.format == ReadFormat::Ansi {
                PaneText::RecentAnsi(n as usize)
            } else {
                PaneText::RecentText(n as usize)
            }
            &&& p.source == ReadSource::RecentUnwrapped ==> t == if p.format == ReadFormat::Ansi {
                PaneText::RecentUnwrappedAnsi(n as usize)
            } else {
                PaneText::RecentUnwrappedText(n as usize)
            }
            &&& p.source == ReadSource::Visible ==> t == if p.format == ReadFormat::Ansi {
                PaneText::VisibleAnsi
            } else {
                PaneText::VisibleText
            }
            &&& p.source == ReadSource::Detection <==> t == PaneText::DetectionText
        }),
{
}

/// What a peer reads is the text of the pane, under the pane's public name where it has one.
pub proof fn lemma_reads_show_the_pane(r: PaneReadResult, p: AgentReadParams, pane: ReadPane)
    requires
        local_agents::is_read(r, p, pane),
    ensures
        r.text@ == pane.text@,
        r.workspace_id@ == pane.workspace_id@,
        r.tab_id@ == pane.tab_id@,
        pane.public_pane_id is Some ==> r.pane_id@ == (pane.public_pane_id->0)@,
        pane.public_pane_id is None ==> r.pane_id@ == p.target@,
        r.source == p.source && r.format == p.format && !r.truncated,
{
}

/// A reply that is an error lists no agents; one that is none lists all that it holds.
pub proof fn lemma_errors_list_no_agents(
    result: Result<Json, String>,
    listed: Result<List<AgentInfo>, String>,
)
    ensures
        peer_agents::agents_reported(result, listed) is Ok <==> result is Ok && !json::has(
            result->Ok_0,
            "error"@,
        ) && listed is Ok,
        peer_agents::agents_reported(result, listed) is Ok ==> peer_agents::agents_reported(
            result,
            listed,
        )->Ok_0 == (listed->Ok_0)@,
{
}

// ---------------------------------------------------------------------------
// Terminals that are parked

/// A parked terminal is ended only where that was asked for, and kept only where that was. It
/// is told as resumed exactly if it was promoted for an owner, with its agent. What went
/// wrong is told as it was.
pub proof fn lemma_parked_terminals_are_treated_as_asked(
    action: TerminalParkedResolveAction,
    to_owner: bool,
    r: Result<ParkedReply, ErrorBody>,
    outcome: ParkedOutcome,
    agent: Option<AgentInfo>,
)
    requires
        parked::resolves(r, outcome, to_owner, agent),
    ensures
        parked::operation_for(action, to_owner) is Terminate <==> action
            is Terminate,
        parked::operation_for(action, to_owner) is Retain <==> action is Retain,
        action is Promote ==> parked::operation_for(action, to_owner) == (
        ParkedOperation::Promote { to_owner }),
        match outcome {
            ParkedOutcome::Retained(kept) => r is Ok <==> kept is Ok,
            ParkedOutcome::Terminated(ended) => r is Ok <==> ended is Ok,
            ParkedOutcome::Promoted(promoted) => r is Ok <==> promoted is Ok,
        },
        outcome is Terminated && r is Ok ==> r->Ok_0 is Done,
        outcome is Promoted && r is Ok ==> (r->Ok_0 is Resumed <==> to_owner),
        outcome is Promoted && r is Ok && to_owner ==> (r->Ok_0->Resumed_0).agent == agent,
        outcome is Retained && r is Err ==> r->Err_0 == (outcome->Retained_0)->Err_0,
        outcome is Terminated && r is Err ==> r->Err_0 == (outcome->Terminated_0)->Err_0,
        outcome is Promoted && r is Err ==> r->Err_0 == (outcome->Promoted_0)->Err_0,
{
}

/// An administrator is let through exactly if the platform knows administrators and the
/// token that was given is the right one.
pub proof fn lemma_administrators_know_the_token(unix: bool, token: Result<bool, String>)
    ensures
        parked::admin_objection(unix, token) is None <==> unix && token == Ok::<bool, String>(true),
{
}

// ---------------------------------------------------------------------------
// Peers and connections

/// A peer is asked for this server by the name that it has for it over the connection that
/// was made last.
pub proof fn lemma_peers_are_asked_by_their_own_name(
    s: AppView,
    peer_id: Seq<char>,
    r: Request,
)
    requires
        health::asks_health(r, health::name_at_peer(s, peer_id)),
    ensures
        health::name_at_peer(s, peer_id) matches Some(name) ==> exists|i: int|
            0 <= i < s.peer_bridges.len() && (#[trigger] s.peer_bridges[i]).0 == peer_id
                && s.peer_bridges[i].1.remote_peer_id == Some(name) && forall|j: int|
                i < j < s.peer_bridges.len() ==> (#[trigger] s.peer_bridges[j]).0 != peer_id,
        r.method is PeerHealth <==> health::name_at_peer(s, peer_id) is Some,
        r.method is PeerHealth ==> Some((r.method->PeerHealth_0).peer_id@) == health::name_at_peer(
            s,
            peer_id,
        ),
{
    owning::lemma_latest_connection_is_last(s.peer_bridges, peer_id);
}

/// Over the connection to a peer that was made last this server is known by the name that
/// the peer gave it; a peer that has no connection, or gave no name, is only asked whether
/// it is there.
pub proof fn lemma_names_come_from_the_latest_connection(s: AppView, peer_id: Seq<char>, i: int)
    ensures
        0 <= i < s.peer_bridges.len() && s.peer_bridges[i].0 == peer_id && (forall|j: int|
            i < j < s.peer_bridges.len() ==> (#[trigger] s.peer_bridges[j]).0 != peer_id)
            ==> health::name_at_peer(s, peer_id) == s.peer_bridges[i].1.remote_peer_id,
        (forall|j: int| 0 <= j < s.peer_bridges.len() ==> (#[trigger] s.peer_bridges[j]).0 != peer_id)
            ==> health::name_at_peer(s, peer_id) is None,
{
    owning::lemma_latest_connection_is_last(s.peer_bridges, peer_id);
}

/// A peer that connected to this server is due exactly if its lease has run out, and so is
/// a connection that a shell keeps.
pub proof fn lemma_leases_are_due_once_they_run_out(
    s: AppView,
    now_ms: u64,
    peer_id: Seq<char>,
    b: BridgeRefView,
)
    ensures
        health::incoming_due(s, now_ms).contains(peer_id) <==> exists|i: int|
            0 <= i < s.incoming_peer_deadlines.len() && (#[trigger] s.incoming_peer_deadlines[i]).0
                == peer_id && s.incoming_peer_deadlines[i].1 <= now_ms,
        health::bridges_due(s, now_ms).contains(b) <==> exists|i: int|
            0 <= i < s.ssh_shell_bridge_deadlines.len() && (
            #[trigger] s.ssh_shell_bridge_deadlines[i]).0 == b && s.ssh_shell_bridge_deadlines[i].1
                <= now_ms,
{
    let rows = s.incoming_peer_deadlines;
    let late = rows.filter(owners::lapsed(now_ms));
    if health::incoming_due(s, now_ms).contains(peer_id) {
        let k = health::incoming_due(s, now_ms).index_of(peer_id);
        list::lemma_filter_contains(rows, owners::lapsed(now_ms), late[k]);
        assert(late.contains(late[k]));
        let i = rows.index_of(late[k]);
        assert(rows[i].0 == peer_id);
    }
    if exists|i: int|
        0 <= i < rows.len() && (#[trigger] rows[i]).0 == peer_id && rows[i].1 <= now_ms {
        let i = choose|i: int|
            0 <= i < rows.len() && (#[trigger] rows[i]).0 == peer_id && rows[i].1 <= now_ms;
        list::lemma_filter_contains(rows, owners::lapsed(now_ms), rows[i]);
        assert(rows.contains(rows[i]));
        let k = late.index_of(rows[i]);
        assert(health::incoming_due(s, now_ms)[k] == peer_id);
    }
    let kept = s.ssh_shell_bridge_deadlines;
    let gone = kept.filter(health::bridge_lapsed(now_ms));
    if health::bridges_due(s, now_ms).contains(b) {
        let k = health::bridges_due(s, now_ms).index_of(b);
        list::lemma_filter_contains(kept, health::bridge_lapsed(now_ms), gone[k]);
        assert(gone.contains(gone[k]));
        let i = kept.index_of(gone[k]);
        assert(kept[i].0 == b);
    }
    if exists|i: int|
        0 <= i < kept.len() && (#[trigger] kept[i]).0 == b && kept[i].1 <= now_ms {
        let i = choose|i: int|
            0 <= i < kept.len() && (#[trigger] kept[i]).0 == b && kept[i].1 <= now_ms;
        list::lemma_filter_contains(kept, health::bridge_lapsed(now_ms), kept[i]);
        assert(kept.contains(kept[i]));
        let k = gone.index_of(kept[i]);
        assert(health::bridges_due(s, now_ms)[k] == b);
    }
}

/// Only peers that connected to this server go when they are not heard of: of any other only
/// the lease is forgotten.
pub proof fn lemma_only_incoming_peers_go(s: AppView, peer_id: Seq<char>, now_ms: u64)
    ensures
        health::comes_in(s, peer_id) <==> list::lookup(s.peers, peer_id) is Some && (list::lookup(
            s.peers,
            peer_id,
        )->0).transport is ApiSocket,
        !health::comes_in(s, peer_id) ==> health::incoming_gone(s, peer_id, now_ms).peers == s.peers
            && health::incoming_gone(s, peer_id, now_ms).peer_bridges == s.peer_bridges
            && health::incoming_gone(s, peer_id, now_ms).delegated == s.delegated,
        !health::comes_in(s, peer_id) ==> list::lookup(
            health::incoming_gone(s, peer_id, now_ms).incoming_peer_deadlines,
            peer_id,
        ) is None,
{
    reveal(health::incoming_gone);
    list::lemma_tables_change_one_key(s.incoming_peer_deadlines, peer_id, 0u64, (peer_id, 0u64));
}

/// A shell that gives its connection back has none left, and nothing of it is left over.
pub proof fn lemma_disconnected_shells_have_no_connection(
    s: AppView,
    b: BridgeRefView,
    now_ms: u64,
    row: (Seq<char>, BridgeView),
)
    ensures
        api_peers::disconnected(s, b, None, now_ms).peer_bridges.contains(row)
            ==> s.peer_bridges.contains(row) && !(row.0 == b.peer_id && row.1.connection_id
            == b.connection_id),
{
    if api_peers::disconnected(s, b, None, now_ms).peer_bridges.contains(row) {
        letting_go::lemma_released_connections_are_gone(s, b, now_ms, row);
    }
}

/// What a shell reports as taken up is shown first, and only what was waited for: then the
/// connection goes.
pub proof fn lemma_activated_terminals_are_shown_before_the_connection_goes(
    s: AppView,
    b: BridgeRefView,
    claim: (Seq<char>, u64),
    now_ms: u64,
    row: (Seq<char>, BridgeView),
)
    ensures
        ({
            let waiting = list::lookup(s.pending_owner_activations, claim.0);
            let shown = if waiting is Some && (waiting->0).delegation.epoch == claim.1 {
                owners::activation_finished(s, claim.0, true, now_ms)
            } else {
                s
            };
            &&& api_peers::disconnected(s, b, Some(claim), now_ms) == api_peers::disconnected(
                shown,
                b,
                None,
                now_ms,
            )
            &&& api_peers::disconnected(s, b, Some(claim), now_ms).peer_bridges.contains(row)
                ==> !(row.0 == b.peer_id && row.1.connection_id == b.connection_id)
        }),
{
    let waiting = list::lookup(s.pending_owner_activations, claim.0);
    let shown = if waiting is Some && (waiting->0).delegation.epoch == claim.1 {
        owners::activation_finished(s, claim.0, true, now_ms)
    } else {
        s
    };
    if api_peers::disconnected(s, b, Some(claim), now_ms).peer_bridges.contains(row) {
        letting_go::lemma_released_connections_are_gone(shown, b, now_ms, row);
    }
}

/// The terminals that another host has a part in are those that are shown here for one, and
/// those that one presents.
pub proof fn lemma_shared_terminals_are_shown_or_presented(s: AppView, terminal_id: Seq<char>)
    ensures
        handoff::shared_terminals(s).contains(terminal_id) <==> (exists|i: int|
            0 <= i < s.remote_owner_presentations.len() && (
            #[trigger] s.remote_owner_presentations[i]).0 == terminal_id) || (exists|i: int|
            0 <= i < s.delegated.len() && (#[trigger] s.delegated[i]).1.moved.terminal_id
                == terminal_id),
{
    let shown = list::keys_of(s.remote_owner_presentations);
    let presented = handoff::delegated_terminals(s);
    if shown.contains(terminal_id) {
        let i = shown.index_of(terminal_id);
        assert(s.remote_owner_presentations[i].0 == terminal_id);
    }
    if presented.contains(terminal_id) {
        let i = presented.index_of(terminal_id);
        assert(s.delegated[i].1.moved.terminal_id == terminal_id);
    }
    if exists|i: int|
        0 <= i < s.remote_owner_presentations.len() && (
        #[trigger] s.remote_owner_presentations[i]).0 == terminal_id {
        let i = choose|i: int|
            0 <= i < s.remote_owner_presentations.len() && (
            #[trigger] s.remote_owner_presentations[i]).0 == terminal_id;
        assert(shown[i] == terminal_id);
    }
    if exists|i: int|
        0 <= i < s.delegated.len() && (#[trigger] s.delegated[i]).1.moved.terminal_id
            == terminal_id {
        let i = choose|i: int|
            0 <= i < s.delegated.len() && (#[trigger] s.delegated[i]).1.moved.terminal_id
                == terminal_id;
        assert(presented[i] == terminal_id);
    }
}

} // verus!
