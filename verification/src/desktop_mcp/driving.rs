//! What a caller of the bridge can rely on when it launches, drives and stops a CLI.

use vstd::prelude::*;
use vstd::string::*;

use super::flows::{self, Creating, InputOutcome, Reply, StopEvent, StopNext, StopState};
use super::launch::{self, FindEvent, FindNext, FindState, LaunchEvent, LaunchNext, LaunchState};
use super::validate::{LaunchCliParams, McpSplit};
use super::{AccessMode, BridgeError, Details};
use crate::api::schema::agents::{AgentInfo, AgentStartParams};
use crate::api::schema::common::SplitDirection;
use crate::desktop_queue::{ChannelHandle, CliIdentity, CliState, QueueError};
use crate::text;

verus! {

// ---------------------------------------------------------------------------
// Tools

/// A tool that needs full control is no tool of a restricted bridge: each tool is of one
/// sort only.
pub proof fn lemma_full_control_is_granted_apart(name: Seq<char>)
    ensures
        super::full_control_tool(name) ==> !super::allowed(AccessMode::Restricted, name)
            && super::allowed(AccessMode::FullControl, name),
{
    reveal_strlit("herdr_ack_messages");
    reveal_strlit("herdr_drain_messages");
    reveal_strlit("herdr_health");
    reveal_strlit("herdr_interrupt_cli");
    reveal_strlit("herdr_launch_cli");
    reveal_strlit("herdr_pane_process_info");
    reveal_strlit("herdr_read_pane");
    reveal_strlit("herdr_send_input");
    reveal_strlit("herdr_snapshot");
    reveal_strlit("herdr_stop_cli");
    reveal_strlit("herdr_agent_control");
    reveal_strlit("herdr_destructive_action");
    reveal_strlit("herdr_inspect");
    reveal_strlit("herdr_layout_control");
    reveal_strlit("herdr_pane_control");
    reveal_strlit("herdr_peer_control");
    reveal_strlit("herdr_recovery_control");
    reveal_strlit("herdr_tab_control");
    reveal_strlit("herdr_wait");
    reveal_strlit("herdr_workspace_control");
    reveal_strlit("herdr_worktree_control");
    if super::full_control_tool(name) && super::restricted_tool(name) {
        let a = name[6];
        let b = name[7];
        let c = name[8];
        let d = name[11];
        assert((a == 'a' && b == 'c') || (a == 'd' && b == 'r') || a == 'h' || (a == 'i' && c == 't')
            || (a == 'l' && c == 'u') || (a == 'p' && d == 'p') || (a == 'r' && c == 'a') || a
            == 's');
        assert((a == 'a' && b == 'g') || (a == 'd' && b == 'e') || (a == 'i' && c == 's') || (a
            == 'l' && c == 'y') || (a == 'p' && d == 'c') || (a == 'p' && b == 'e') || (a == 'r'
            && c == 'c') || a == 't' || a == 'w');
    }
}

// ---------------------------------------------------------------------------
// Launching

/// Every agent with a name is known to be alive, and nothing else is.
pub proof fn lemma_named_agents_are_alive(agents: Seq<AgentInfo>, name: Seq<char>)
    ensures
        flows::agent_names(agents).contains(name) <==> exists|i: int|
            0 <= i < agents.len() && text::opt_view((#[trigger] agents[i]).name) == Some(name),
    decreases agents.len(),
{
    if agents.len() > 0 {
        let front = agents.drop_last();
        let rest = flows::agent_names(front);
        lemma_named_agents_are_alive(front, name);
        let all = flows::agent_names(agents);
        if rest.contains(name) {
            let i = choose|i: int|
                0 <= i < front.len() && text::opt_view((#[trigger] front[i]).name) == Some(name);
            assert(text::opt_view(agents[i].name) == Some(name));
            let k = rest.index_of(name);
            assert(all[k] == name);
        }
        if text::opt_view(agents.last().name) == Some(name) {
            assert(text::opt_view(agents[agents.len() - 1].name) == Some(name));
            assert(all.last() == name);
        }
        if exists|i: int|
            0 <= i < agents.len() && text::opt_view((#[trigger] agents[i]).name) == Some(name) {
            let i = choose|i: int|
                0 <= i < agents.len() && text::opt_view((#[trigger] agents[i]).name) == Some(name);
            if i < front.len() {
                assert(text::opt_view(front[i].name) == Some(name));
            }
        }
        if all.contains(name) && !rest.contains(name) {
            let k = all.index_of(name);
            if k < rest.len() {
                assert(rest[k] == name);
            }
        }
    }
}

/// What is set one after the other is there at the end, and variables of other names are as
/// they were.
pub proof fn lemma_set_variables_are_there(
    before: Seq<(String, String)>,
    after: Seq<(String, String)>,
    extra: Seq<(String, String)>,
    row: (String, String),
)
    requires
        launch::keys_set(before, after, extra),
    ensures
        extra.contains(row) && (forall|i: int, j: int|
            0 <= i < j < extra.len() ==> (#[trigger] extra[i]).0@ != (#[trigger] extra[j]).0@)
            ==> after.contains(row),
        before.contains(row) && (forall|i: int|
            0 <= i < extra.len() ==> (#[trigger] extra[i]).0@ != row.0@) ==> after.contains(row),
    decreases extra.len(),
{
    if extra.len() > 0 {
        let front = extra.drop_last();
        let (key, value) = extra.last();
        let mid = choose|mid: Seq<(String, String)>|
            launch::keys_set(before, mid, front) && #[trigger] launch::key_set(
                mid,
                after,
                key,
                value,
            );
        lemma_set_variables_are_there(before, mid, front, row);
        lemma_one_variable_set(mid, after, key, value, row);
        if extra.contains(row) {
            let i = extra.index_of(row);
            if i < front.len() {
                assert(front[i] == row);
                assert(extra[i].0@ == row.0@);
            } else {
                assert(row == (key, value));
            }
        }
        if forall|i: int, j: int|
            0 <= i < j < extra.len() ==> (#[trigger] extra[i]).0@ != (#[trigger] extra[j]).0@ {
            assert forall|i: int, j: int| 0 <= i < j < front.len() implies (
            #[trigger] front[i]).0@ != (#[trigger] front[j]).0@ by {
                assert(front[i] == extra[i] && front[j] == extra[j]);
            }
            if front.contains(row) {
                let i = front.index_of(row);
                assert(extra[i].0@ != extra[extra.len() - 1].0@);
            }
        }
        if forall|i: int| 0 <= i < extra.len() ==> (#[trigger] extra[i]).0@ != row.0@ {
            assert forall|i: int| 0 <= i < front.len() implies (#[trigger] front[i]).0@
                != row.0@ by {
                assert(front[i] == extra[i]);
            }
            assert(extra[extra.len() - 1].0@ != row.0@);
        }
    }
}

proof fn lemma_one_variable_set(
    mid: Seq<(String, String)>,
    after: Seq<(String, String)>,
    key: String,
    value: String,
    row: (String, String),
)
    requires
        launch::key_set(mid, after, key, value),
    ensures
        after.contains((key, value)),
        mid.contains(row) && row.0@ != key@ ==> after.contains(row),
{
    if launch::has_key(mid, key@) {
        let i = choose|i: int|
            0 <= i < mid.len() && mid[i].0@ == key@ && after == #[trigger] mid.update(
                i,
                (key, value),
            );
        assert(after[i] == (key, value));
        if mid.contains(row) && row.0@ != key@ {
            let j = mid.index_of(row);
            assert(after[j] == row);
        }
    } else {
        assert(after[mid.len() as int] == (key, value));
        if mid.contains(row) {
            let j = mid.index_of(row);
            assert(after[j] == row);
        }
    }
}

/// A launch starts the command that was asked for, here, where it was asked for, without
/// taking the focus, and under the marker by which it can be found again. Its channel is in
/// its environment.
pub proof fn lemma_launches_start_what_was_asked_for(
    state: LaunchState,
    event: LaunchEvent,
    next: LaunchNext,
    after: LaunchState,
    request: AgentStartParams,
    row: (String, String),
)
    requires
        launch::launch_follows(state, event, next),
        next == LaunchNext::StartAgent(after, request),
    ensures
        state is Channel,
        event is Channel,
        (event->Channel_0) is Ok,
        ({
            let params = state->Channel_params;
            let handle = (event->Channel_0)->Ok_0;
            &&& request.name@ == handle.launch_marker@
            &&& request.argv == params.argv
            &&& text::opt_view(request.cwd) == Some(params.cwd@)
            &&& request.workspace_id == params.workspace_id
            &&& request.tab_id == params.tab_id
            &&& params.split == McpSplit::Right <==> request.split == Some(SplitDirection::Right)
            &&& params.split == McpSplit::Down <==> request.split == Some(SplitDirection::Down)
            &&& request.peer is None
            &&& !request.focus
            &&& request.transport is None
            &&& handle.env@.contains(row) && (forall|i: int, j: int|
                0 <= i < j < handle.env@.len() ==> (#[trigger] handle.env@[i]).0@ != (
                #[trigger] handle.env@[j]).0@) ==> request.env@.contains(row)
            &&& params.env@.contains(row) && (forall|i: int|
                0 <= i < handle.env@.len() ==> (#[trigger] handle.env@[i]).0@ != row.0@)
                ==> request.env@.contains(row)
        }),
{
    let params = state->Channel_params;
    let handle = (event->Channel_0)->Ok_0;
    lemma_set_variables_are_there(params.env@, request.env@, handle.env@, row);
}

/// A channel is created for a launch only once no agent has its name, and under the name and
/// the directory that were asked for.
pub proof fn lemma_channels_are_created_for_new_names(
    state: LaunchState,
    event: LaunchEvent,
    next: LaunchNext,
    agents: Vec<AgentInfo>,
    prune: LaunchState,
    live: Vec<String>,
    pruned: LaunchEvent,
    after: LaunchState,
    name: String,
    cwd: String,
    i: int,
)
    requires
        launch::launch_follows(state, event, next),
        event == LaunchEvent::Agents(Ok(agents)),
        next == LaunchNext::Prune(prune, live),
        launch::launch_follows(prune, pruned, LaunchNext::CreateChannel(after, name, cwd)),
        0 <= i < agents@.len(),
    ensures
        state is Agents,
        name == (state->Agents_params).name,
        cwd == (state->Agents_params).cwd,
        text::opt_view(agents@[i].name) != Some(name@),
        pruned is Pruned && (pruned->Pruned_0) is Ok,
{
    assert(state is Agents);
    let params = state->Agents_params;
    if text::opt_view(agents@[i].name) == Some(params.name@) {
        assert(flows::named(agents@[i], params.name@));
    }
}

/// A CLI is registered as running where its agent was started, under its own name.
pub proof fn lemma_started_agents_are_registered(
    state: LaunchState,
    event: LaunchEvent,
    next: LaunchNext,
    after: LaunchState,
    identity: CliIdentity,
)
    requires
        launch::launch_follows(state, event, next),
        next == LaunchNext::Activate(after, identity),
    ensures
        state is Start,
        event is Reply && (event->Reply_0) is Ok && ((event->Reply_0)->Ok_0).value is AgentStarted,
        ({
            let agent = ((event->Reply_0)->Ok_0).value->AgentStarted_0;
            let handle = state->Start_handle;
            &&& identity.cli_id@ == handle.cli_id@
            &&& text::opt_view(identity.launch_marker) == Some(handle.launch_marker@)
            &&& identity.pane_id@ == agent.pane_id@
            &&& identity.terminal_id@ == agent.terminal_id@
            &&& identity.workspace_id@ == agent.workspace_id@
            &&& identity.tab_id@ == agent.tab_id@
            &&& identity.name@ == (state->Start_name)@
            &&& identity.cwd@ == (state->Start_cwd)@
            &&& identity.state == CliState::Active
            &&& after is Activate && (after->Activate_pane_id)@ == agent.pane_id@
                && after->Activate_handle == handle
        }),
{
    let agent = ((event->Reply_0)->Ok_0).value->AgentStarted_0;
    let handle = state->Start_handle;
    assert(identity@ == launch::launched(
        handle,
        agent,
        (state->Start_name)@,
        (state->Start_cwd)@,
    ));
}

/// A launch whose outcome nobody knows keeps its channel: it is looked for instead, by its
/// own identifier, and what is said in the end is that it may be tried again.
pub proof fn lemma_unanswered_launches_keep_their_channel(
    handle: ChannelHandle,
    name: String,
    cwd: String,
    err: BridgeError,
    next: LaunchNext,
    found: Result<CliIdentity, BridgeError>,
    end: LaunchNext,
)
    requires
        err.code@ == "server_timeout"@ || err.code@ == "server_unavailable"@,
        launch::launch_follows(
            LaunchState::Start { handle, name, cwd },
            LaunchEvent::Reply(Err(err)),
            next,
        ),
    ensures
        next is Find && (next->Find_1)@ == handle.cli_id@,
        launch::launch_follows(next->Find_0, LaunchEvent::Found(found), end) ==> match found {
            Ok(identity) => end == LaunchNext::Launched(identity),
            Err(_) => end matches LaunchNext::Refused(e) && e.retryable && e.message@
                == err.message@ && e.code@ == "launch_rejected"@,
        },
{
}

/// A launch that was refused for good gives up the channel that was made for it, and says
/// what the server said.
pub proof fn lemma_refused_launches_give_up_their_channel(
    handle: ChannelHandle,
    name: String,
    cwd: String,
    err: BridgeError,
    next: LaunchNext,
)
    requires
        err.code@ != "server_timeout"@,
        err.code@ != "server_unavailable"@,
        launch::launch_follows(
            LaunchState::Start { handle, name, cwd },
            LaunchEvent::Reply(Err(err)),
            next,
        ),
    ensures
        next matches LaunchNext::AbortAndRefuse(given_up, e) && given_up == handle && e.message
            @ == err.message@ && e.retryable == err.retryable,
{
}

/// An agent that could not be registered is closed, and its channel given up.
pub proof fn lemma_unregistered_agents_are_closed(
    handle: ChannelHandle,
    pane_id: String,
    err: QueueError,
    next: LaunchNext,
)
    requires
        launch::launch_follows(
            LaunchState::Activate { handle, pane_id },
            LaunchEvent::Identity(Err(err)),
            next,
        ),
    ensures
        next matches LaunchNext::CloseAbortAndRefuse(given_up, closed, e) && given_up == handle
            && closed@ == pane_id@ && e.message@ == err.message@,
{
}

/// A server of another protocol than the seventeenth is never driven.
pub proof fn lemma_other_protocols_are_refused(
    version: String,
    protocol: u32,
    params: LaunchCliParams,
    launched: LaunchNext,
    creating: Creating,
    found: FindNext,
    identity: CliIdentity,
    stopped: StopNext,
)
    requires
        launch::launch_follows(
            LaunchState::Version { params },
            LaunchEvent::Version(Ok((version, protocol))),
            launched,
        ),
        launch::find_follows(
            FindState::Version { creating },
            FindEvent::Version(Ok((version, protocol))),
            found,
        ),
        flows::stop_follows(
            StopState::Version { identity },
            StopEvent::Version(Ok((version, protocol))),
            stopped,
        ),
    ensures
        launched is Refused <==> protocol != 17,
        found is Refused <==> protocol != 17,
        stopped is Refused <==> protocol != 17,
        launched is Refused ==> (launched->Refused_0).code@ == "server_incompatible"@,
        found is Refused ==> (found->Refused_0).code@ == "server_incompatible"@,
        stopped is Refused ==> (stopped->Refused_0).code@ == "server_incompatible"@,
        protocol == 17 ==> stopped is AskPane && (stopped->AskPane_1)@ == identity.pane_id@,
{
}

// ---------------------------------------------------------------------------
// Finding

/// A launch that was never confirmed is taken to run where the one local agent is that
/// carries its marker.
pub proof fn lemma_lost_launches_are_found_by_their_marker(
    creating: Creating,
    agents: Vec<AgentInfo>,
    prune: FindState,
    live: Vec<String>,
    pruned: FindEvent,
    after: FindState,
    identity: CliIdentity,
)
    requires
        launch::find_follows(
            FindState::Agents { creating },
            FindEvent::Agents(Ok(agents)),
            FindNext::Prune(prune, live),
        ),
        launch::find_follows(prune, pruned, FindNext::Activate(after, identity)),
    ensures
        identity.cli_id@ == creating.identity.cli_id@,
        identity.name@ == creating.identity.name@,
        identity.cwd@ == creating.identity.cwd@,
        identity.state == CliState::Active,
        text::opt_view(identity.launch_marker) == Some(creating.marker@),
        exists|i: int|
            0 <= i < agents@.len() && (#[trigger] agents@[i]).peer is None && text::opt_view(
                agents@[i].name,
            ) == Some(creating.marker@) && identity.pane_id@ == agents@[i].pane_id@
                && identity.terminal_id@ == agents@[i].terminal_id@ && identity.workspace_id@
                == agents@[i].workspace_id@ && identity.tab_id@ == agents@[i].tab_id@ && forall|
                j: int,
            |
                0 <= j < agents@.len() && j != i && (#[trigger] agents@[j]).peer is None
                    ==> text::opt_view(agents@[j].name) != Some(creating.marker@),
{
    let found = (prune->Prune_found)->0;
    assert(launch::marker_seen(agents@, creating.marker@, Some(found)));
    assert(identity@ == flows::reconciled(creating, found));
    let i = choose|i: int|
        0 <= i < agents@.len() && flows::carries_marker(#[trigger] agents@[i], creating.marker@)
            && flows::found_at(found, agents@[i]) && forall|j: int|
            0 <= j < agents@.len() && j != i ==> !flows::carries_marker(
                #[trigger] agents@[j],
                creating.marker@,
            );
    assert forall|j: int|
        0 <= j < agents@.len() && j != i && (#[trigger] agents@[j]).peer
            is None implies text::opt_view(agents@[j].name) != Some(creating.marker@) by {
        assert(!flows::carries_marker(agents@[j], creating.marker@));
    }
    assert(agents@[i].peer is None);
}

/// A launch that is nowhere to be found is confirmed absent exactly if it was swept away,
/// and else may still come.
pub proof fn lemma_launches_are_absent_once_swept_away(
    creating: Creating,
    pruned: Vec<String>,
    next: FindNext,
)
    requires
        launch::find_follows(
            FindState::Prune { creating, found: None },
            FindEvent::Pruned(Ok(pruned)),
            next,
        ),
    ensures
        next is Refused,
        super::confirmed_absent(next->Refused_0) <==> text::views(pruned@).contains(
            creating.identity.cli_id@,
        ),
        (next->Refused_0).retryable <==> !text::views(pruned@).contains(creating.identity.cli_id@),
{
}

/// A CLI is said to run only where the registry says so, before or after it was looked for.
pub proof fn lemma_found_clis_are_registered(state: FindState, event: FindEvent, identity: CliIdentity)
    requires
        launch::find_follows(state, event, FindNext::Found(identity)),
    ensures
        (state is Lookup && event == FindEvent::Identity(Ok(identity)) && identity.state
            == CliState::Active) || (state == (FindState::Rename { identity })),
{
}

/// An agent that was found again is given back the name that its caller chose, in its own
/// pane.
pub proof fn lemma_found_agents_get_their_name_back(
    identity: CliIdentity,
    found: FindNext,
    launched: LaunchNext,
    handle: ChannelHandle,
    pane_id: String,
)
    requires
        launch::find_follows(FindState::Activate, FindEvent::Identity(Ok(identity)), found),
        launch::launch_follows(
            LaunchState::Activate { handle, pane_id },
            LaunchEvent::Identity(Ok(identity)),
            launched,
        ),
    ensures
        found is Rename && (found->Rename_1)@ == identity.pane_id@ && (found->Rename_2)@
            == identity.name@,
        launched is Rename && (launched->Rename_1)@ == identity.pane_id@ && (launched->Rename_2)@
            == identity.name@,
{
}

// ---------------------------------------------------------------------------
// Input

/// Input goes to a pane exactly if the server says that the pane still belongs to the CLI's
/// own terminal. A pane that is gone, or another's, closes the CLI; any other error does not.
pub proof fn lemma_input_goes_to_the_own_terminal(
    identity: CliIdentity,
    r: Result<Reply, BridgeError>,
    next: Result<(), (BridgeError, bool)>,
)
    requires
        flows::preflighted(identity, r, next),
    ensures
        next is Ok <==> r is Ok && (r->Ok_0).value is PaneInfo && ((
        r->Ok_0).value->PaneInfo_terminal_id)@ == identity.terminal_id@,
        next is Err ==> ((next->Err_0).1 <==> (r is Ok && (r->Ok_0).value is PaneInfo && ((
        r->Ok_0).value->PaneInfo_terminal_id)@ != identity.terminal_id@) || (r is Err && (
        r->Err_0).code@ == "pane_not_found"@)),
        r is Err && (r->Err_0).code@ != "pane_not_found"@ ==> next == Err::<
            (),
            (BridgeError, bool),
        >((r->Err_0, false)),
{
    let check = choose|check: flows::PaneCheck|
        #[trigger] flows::pane_checked(identity, r, check) && match check {
            flows::PaneCheck::Same => next is Ok,
            flows::PaneCheck::Gone => next matches Err((e, close)) && close
                && super::is_bridge_error(
                e,
                "cli_not_running"@,
                "the registered CLI pane no longer exists"@,
                false,
            ) && e.details is None,
            flows::PaneCheck::Foreign => next matches Err((e, close)) && close
                && super::is_bridge_error(
                e,
                "cli_identity_mismatch"@,
                "the pane now belongs to a different terminal"@,
                false,
            ) && e.details == Some(
                Details::ForeignPane { cli_id: identity.cli_id, pane_id: identity.pane_id },
            ),
            flows::PaneCheck::Refused(err) => next == Err::<(), (BridgeError, bool)>((err, false)),
        };
    assert(flows::pane_checked(identity, r, check));
}

/// Input was sent exactly if the server says so. A key that is not understood is the
/// caller's mistake only where the caller chose the keys.
pub proof fn lemma_input_is_sent_once_the_server_says_so(
    r: Result<Reply, BridgeError>,
    typed: bool,
    o: InputOutcome,
)
    requires
        flows::input_settled(r, typed, o),
    ensures
        o is Sent <==> r is Ok && (r->Ok_0).value is Done,
        o is Gone <==> r is Err && (r->Err_0).code@ == "pane_not_found"@,
        o is InvalidKeys ==> typed && r is Err && (r->Err_0).code@ == "invalid_key"@,
        typed && r is Err && (r->Err_0).code@ == "invalid_key"@ ==> o == InputOutcome::InvalidKeys(
            (r->Err_0).message,
        ),
{
    reveal_strlit("pane_not_found");
    reveal_strlit("invalid_key");
    assert("pane_not_found"@.len() != "invalid_key"@.len());
}

// ---------------------------------------------------------------------------
// Stopping

/// A CLI is said to be stopped only once it is closed in the registry, or was confirmed
/// absent. That it was stopped before is said unless this call closed its pane.
pub proof fn lemma_stopped_clis_are_closed(state: StopState, event: StopEvent, already: bool)
    requires
        flows::stop_follows(state, event, StopNext::Stopped { already_stopped: already }),
    ensures
        match state {
            StopState::Lookup => already && event is Registered && (event->Registered_0) is Ok && ((
            event->Registered_0)->Ok_0).state == CliState::Closed,
            StopState::Activation => already && event is Active && (event->Active_0) is Err
                && super::confirmed_absent((event->Active_0)->Err_0),
            StopState::Mark { already_stopped } => already == already_stopped
                && event is Registered && (event->Registered_0) is Ok,
            _ => false,
        },
{
}

/// A pane that the server closed was not stopped before; one that was gone by then was.
pub proof fn lemma_closed_panes_were_running(reply: Result<Reply, BridgeError>, next: StopNext)
    requires
        flows::stop_follows(StopState::Close, StopEvent::Reply(reply), next),
    ensures
        next == StopNext::MarkClosed(StopState::Mark { already_stopped: false }) <==> reply is Ok && (
        reply->Ok_0).value is Done,
        next == StopNext::MarkClosed(StopState::Mark { already_stopped: true }) <==> reply is Err && (
        reply->Err_0).code@ == "pane_not_found"@,
        next is MarkClosed || next is Refused,
{
}

/// A pane that belongs to another terminal by now is left alone, and the caller is told so;
/// the CLI counts as closed. One that still is the CLI's own is closed, and no other.
pub proof fn lemma_foreign_panes_are_left_alone(
    identity: CliIdentity,
    r: Result<Reply, BridgeError>,
    next: StopNext,
)
    requires
        flows::stop_follows(StopState::Pane { identity }, StopEvent::Reply(r), next),
        r is Ok,
        (r->Ok_0).value is PaneInfo,
    ensures
        ((r->Ok_0).value->PaneInfo_terminal_id)@ == identity.terminal_id@ <==> next
            == StopNext::ClosePane(StopState::Close, identity.pane_id),
        ((r->Ok_0).value->PaneInfo_terminal_id)@ != identity.terminal_id@ <==> next
            is MarkClosedAndRefuse,
        next is MarkClosedAndRefuse ==> (next->MarkClosedAndRefuse_0).code@
            == "cli_identity_mismatch"@,
{
}

/// What a server refuses is reported as it was said: a failure of the connection as it is,
/// anything else under the operation's own code, with the server's code beside it.
pub proof fn lemma_refusals_say_what_the_server_said(
    err: BridgeError,
    code: Seq<char>,
    e: BridgeError,
)
    requires
        super::remapped(err, code, e),
    ensures
        e.message@ == err.message@,
        e.retryable == err.retryable,
        err.code@ == "server_unavailable"@ || err.code@ == "server_timeout"@ || err.code@
            == "server_protocol_error"@ || err.code@ == "server_incompatible"@ || err.code@
            == "internal_error"@ ==> e == err,
        e != err ==> e.code@ == code && (e.details matches Some(Details::Upstream { code: c, .. })
            && c@ == err.code@),
{
}

} // verus!
