//! Finding a registered CLI, and launching a new one.

use vstd::prelude::*;
use vstd::string::*;

use super::flows::{self, Creating, Found, Lookup, Reply, ReplyValue};
use super::validate::{LaunchCliParams, McpSplit};
use super::{AccessMode, BridgeError, Details};
use crate::api::schema::agents::{AgentInfo, AgentStartParams};
use crate::api::schema::common::{
    ControlClientKind, ControlClientRegisterParams, ControlClientTarget, Method, SplitDirection,
};
use crate::desktop_queue::{ChannelHandle, CliIdentity, CliState, IdentityView, QueueError};
use crate::text;

verus! {

/// Where finding a running CLI stands.
pub enum FindState {
    /// The registry was asked for the CLI.
    Lookup,
    /// The server was asked for its version.
    Version { creating: Creating },
    /// The server was asked for its agents.
    Agents { creating: Creating },
    /// Stale launches were to be pruned.
    Prune { creating: Creating, found: Option<Found> },
    /// The launch that was found was to be recorded.
    Activate,
    /// The agent was to be given the name the caller chose for it.
    Rename { identity: CliIdentity },
}

pub enum FindEvent {
    Identity(Result<CliIdentity, QueueError>),
    Version(Result<(String, u32), BridgeError>),
    Agents(Result<Vec<AgentInfo>, BridgeError>),
    Pruned(Result<Vec<String>, QueueError>),
    Renamed,
}

pub enum FindNext {
    AskVersion(FindState),
    ListAgents(FindState),
    /// Prune stale launches; these markers are alive.
    Prune(FindState, Vec<String>),
    /// Record that the launch runs.
    Activate(FindState, CliIdentity),
    /// Rename the agent, whatever comes of it.
    Rename(FindState, String, String),
    Found(CliIdentity),
    Refused(BridgeError),
    OutOfStep,
}

/// `b` answers the queue error `e`, and names its kind.
pub open spec fn queue_refusal(b: BridgeError, e: QueueError) -> bool {
    &&& super::is_bridge_error(
        b,
        super::queue_error_code(e.kind),
        e.message@,
        super::queue_error_retryable(e.kind),
    )
    &&& b.details == Some(Details::QueueKind(e.kind))
}

/// `found` is where the marker was seen, if anywhere; it was seen once at most.
pub open spec fn marker_seen(agents: Seq<AgentInfo>, marker: Seq<char>, found: Option<Found>) -> bool {
    match found {
        None => forall|i: int|
            0 <= i < agents.len() ==> !flows::carries_marker(#[trigger] agents[i], marker),
        Some(f) => exists|i: int|
            0 <= i < agents.len() && flows::carries_marker(#[trigger] agents[i], marker)
                && flows::found_at(f, agents[i]) && forall|j: int|
                0 <= j < agents.len() && j != i ==> !flows::carries_marker(
                    #[trigger] agents[j],
                    marker,
                ),
    }
}

pub open spec fn find_follows(state: FindState, event: FindEvent, next: FindNext) -> bool {
    match (state, event) {
        (FindState::Lookup, FindEvent::Identity(Err(e))) => next matches FindNext::Refused(b)
            && queue_refusal(b, e),
        (FindState::Lookup, FindEvent::Identity(Ok(identity))) => match identity.state {
            CliState::Active => next == FindNext::Found(identity),
            CliState::Closed => next matches FindNext::Refused(b) && super::is_bridge_error(
                b,
                "cli_not_running"@,
                "the registered CLI is no longer running"@,
                false,
            ) && b.details is None,
            CliState::Creating => match identity.launch_marker {
                None => next matches FindNext::Refused(b) && super::is_bridge_error(
                    b,
                    "cli_not_running"@,
                    "the CLI launch record cannot be reconciled"@,
                    false,
                ) && b.details is None,
                Some(marker) => next == FindNext::AskVersion(
                    FindState::Version { creating: Creating { identity, marker } },
                ),
            },
        },
        (FindState::Version { creating }, FindEvent::Version(Ok((version, protocol)))) =>
            if protocol == super::REQUIRED_PROTOCOL {
            next == FindNext::ListAgents(FindState::Agents { creating })
        } else {
            next matches FindNext::Refused(e) && super::incompatible(e, protocol, version)
        },
        (FindState::Version { creating }, FindEvent::Version(Err(e))) => next
            == FindNext::Refused(e),
        (FindState::Agents { creating }, FindEvent::Agents(Err(e))) => next
            == FindNext::Refused(e),
        (FindState::Agents { creating }, FindEvent::Agents(Ok(agents))) => {
            ||| (next matches FindNext::Prune(after, live) && text::views(live@)
                == flows::agent_names(agents@) && (after matches FindState::Prune {
                creating: c,
                found,
            } && c == creating && marker_seen(agents@, creating.marker@, found)))
            ||| (next matches FindNext::Refused(e) && super::is_bridge_error(
                e,
                "cli_identity_mismatch"@,
                "multiple panes matched the CLI launch marker"@,
                false,
            ) && e.details is None && exists|i: int, j: int|
                0 <= i < j < agents@.len() && flows::carries_marker(
                    #[trigger] agents@[i],
                    creating.marker@,
                ) && flows::carries_marker(#[trigger] agents@[j], creating.marker@))
        },
        (FindState::Prune { creating, found }, FindEvent::Pruned(Err(e))) => next
            matches FindNext::Refused(b) && queue_refusal(b, e),
        (FindState::Prune { creating, found }, FindEvent::Pruned(Ok(pruned))) => match found {
            Some(f) => next matches FindNext::Activate(after, identity) && identity@
                == flows::reconciled(creating, f) && after == FindState::Activate,
            None => next matches FindNext::Refused(e) && flows::not_found(
                e,
                creating,
                text::views(pruned@),
            ),
        },
        (FindState::Activate, FindEvent::Identity(Err(e))) => next matches FindNext::Refused(b)
            && queue_refusal(b, e),
        (FindState::Activate, FindEvent::Identity(Ok(identity))) => next == FindNext::Rename(
            FindState::Rename { identity },
            identity.pane_id,
            identity.name,
        ),
        (FindState::Rename { identity }, FindEvent::Renamed) => next == FindNext::Found(identity),
        _ => next == FindNext::OutOfStep,
    }
}

/// Finds the running identity of a registered CLI. A launch that was recorded
/// but never confirmed is looked for among the agents.
pub fn active_identity(state: FindState, event: FindEvent) -> (next: FindNext)
    ensures
        find_follows(state, event, next),
{
    match (state, event) {
        (FindState::Lookup, FindEvent::Identity(r)) => match flows::after_lookup(r) {
            Ok(Lookup::Running(identity)) => FindNext::Found(identity),
            Ok(Lookup::Launching(creating)) => FindNext::AskVersion(FindState::Version { creating }),
            Err(e) => FindNext::Refused(e),
        },
        (FindState::Version { creating }, FindEvent::Version(Ok((version, protocol)))) => {
            match super::require_compatible(version, protocol) {
                Ok(()) => FindNext::ListAgents(FindState::Agents { creating }),
                Err(e) => FindNext::Refused(e),
            }
        },
        (FindState::Version { creating: _ }, FindEvent::Version(Err(e))) => FindNext::Refused(e),
        (FindState::Agents { creating: _ }, FindEvent::Agents(Err(e))) => FindNext::Refused(e),
        (FindState::Agents { creating }, FindEvent::Agents(Ok(agents))) => {
            match flows::match_marker(&agents, creating.marker.as_str()) {
                Ok(found) => {
                    let live = flows::live_markers(&agents);
                    assert(marker_seen(agents@, creating.marker@, found));
                    FindNext::Prune(FindState::Prune { creating, found }, live)
                },
                Err(e) => FindNext::Refused(e),
            }
        },
        (FindState::Prune { creating: _, found: _ }, FindEvent::Pruned(Err(e))) =>
            FindNext::Refused(super::queue_error(e)),
        (FindState::Prune { creating, found }, FindEvent::Pruned(Ok(pruned))) => {
            match flows::after_prune(creating, found, &pruned) {
                Ok(identity) => FindNext::Activate(FindState::Activate, identity),
                Err(e) => FindNext::Refused(e),
            }
        },
        (FindState::Activate, FindEvent::Identity(Err(e))) => FindNext::Refused(
            super::queue_error(e),
        ),
        (FindState::Activate, FindEvent::Identity(Ok(identity))) => {
            let pane_id = identity.pane_id.clone();
            let name = identity.name.clone();
            FindNext::Rename(FindState::Rename { identity }, pane_id, name)
        },
        (FindState::Rename { identity }, FindEvent::Renamed) => FindNext::Found(identity),
        _ => FindNext::OutOfStep,
    }
}

/// Some agent already has that name.
pub open spec fn name_taken(agents: Seq<AgentInfo>, name: Seq<char>) -> bool {
    exists|i: int| 0 <= i < agents.len() && flows::named(#[trigger] agents[i], name)
}

fn is_name_taken(agents: &Vec<AgentInfo>, name: &str) -> (r: bool)
    ensures
        r == name_taken(agents@, name@),
{
    let mut i: usize = 0;
    while i < agents.len()
        invariant
            i <= agents@.len(),
            forall|j: int| 0 <= j < i ==> !flows::named(#[trigger] agents@[j], name@),
        decreases agents@.len() - i,
    {
        if flows::has_name(&agents[i], name) {
            return true;
        }
        i += 1;
    }
    false
}

pub open spec fn has_key(env: Seq<(String, String)>, key: Seq<char>) -> bool {
    exists|i: int| 0 <= i < env.len() && (#[trigger] env[i]).0@ == key
}

/// `after` is `before` with `key` set to `value`.
pub open spec fn key_set(
    before: Seq<(String, String)>,
    after: Seq<(String, String)>,
    key: String,
    value: String,
) -> bool {
    if has_key(before, key@) {
        exists|i: int|
            0 <= i < before.len() && before[i].0@ == key@ && after == #[trigger] before.update(
                i,
                (key, value),
            )
    } else {
        after == before.push((key, value))
    }
}

/// The variables of `extra` are set one after the other.
pub open spec fn keys_set(
    before: Seq<(String, String)>,
    after: Seq<(String, String)>,
    extra: Seq<(String, String)>,
) -> bool
    decreases extra.len(),
{
    if extra.len() == 0 {
        after == before
    } else {
        exists|mid: Seq<(String, String)>|
            keys_set(before, mid, extra.drop_last()) && #[trigger] key_set(
                mid,
                after,
                extra.last().0,
                extra.last().1,
            )
    }
}

fn set_keys(env: Vec<(String, String)>, extra: &Vec<(String, String)>) -> (r: Vec<(String, String)>)
    ensures
        keys_set(env@, r@, extra@),
{
    let mut out = env;
    let mut i: usize = 0;
    proof {
        assert(extra@.take(0) =~= Seq::<(String, String)>::empty());
        assert(keys_set(env@, out@, extra@.take(0)));
    }
    while i < extra.len()
        invariant
            i <= extra@.len(),
            keys_set(env@, out@, extra@.take(i as int)),
        decreases extra@.len() - i,
    {
        let ghost mid = out@;
        let key = extra[i].0.clone();
        let value = extra[i].1.clone();
        assert(extra@.take(i as int + 1).drop_last() =~= extra@.take(i as int));
        assert(extra@.take(i as int + 1).last() == extra@[i as int]);
        let mut j: usize = 0;
        let mut at: Option<usize> = None;
        while j < out.len() && at.is_none()
            invariant
                j <= out@.len(),
                out@ == mid,
                match at {
                    Some(k) => k < mid.len() && mid[k as int].0@ == key@,
                    None => forall|k: int| 0 <= k < j ==> (#[trigger] mid[k]).0@ != key@,
                },
            decreases out@.len() - j,
        {
            if text::str_eq(out[j].0.as_str(), key.as_str()) {
                at = Some(j);
            }
            j += 1;
        }
        match at {
            Some(k) => {
                assert(mid[k as int].0@ == key@);
                out.set(k, (key, value));
                assert(out@ == mid.update(k as int, (key, value)));
            },
            None => {
                assert(!has_key(mid, key@));
                out.push((key, value));
            },
        }
        assert(key_set(mid, out@, key, value));
        assert(key_set(
            mid,
            out@,
            extra@.take(i as int + 1).last().0,
            extra@.take(i as int + 1).last().1,
        ));
        i += 1;
        assert(keys_set(env@, out@, extra@.take(i as int)));
    }
    assert(extra@.take(extra@.len() as int) =~= extra@);
    out
}

pub open spec fn split_of(s: McpSplit) -> SplitDirection {
    match s {
        McpSplit::Right => SplitDirection::Right,
        McpSplit::Down => SplitDirection::Down,
    }
}

/// The agent that a launch starts: under its marker, so that it can be found
/// again, with the channel in its environment.
pub open spec fn start_request(p: AgentStartParams, params: LaunchCliParams, handle: ChannelHandle) -> bool {
    &&& p.name == handle.launch_marker
    &&& p.peer is None
    &&& p.agent is None
    &&& p.cwd == Some(params.cwd)
    &&& p.workspace_id == params.workspace_id
    &&& p.tab_id == params.tab_id
    &&& p.split == Some(split_of(params.split))
    &&& !p.focus
    &&& p.argv == params.argv
    &&& keys_set(params.env@, p.env@, handle.env@)
    &&& p.transport is None
}

/// The identity of a CLI that was started as `agent`.
pub open spec fn launched(
    handle: ChannelHandle,
    agent: AgentInfo,
    name: Seq<char>,
    cwd: Seq<char>,
) -> IdentityView {
    IdentityView {
        cli_id: handle.cli_id@,
        pane_id: agent.pane_id@,
        terminal_id: agent.terminal_id@,
        workspace_id: agent.workspace_id@,
        tab_id: agent.tab_id@,
        name,
        cwd,
        state: CliState::Active,
        launch_marker: Some(handle.launch_marker@),
    }
}

/// Where launching a CLI stands.
pub enum LaunchState {
    /// The server was asked for its version.
    Version { params: LaunchCliParams },
    /// The server was asked for its agents.
    Agents { params: LaunchCliParams },
    /// Stale launches were to be pruned.
    Prune { params: LaunchCliParams, taken: bool },
    /// A channel was to be created.
    Channel { params: LaunchCliParams },
    /// The agent was to be started.
    Start { handle: ChannelHandle, name: String, cwd: String },
    /// The start was never answered; the launch was looked for.
    Unknown { cli_id: String, err: BridgeError },
    /// The channel was to be activated.
    Activate { handle: ChannelHandle, pane_id: String },
    /// The agent was to be given the name the caller chose for it.
    Rename { identity: CliIdentity },
}

pub enum LaunchEvent {
    Version(Result<(String, u32), BridgeError>),
    Agents(Result<Vec<AgentInfo>, BridgeError>),
    Pruned(Result<Vec<String>, QueueError>),
    Channel(Result<ChannelHandle, QueueError>),
    Reply(Result<Reply, BridgeError>),
    Found(Result<CliIdentity, BridgeError>),
    Identity(Result<CliIdentity, QueueError>),
    Renamed,
}

pub enum LaunchNext {
    ListAgents(LaunchState),
    Prune(LaunchState, Vec<String>),
    CreateChannel(LaunchState, String, String),
    StartAgent(LaunchState, AgentStartParams),
    /// Look for the launch among the agents.
    Find(LaunchState, String),
    Activate(LaunchState, CliIdentity),
    Rename(LaunchState, String, String),
    Launched(CliIdentity),
    /// Give the channel up, then answer.
    AbortAndRefuse(ChannelHandle, BridgeError),
    /// Close the pane, give the channel up, then answer.
    CloseAbortAndRefuse(ChannelHandle, String, BridgeError),
    Refused(BridgeError),
    OutOfStep,
}

/// The server may or may not have started the agent.
pub open spec fn outcome_unknown(err: BridgeError) -> bool {
    err.code@ == "server_timeout"@ || err.code@ == "server_unavailable"@
}

pub open spec fn name_refused(e: BridgeError, name: Seq<char>) -> bool {
    &&& super::is_bridge_error(
        e,
        "launch_rejected"@,
        "an agent named "@ + text::debug_text(name) + " already exists"@,
        false,
    )
    &&& (e.details matches Some(Details::Upstream { code, details }) && code@
        == "duplicate_agent_name"@ && details is None)
}

pub open spec fn launch_unknown(e: BridgeError, cli_id: String, err: BridgeError, found: BridgeError) -> bool {
    &&& super::is_bridge_error(e, "launch_rejected"@, err.message@, true)
    &&& e.details == Some(
        Details::LaunchUnknown {
            cli_id,
            upstream_code: err.code,
            upstream_details: super::boxed(err.details),
            code: found.code,
            message: found.message,
            retryable: found.retryable,
        },
    )
}

pub open spec fn launch_follows(state: LaunchState, event: LaunchEvent, next: LaunchNext) -> bool {
    match (state, event) {
        (LaunchState::Version { params }, LaunchEvent::Version(Ok((version, protocol)))) =>
            if protocol == super::REQUIRED_PROTOCOL {
            next == LaunchNext::ListAgents(LaunchState::Agents { params })
        } else {
            next matches LaunchNext::Refused(e) && super::incompatible(e, protocol, version)
        },
        (LaunchState::Version { params }, LaunchEvent::Version(Err(e))) => next
            == LaunchNext::Refused(e),
        (LaunchState::Agents { params }, LaunchEvent::Agents(Err(e))) => next
            == LaunchNext::Refused(e),
        (LaunchState::Agents { params }, LaunchEvent::Agents(Ok(agents))) => next
            matches LaunchNext::Prune(after, live) && text::views(live@) == flows::agent_names(
            agents@,
        ) && after == (LaunchState::Prune { params, taken: name_taken(agents@, params.name@) }),
        (LaunchState::Prune { params, taken }, LaunchEvent::Pruned(Err(e))) => next
            matches LaunchNext::Refused(b) && queue_refusal(b, e),
        (LaunchState::Prune { params, taken }, LaunchEvent::Pruned(Ok(_))) => if taken {
            next matches LaunchNext::Refused(e) && name_refused(e, params.name@)
        } else {
            next == LaunchNext::CreateChannel(
                LaunchState::Channel { params },
                params.name,
                params.cwd,
            )
        },
        (LaunchState::Channel { params }, LaunchEvent::Channel(Err(e))) => next
            matches LaunchNext::Refused(b) && queue_refusal(b, e),
        (LaunchState::Channel { params }, LaunchEvent::Channel(Ok(handle))) => next
            matches LaunchNext::StartAgent(after, request) && start_request(
            request,
            params,
            handle,
        ) && after == (LaunchState::Start { handle, name: params.name, cwd: params.cwd }),
        (LaunchState::Start { handle, name, cwd }, LaunchEvent::Reply(Ok(reply))) => match reply.value {
            ReplyValue::AgentStarted(agent) => next matches LaunchNext::Activate(after, identity)
                && identity@ == launched(handle, agent, name@, cwd@) && after == (
            LaunchState::Activate { handle, pane_id: agent.pane_id }),
            _ => next matches LaunchNext::AbortAndRefuse(h, e) && h == handle
                && super::is_unexpected(e, "agent.start"@, reply.text@),
        },
        (LaunchState::Start { handle, name, cwd }, LaunchEvent::Reply(Err(err))) =>
            if outcome_unknown(err) {
            next == LaunchNext::Find(
                LaunchState::Unknown { cli_id: handle.cli_id, err },
                handle.cli_id,
            )
        } else {
            next matches LaunchNext::AbortAndRefuse(h, e) && h == handle && super::remapped(
                err,
                "launch_rejected"@,
                e,
            )
        },
        (LaunchState::Unknown { cli_id, err }, LaunchEvent::Found(Ok(identity))) => next
            == LaunchNext::Launched(identity),
        (LaunchState::Unknown { cli_id, err }, LaunchEvent::Found(Err(found))) => next
            matches LaunchNext::Refused(e) && launch_unknown(e, cli_id, err, found),
        (LaunchState::Activate { handle, pane_id }, LaunchEvent::Identity(Ok(identity))) => next
            == LaunchNext::Rename(
            LaunchState::Rename { identity },
            identity.pane_id,
            identity.name,
        ),
        (LaunchState::Activate { handle, pane_id }, LaunchEvent::Identity(Err(e))) => next
            matches LaunchNext::CloseAbortAndRefuse(h, p, b) && h == handle && p == pane_id
            && queue_refusal(b, e),
        (LaunchState::Rename { identity }, LaunchEvent::Renamed) => next == LaunchNext::Launched(
            identity,
        ),
        _ => next == LaunchNext::OutOfStep,
    }
}

/// Launches a CLI and registers it. A launch whose outcome is unknown keeps its
/// channel; every other failure gives the channel up.
pub fn herdr_launch_cli(state: LaunchState, event: LaunchEvent) -> (next: LaunchNext)
    ensures
        launch_follows(state, event, next),
{
    match (state, event) {
        (LaunchState::Version { params }, LaunchEvent::Version(Ok((version, protocol)))) => {
            match super::require_compatible(version, protocol) {
                Ok(()) => LaunchNext::ListAgents(LaunchState::Agents { params }),
                Err(e) => LaunchNext::Refused(e),
            }
        },
        (LaunchState::Version { params: _ }, LaunchEvent::Version(Err(e))) => LaunchNext::Refused(e),
        (LaunchState::Agents { params: _ }, LaunchEvent::Agents(Err(e))) => LaunchNext::Refused(e),
        (LaunchState::Agents { params }, LaunchEvent::Agents(Ok(agents))) => {
            let live = flows::live_markers(&agents);
            let taken = is_name_taken(&agents, params.name.as_str());
            LaunchNext::Prune(LaunchState::Prune { params, taken }, live)
        },
        (LaunchState::Prune { params: _, taken: _ }, LaunchEvent::Pruned(Err(e))) =>
            LaunchNext::Refused(super::queue_error(e)),
        (LaunchState::Prune { params, taken }, LaunchEvent::Pruned(Ok(_))) => {
            if taken {
                let mut message = "an agent named ".to_string();
                message.append(text::quoted(params.name.as_str()).as_str());
                message.append(" already exists");
                LaunchNext::Refused(
                    BridgeError::new("launch_rejected", message.as_str(), false).with_details(
                        Details::Upstream {
                            code: "duplicate_agent_name".to_string(),
                            details: None,
                        },
                    ),
                )
            } else {
                let name = params.name.clone();
                let cwd = params.cwd.clone();
                LaunchNext::CreateChannel(LaunchState::Channel { params }, name, cwd)
            }
        },
        (LaunchState::Channel { params: _ }, LaunchEvent::Channel(Err(e))) => LaunchNext::Refused(
            super::queue_error(e),
        ),
        (LaunchState::Channel { params }, LaunchEvent::Channel(Ok(handle))) => {
            let split = match params.split {
                McpSplit::Right => SplitDirection::Right,
                McpSplit::Down => SplitDirection::Down,
            };
            let request = AgentStartParams {
                name: handle.launch_marker.clone(),
                peer: None,
                agent: None,
                cwd: Some(params.cwd.clone()),
                workspace_id: params.workspace_id,
                tab_id: params.tab_id,
                split: Some(split),
                focus: false,
                argv: params.argv,
                env: set_keys(params.env, &handle.env),
                transport: None,
            };
            LaunchNext::StartAgent(
                LaunchState::Start { handle, name: params.name, cwd: params.cwd },
                request,
            )
        },
        (LaunchState::Start { handle, name, cwd }, LaunchEvent::Reply(Ok(reply))) => {
            match reply.value {
                ReplyValue::AgentStarted(agent) => {
                    let identity = CliIdentity {
                        cli_id: handle.cli_id.clone(),
                        pane_id: agent.pane_id.clone(),
                        terminal_id: agent.terminal_id,
                        workspace_id: agent.workspace_id,
                        tab_id: agent.tab_id,
                        name,
                        cwd,
                        state: CliState::Active,
                        launch_marker: Some(handle.launch_marker.clone()),
                    };
                    LaunchNext::Activate(
                        LaunchState::Activate { handle, pane_id: agent.pane_id },
                        identity,
                    )
                },
                _ => LaunchNext::AbortAndRefuse(
                    handle,
                    super::unexpected_result("agent.start", reply.text.as_str()),
                ),
            }
        },
        (LaunchState::Start { handle, name: _, cwd: _ }, LaunchEvent::Reply(Err(err))) => {
            if text::str_eq(err.code.as_str(), "server_timeout") || text::str_eq(
                err.code.as_str(),
                "server_unavailable",
            ) {
                let cli_id = handle.cli_id.clone();
                LaunchNext::Find(LaunchState::Unknown { cli_id: handle.cli_id, err }, cli_id)
            } else {
                LaunchNext::AbortAndRefuse(handle, super::remap_rejection(err, "launch_rejected"))
            }
        },
        (LaunchState::Unknown { cli_id: _, err: _ }, LaunchEvent::Found(Ok(identity))) =>
            LaunchNext::Launched(identity),
        (LaunchState::Unknown { cli_id, err }, LaunchEvent::Found(Err(found))) => {
            LaunchNext::Refused(
                BridgeError::new("launch_rejected", err.message.as_str(), true).with_details(
                    Details::LaunchUnknown {
                        cli_id,
                        upstream_code: err.code,
                        upstream_details: super::boxed_details(err.details),
                        code: found.code,
                        message: found.message,
                        retryable: found.retryable,
                    },
                ),
            )
        },
        (LaunchState::Activate { handle: _, pane_id: _ }, LaunchEvent::Identity(Ok(identity))) => {
            let pane_id = identity.pane_id.clone();
            let name = identity.name.clone();
            LaunchNext::Rename(LaunchState::Rename { identity }, pane_id, name)
        },
        (LaunchState::Activate { handle, pane_id }, LaunchEvent::Identity(Err(e))) =>
            LaunchNext::CloseAbortAndRefuse(handle, pane_id, super::queue_error(e)),
        (LaunchState::Rename { identity }, LaunchEvent::Renamed) => LaunchNext::Launched(identity),
        _ => LaunchNext::OutOfStep,
    }
}

/// The bridge makes itself known to the server, and renews that as long as the
/// server knows it.
pub fn presence_request(client_id: &String, access_mode: AccessMode, registered: bool) -> (m: Method)
    ensures
        m == if registered {
            Method::ControlClientHeartbeat(ControlClientTarget { client_id: *client_id })
        } else {
            Method::ControlClientRegister(
                ControlClientRegisterParams {
                    client_id: *client_id,
                    kind: ControlClientKind::Mcp,
                    access_mode: match access_mode {
                        AccessMode::Restricted =>
                            crate::api::schema::common::ControlClientAccessMode::Restricted,
                        AccessMode::FullControl =>
                            crate::api::schema::common::ControlClientAccessMode::FullControl,
                    },
                },
            )
        },
{
    if registered {
        Method::ControlClientHeartbeat(ControlClientTarget { client_id: client_id.clone() })
    } else {
        Method::ControlClientRegister(
            ControlClientRegisterParams {
                client_id: client_id.clone(),
                kind: ControlClientKind::Mcp,
                access_mode: access_mode.schema_value(),
            },
        )
    }
}

/// The server knows the bridge once it answered with a status, and until it answers
/// with anything else or not at all.
pub fn is_registered(answer: &Result<String, BridgeError>) -> (r: bool)
    ensures
        r == (answer matches Ok(kind) && kind@ == "control_client_status"@),
{
    match answer {
        Ok(kind) => text::str_eq(kind.as_str(), "control_client_status"),
        Err(_) => false,
    }
}

} // verus!
