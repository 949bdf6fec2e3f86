//! Control tools: what each action becomes on the API.

use vstd::prelude::*;
use vstd::string::*;

use super::validate::{self, InvalidParams};
use crate::api::schema::agents::{
    AgentListParams, AgentReadParams, AgentRenameParams, AgentSendParams, AgentStartParams,
};
use crate::api::schema::common::{
    AgentTarget, EventsWaitParams, Method, PaneProcessInfoParams, PaneReadParams,
    PaneSendInputParams, PaneTarget, PaneWaitForOutputParams, TabCreateParams,
};
use crate::api::schema::peers::{PeerConnectSshParams, PeerDisconnectSshParams, PeerTarget};
use crate::api::schema::recovery::{TerminalRecoveryListParams, TerminalRecoveryTarget};
use crate::json::Json;

verus! {

/// Added to a wait's own timeout before the bridge gives up on the server.
pub const WAIT_ENVELOPE_MS: u64 = 5_000;

pub enum InspectParams {
    WorkspaceList(Json),
    WorkspaceGet(Json),
    TabList(Json),
    TabGet(Json),
    PaneList(Json),
    PaneCurrent(Json),
    PaneGet(PaneTarget),
    PaneRead(PaneReadParams),
    PaneProcessInfo(PaneProcessInfoParams),
    PaneLayout(Json),
    PaneNeighbor(Json),
    PaneEdges(Json),
    LayoutExport(Json),
    AgentList(AgentListParams),
    AgentGet(AgentTarget),
    AgentRead(AgentReadParams),
    AgentExplain(AgentTarget),
    WorktreeList(Json),
    PeerList(Json),
    PeerHealth(PeerTarget),
    RemoteAgentList(Json),
    RemoteAgentGet(AgentTarget),
    RemoteAgentRead(AgentReadParams),
    RemoteAgentExplain(AgentTarget),
    RecoveryList(TerminalRecoveryListParams),
    RecoveryStatus(TerminalRecoveryTarget),
}

/// The method that an inspection asks for.
pub open spec fn inspect_method(p: InspectParams) -> Method {
    match p {
        InspectParams::WorkspaceList(x) => Method::WorkspaceList(x),
        InspectParams::WorkspaceGet(x) => Method::WorkspaceGet(x),
        InspectParams::TabList(x) => Method::TabList(x),
        InspectParams::TabGet(x) => Method::TabGet(x),
        InspectParams::PaneList(x) => Method::PaneList(x),
        InspectParams::PaneCurrent(x) => Method::PaneCurrent(x),
        InspectParams::PaneGet(x) => Method::PaneGet(x),
        InspectParams::PaneRead(x) => Method::PaneRead(x),
        InspectParams::PaneProcessInfo(x) => Method::PaneProcessInfo(x),
        InspectParams::PaneLayout(x) => Method::PaneLayout(x),
        InspectParams::PaneNeighbor(x) => Method::PaneNeighbor(x),
        InspectParams::PaneEdges(x) => Method::PaneEdges(x),
        InspectParams::LayoutExport(x) => Method::LayoutExport(x),
        InspectParams::AgentList(x) => Method::AgentList(x),
        InspectParams::AgentGet(x) => Method::AgentGet(x),
        InspectParams::AgentRead(x) => Method::AgentRead(x),
        InspectParams::AgentExplain(x) => Method::AgentExplain(x),
        InspectParams::WorktreeList(x) => Method::WorktreeList(x),
        InspectParams::PeerList(x) => Method::PeerList(x),
        InspectParams::PeerHealth(x) => Method::PeerHealth(x),
        InspectParams::RemoteAgentList(_) => Method::AgentList(
            AgentListParams { include_peers: true },
        ),
        InspectParams::RemoteAgentGet(x) => Method::AgentGet(x),
        InspectParams::RemoteAgentRead(x) => Method::AgentRead(x),
        InspectParams::RemoteAgentExplain(x) => Method::AgentExplain(x),
        InspectParams::RecoveryList(x) => Method::TerminalRecoveryList(x),
        InspectParams::RecoveryStatus(x) => Method::TerminalRecoveryStatus(x),
    }
}

/// What is wrong with the agent that an inspection names.
pub open spec fn inspect_target_complaint(p: InspectParams) -> Option<Seq<char>> {
    match p {
        InspectParams::AgentGet(x) => validate::local_target_complaint(x.target@),
        InspectParams::AgentRead(x) => validate::local_target_complaint(x.target@),
        InspectParams::AgentExplain(x) => validate::local_target_complaint(x.target@),
        InspectParams::RemoteAgentGet(x) => validate::remote_target_complaint(x.target@),
        InspectParams::RemoteAgentRead(x) => validate::remote_target_complaint(x.target@),
        InspectParams::RemoteAgentExplain(x) => validate::remote_target_complaint(x.target@),
        _ => None,
    }
}

/// A target that is refused, else a method that is refused, else the method.
pub open spec fn checked(
    r: Result<Method, InvalidParams>,
    target_complaint: Option<Seq<char>>,
    method: Method,
) -> bool {
    if target_complaint is Some {
        validate::complaint(r) == target_complaint
    } else if validate::control_complaint(method) is Some {
        validate::complaint(r) == validate::control_complaint(method)
    } else {
        r == Ok::<Method, InvalidParams>(method)
    }
}

fn check_target(target: &str, remote: bool) -> (r: Result<(), InvalidParams>)
    ensures
        validate::complaint(r) == if remote {
            validate::remote_target_complaint(target@)
        } else {
            validate::local_target_complaint(target@)
        },
{
    if remote {
        validate::validate_remote_agent_target(target)
    } else {
        validate::validate_local_agent_target(target)
    }
}

fn check_method(method: Method) -> (r: Result<Method, InvalidParams>)
    ensures
        checked(r, None, method),
{
    match validate::validate_control_method(&method) {
        Ok(()) => Ok(method),
        Err(e) => Err(e),
    }
}

impl InspectParams {
    pub fn into_method(self) -> (r: Result<Method, InvalidParams>)
        ensures
            checked(r, inspect_target_complaint(self), inspect_method(self)),
    {
        let target = match &self {
            InspectParams::AgentGet(x) => check_target(x.target.as_str(), false),
            InspectParams::AgentRead(x) => check_target(x.target.as_str(), false),
            InspectParams::AgentExplain(x) => check_target(x.target.as_str(), false),
            InspectParams::RemoteAgentGet(x) => check_target(x.target.as_str(), true),
            InspectParams::RemoteAgentRead(x) => check_target(x.target.as_str(), true),
            InspectParams::RemoteAgentExplain(x) => check_target(x.target.as_str(), true),
            _ => Ok(()),
        };
        match target {
            Ok(()) => {},
            Err(e) => return Err(e),
        }
        let method = match self {
            InspectParams::WorkspaceList(x) => Method::WorkspaceList(x),
            InspectParams::WorkspaceGet(x) => Method::WorkspaceGet(x),
            InspectParams::TabList(x) => Method::TabList(x),
            InspectParams::TabGet(x) => Method::TabGet(x),
            InspectParams::PaneList(x) => Method::PaneList(x),
            InspectParams::PaneCurrent(x) => Method::PaneCurrent(x),
            InspectParams::PaneGet(x) => Method::PaneGet(x),
            InspectParams::PaneRead(x) => Method::PaneRead(x),
            InspectParams::PaneProcessInfo(x) => Method::PaneProcessInfo(x),
            InspectParams::PaneLayout(x) => Method::PaneLayout(x),
            InspectParams::PaneNeighbor(x) => Method::PaneNeighbor(x),
            InspectParams::PaneEdges(x) => Method::PaneEdges(x),
            InspectParams::LayoutExport(x) => Method::LayoutExport(x),
            InspectParams::AgentList(x) => Method::AgentList(x),
            InspectParams::AgentGet(x) => Method::AgentGet(x),
            InspectParams::AgentRead(x) => Method::AgentRead(x),
            InspectParams::AgentExplain(x) => Method::AgentExplain(x),
            InspectParams::WorktreeList(x) => Method::WorktreeList(x),
            InspectParams::PeerList(x) => Method::PeerList(x),
            InspectParams::PeerHealth(x) => Method::PeerHealth(x),
            InspectParams::RemoteAgentList(_) => Method::AgentList(
                AgentListParams { include_peers: true },
            ),
            InspectParams::RemoteAgentGet(x) => Method::AgentGet(x),
            InspectParams::RemoteAgentRead(x) => Method::AgentRead(x),
            InspectParams::RemoteAgentExplain(x) => Method::AgentExplain(x),
            InspectParams::RecoveryList(x) => Method::TerminalRecoveryList(x),
            InspectParams::RecoveryStatus(x) => Method::TerminalRecoveryStatus(x),
        };
        check_method(method)
    }
}

pub enum WaitParams {
    Event(EventsWaitParams),
    PaneOutput(PaneWaitForOutputParams),
}

pub open spec fn wait_timeout(p: WaitParams) -> Option<u64> {
    match p {
        WaitParams::Event(x) => x.timeout_ms,
        WaitParams::PaneOutput(x) => x.timeout_ms,
    }
}

/// The wait with its timeout filled in.
pub open spec fn wait_method(p: WaitParams, timeout_ms: u64) -> Method {
    match p {
        WaitParams::Event(x) => Method::EventsWait(
            EventsWaitParams { timeout_ms: Some(timeout_ms), ..x },
        ),
        WaitParams::PaneOutput(x) => Method::PaneWaitForOutput(
            PaneWaitForOutputParams { timeout_ms: Some(timeout_ms), ..x },
        ),
    }
}

pub open spec fn wait_match_complaint(p: WaitParams) -> Option<Seq<char>> {
    match p {
        WaitParams::Event(_) => None,
        WaitParams::PaneOutput(x) => validate::nonempty_complaint(
            "match value"@,
            validate::match_value(x.matcher),
            8192,
        ),
    }
}

impl WaitParams {
    /// The method, and how long the bridge waits for its answer.
    pub fn into_method(self) -> (r: Result<(Method, u64), InvalidParams>)
        ensures
            ({
                let ms = match wait_timeout(self) {
                    Some(ms) => ms,
                    None => validate::DEFAULT_WAIT_MS,
                };
                if !(1 <= ms <= validate::MAX_WAIT_MS) {
                    validate::complaint(r) == Some("timeout_ms must be between 1 and 600000"@)
                } else if wait_match_complaint(self) is Some {
                    validate::complaint(r) == wait_match_complaint(self)
                } else if validate::control_complaint(wait_method(self, ms)) is Some {
                    validate::complaint(r) == validate::control_complaint(wait_method(self, ms))
                } else {
                    r == Ok::<(Method, u64), InvalidParams>(
                        (wait_method(self, ms), (ms + WAIT_ENVELOPE_MS) as u64),
                    )
                }
            }),
    {
        let wanted = match &self {
            WaitParams::Event(x) => x.timeout_ms,
            WaitParams::PaneOutput(x) => x.timeout_ms,
        };
        let ms: u64 = match validate::normalize_wait_timeout(wanted) {
            Ok(ms) => ms,
            Err(e) => return Err(e),
        };
        let method = match self {
            WaitParams::Event(x) => Method::EventsWait(
                EventsWaitParams { timeout_ms: Some(ms), ..x },
            ),
            WaitParams::PaneOutput(x) => {
                match validate::validate_output_match(&x.matcher) {
                    Ok(()) => {},
                    Err(e) => return Err(e),
                }
                Method::PaneWaitForOutput(PaneWaitForOutputParams { timeout_ms: Some(ms), ..x })
            },
        };
        match check_method(method) {
            Ok(method) => Ok((method, ms + WAIT_ENVELOPE_MS)),
            Err(e) => Err(e),
        }
    }
}

pub enum WorkspaceControlParams {
    Create(Json),
    Focus(Json),
    Rename(Json),
    Move(Json),
}

/// The method that a change of a workspace asks for.
pub open spec fn workspace_method(p: WorkspaceControlParams) -> Method {
    match p {
        WorkspaceControlParams::Create(x) => Method::WorkspaceCreate(x),
        WorkspaceControlParams::Focus(x) => Method::WorkspaceFocus(x),
        WorkspaceControlParams::Rename(x) => Method::WorkspaceRename(x),
        WorkspaceControlParams::Move(x) => Method::WorkspaceMove(x),
    }
}

impl WorkspaceControlParams {
    pub fn into_method(self) -> (r: Method)
        ensures
            r == workspace_method(self),
    {
        match self {
            WorkspaceControlParams::Create(x) => Method::WorkspaceCreate(x),
            WorkspaceControlParams::Focus(x) => Method::WorkspaceFocus(x),
            WorkspaceControlParams::Rename(x) => Method::WorkspaceRename(x),
            WorkspaceControlParams::Move(x) => Method::WorkspaceMove(x),
        }
    }
}

pub enum TabControlParams {
    Create(TabCreateParams),
    Focus(Json),
    Rename(Json),
    Move(Json),
}

/// The method that a change of a tab asks for.
pub open spec fn tab_method(p: TabControlParams) -> Method {
    match p {
        TabControlParams::Create(x) => Method::TabCreate(x),
        TabControlParams::Focus(x) => Method::TabFocus(x),
        TabControlParams::Rename(x) => Method::TabRename(x),
        TabControlParams::Move(x) => Method::TabMove(x),
    }
}

impl TabControlParams {
    pub fn into_method(self) -> (r: Method)
        ensures
            r == tab_method(self),
    {
        match self {
            TabControlParams::Create(x) => Method::TabCreate(x),
            TabControlParams::Focus(x) => Method::TabFocus(x),
            TabControlParams::Rename(x) => Method::TabRename(x),
            TabControlParams::Move(x) => Method::TabMove(x),
        }
    }
}

pub enum PaneControlParams {
    Split(Json),
    Swap(Json),
    Move(Json),
    Zoom(Json),
    Focus(PaneTarget),
    FocusDirection(Json),
    Resize(Json),
    Rename(Json),
    SendInput(PaneSendInputParams),
}

pub open spec fn pane_method(p: PaneControlParams) -> Method {
    match p {
        PaneControlParams::Split(x) => Method::PaneSplit(x),
        PaneControlParams::Swap(x) => Method::PaneSwap(x),
        PaneControlParams::Move(x) => Method::PaneMove(x),
        PaneControlParams::Zoom(x) => Method::PaneZoom(x),
        PaneControlParams::Focus(x) => Method::PaneFocus(x),
        PaneControlParams::FocusDirection(x) => Method::PaneFocusDirection(x),
        PaneControlParams::Resize(x) => Method::PaneResize(x),
        PaneControlParams::Rename(x) => Method::PaneRename(x),
        PaneControlParams::SendInput(x) => Method::PaneSendInput(x),
    }
}

impl PaneControlParams {
    pub fn into_method(self) -> (r: Result<Method, InvalidParams>)
        ensures
            checked(r, None, pane_method(self)),
    {
        let method = match self {
            PaneControlParams::Split(x) => Method::PaneSplit(x),
            PaneControlParams::Swap(x) => Method::PaneSwap(x),
            PaneControlParams::Move(x) => Method::PaneMove(x),
            PaneControlParams::Zoom(x) => Method::PaneZoom(x),
            PaneControlParams::Focus(x) => Method::PaneFocus(x),
            PaneControlParams::FocusDirection(x) => Method::PaneFocusDirection(x),
            PaneControlParams::Resize(x) => Method::PaneResize(x),
            PaneControlParams::Rename(x) => Method::PaneRename(x),
            PaneControlParams::SendInput(x) => Method::PaneSendInput(x),
        };
        check_method(method)
    }
}

pub enum LayoutControlParams {
    Apply(Json),
    SetSplitRatio(Json),
}

/// The method that a change of a layout asks for.
pub open spec fn layout_method(p: LayoutControlParams) -> Method {
    match p {
        LayoutControlParams::Apply(x) => Method::LayoutApply(x),
        LayoutControlParams::SetSplitRatio(x) => Method::LayoutSetSplitRatio(x),
    }
}

impl LayoutControlParams {
    pub fn into_method(self) -> (r: Method)
        ensures
            r == layout_method(self),
    {
        match self {
            LayoutControlParams::Apply(x) => Method::LayoutApply(x),
            LayoutControlParams::SetSplitRatio(x) => Method::LayoutSetSplitRatio(x),
        }
    }
}

pub enum AgentControlParams {
    Send(AgentSendParams),
    Rename(AgentRenameParams),
    Focus(AgentTarget),
    Start(Box<AgentStartParams>),
}

pub open spec fn agent_method(p: AgentControlParams) -> Method {
    match p {
        AgentControlParams::Send(x) => Method::AgentSend(x),
        AgentControlParams::Rename(x) => Method::AgentRename(x),
        AgentControlParams::Focus(x) => Method::AgentFocus(x),
        AgentControlParams::Start(x) => Method::AgentStart(*x),
    }
}

pub open spec fn agent_complaint(p: AgentControlParams, cwd_is_dir: bool) -> Option<Seq<char>> {
    match p {
        AgentControlParams::Send(x) => validate::local_target_complaint(x.target@),
        AgentControlParams::Rename(x) => validate::local_target_complaint(x.target@),
        AgentControlParams::Focus(x) => validate::local_target_complaint(x.target@),
        AgentControlParams::Start(x) => validate::start_complaint(*x, false, cwd_is_dir),
    }
}

impl AgentControlParams {
    pub fn into_method(self, cwd_is_dir: bool) -> (r: Result<Method, InvalidParams>)
        ensures
            checked(r, agent_complaint(self, cwd_is_dir), agent_method(self)),
    {
        let subject = match &self {
            AgentControlParams::Send(x) => check_target(x.target.as_str(), false),
            AgentControlParams::Rename(x) => check_target(x.target.as_str(), false),
            AgentControlParams::Focus(x) => check_target(x.target.as_str(), false),
            AgentControlParams::Start(x) => validate::validate_agent_start(x, false, cwd_is_dir),
        };
        match subject {
            Ok(()) => {},
            Err(e) => return Err(e),
        }
        let method = match self {
            AgentControlParams::Send(x) => Method::AgentSend(x),
            AgentControlParams::Rename(x) => Method::AgentRename(x),
            AgentControlParams::Focus(x) => Method::AgentFocus(x),
            AgentControlParams::Start(x) => Method::AgentStart(*x),
        };
        check_method(method)
    }
}

pub enum WorktreeControlParams {
    Create(Json),
    Open(Json),
}

/// The method that work on a worktree asks for.
pub open spec fn worktree_method(p: WorktreeControlParams) -> Method {
    match p {
        WorktreeControlParams::Create(x) => Method::WorktreeCreate(x),
        WorktreeControlParams::Open(x) => Method::WorktreeOpen(x),
    }
}

impl WorktreeControlParams {
    pub fn into_method(self) -> (r: Method)
        ensures
            r == worktree_method(self),
    {
        match self {
            WorktreeControlParams::Create(x) => Method::WorktreeCreate(x),
            WorktreeControlParams::Open(x) => Method::WorktreeOpen(x),
        }
    }
}

pub enum PeerControlParams {
    ConnectSsh(PeerConnectSshParams),
    DisconnectSsh(PeerDisconnectSshParams),
    SendAgent(AgentSendParams),
    RenameAgent(AgentRenameParams),
    StartAgent(AgentStartParams),
}

pub open spec fn peer_method(p: PeerControlParams) -> Method {
    match p {
        PeerControlParams::ConnectSsh(x) => Method::PeerConnectSsh(x),
        PeerControlParams::DisconnectSsh(x) => Method::PeerDisconnectSsh(x),
        PeerControlParams::SendAgent(x) => Method::AgentSend(x),
        PeerControlParams::RenameAgent(x) => Method::AgentRename(x),
        PeerControlParams::StartAgent(x) => Method::AgentStart(x),
    }
}

pub open spec fn peer_complaint(p: PeerControlParams) -> Option<Seq<char>> {
    match p {
        PeerControlParams::SendAgent(x) => validate::remote_target_complaint(x.target@),
        PeerControlParams::RenameAgent(x) => validate::remote_target_complaint(x.target@),
        PeerControlParams::StartAgent(x) => validate::start_complaint(x, true, false),
        _ => None,
    }
}

impl PeerControlParams {
    pub fn into_method(self) -> (r: Result<Method, InvalidParams>)
        ensures
            checked(r, peer_complaint(self), peer_method(self)),
    {
        let subject = match &self {
            PeerControlParams::SendAgent(x) => check_target(x.target.as_str(), true),
            PeerControlParams::RenameAgent(x) => check_target(x.target.as_str(), true),
            PeerControlParams::StartAgent(x) => validate::validate_agent_start(x, true, false),
            _ => Ok(()),
        };
        match subject {
            Ok(()) => {},
            Err(e) => return Err(e),
        }
        let method = match self {
            PeerControlParams::ConnectSsh(x) => Method::PeerConnectSsh(x),
            PeerControlParams::DisconnectSsh(x) => Method::PeerDisconnectSsh(x),
            PeerControlParams::SendAgent(x) => Method::AgentSend(x),
            PeerControlParams::RenameAgent(x) => Method::AgentRename(x),
            PeerControlParams::StartAgent(x) => Method::AgentStart(x),
        };
        check_method(method)
    }
}

pub enum RecoveryControlParams {
    Retry(TerminalRecoveryTarget),
}

impl RecoveryControlParams {
    pub fn into_method(self) -> (r: Method)
        ensures
            self matches RecoveryControlParams::Retry(x) && r == Method::TerminalRecoveryRetry(x),
    {
        match self {
            RecoveryControlParams::Retry(x) => Method::TerminalRecoveryRetry(x),
        }
    }
}

pub enum DestructiveActionParams {
    CloseWorkspace(Json),
    CloseTab(Json),
    ClosePane(PaneTarget),
    RemoveWorktree(Json),
    RemovePeer(PeerTarget),
    DiscardRecovery(TerminalRecoveryTarget),
}

/// The method that a destructive action asks for.
pub open spec fn destructive_method(p: DestructiveActionParams) -> Method {
    match p {
        DestructiveActionParams::CloseWorkspace(x) => Method::WorkspaceClose(x),
        DestructiveActionParams::CloseTab(x) => Method::TabClose(x),
        DestructiveActionParams::ClosePane(x) => Method::PaneClose(x),
        DestructiveActionParams::RemoveWorktree(x) => Method::WorktreeRemove(x),
        DestructiveActionParams::RemovePeer(x) => Method::PeerUnregister(x),
        DestructiveActionParams::DiscardRecovery(x) => Method::TerminalRecoveryDiscard(x),
    }
}

impl DestructiveActionParams {
    pub fn into_method(self) -> (r: Method)
        ensures
            r == destructive_method(self),
    {
        match self {
            DestructiveActionParams::CloseWorkspace(x) => Method::WorkspaceClose(x),
            DestructiveActionParams::CloseTab(x) => Method::TabClose(x),
            DestructiveActionParams::ClosePane(x) => Method::PaneClose(x),
            DestructiveActionParams::RemoveWorktree(x) => Method::WorktreeRemove(x),
            DestructiveActionParams::RemovePeer(x) => Method::PeerUnregister(x),
            DestructiveActionParams::DiscardRecovery(x) => Method::TerminalRecoveryDiscard(x),
        }
    }
}

/// How large an answer to this method may be.
pub fn control_result_limit(method: &Method) -> (r: usize)
    ensures
        r == if *method is PaneRead || *method is AgentRead || *method is PaneWaitForOutput {
            super::PANE_READ_MAX_BYTES
        } else {
            super::CONTROL_RESULT_MAX_BYTES
        },
{
    match method {
        Method::PaneRead(_) => super::PANE_READ_MAX_BYTES,
        Method::AgentRead(_) => super::PANE_READ_MAX_BYTES,
        Method::PaneWaitForOutput(_) => super::PANE_READ_MAX_BYTES,
        _ => super::CONTROL_RESULT_MAX_BYTES,
    }
}

} // verus!
