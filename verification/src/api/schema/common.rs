use vstd::prelude::*;
use vstd::string::*;

use super::agents::{
    AgentListParams, AgentReadParams, AgentRenameParams, AgentSendParams, AgentStartParams,
};
use super::peers::{
    AgentAttachPrepareParams, PeerConnectSshParams, PeerDisconnectSshParams, PeerKeepaliveSshParams,
    PeerRegisterParams, PeerTarget, RemoteResumeParams, TerminalDelegateClaimParams,
    TerminalDelegateCreateParams, TerminalDelegateHandoffParams, TerminalDelegateParkParams,
    TerminalDelegationTarget, TerminalParkedAdminListParams, TerminalParkedAdminResolveParams,
    TerminalParkedListParams, TerminalParkedResolveParams, TerminalParkedResumeParams,
};
use super::recovery::{TerminalRecoveryListParams, TerminalRecoveryTarget};
use super::server::{PingParams, ServerLiveHandoffParams};
use crate::json::Json;

verus! {

#[derive(Debug, Clone, Copy, PartialEq, Eq, Structural)]
pub enum ReadSource {
    Visible,
    Recent,
    RecentUnwrapped,
    Detection,
}

pub open spec fn source_name(source: ReadSource) -> Seq<char> {
    match source {
        ReadSource::Visible => "visible"@,
        ReadSource::Recent => "recent"@,
        ReadSource::RecentUnwrapped => "recent_unwrapped"@,
        ReadSource::Detection => "detection"@,
    }
}

impl ReadSource {
    pub fn wire_name(self) -> (r: &'static str)
        ensures
            r@ == source_name(self),
    {
        match self {
            ReadSource::Visible => "visible",
            ReadSource::Recent => "recent",
            ReadSource::RecentUnwrapped => "recent_unwrapped",
            ReadSource::Detection => "detection",
        }
    }
}

#[derive(Debug, Clone, Copy, PartialEq, Eq, Structural)]
pub enum ReadFormat {
    Text,
    Ansi,
}

pub open spec fn format_name(format: ReadFormat) -> Seq<char> {
    match format {
        ReadFormat::Text => "text"@,
        ReadFormat::Ansi => "ansi"@,
    }
}

impl ReadFormat {
    pub fn wire_name(self) -> (r: &'static str)
        ensures
            r@ == format_name(self),
    {
        match self {
            ReadFormat::Text => "text",
            ReadFormat::Ansi => "ansi",
        }
    }
}

#[derive(Debug, Clone, Copy, PartialEq, Eq, Structural)]
pub enum SplitDirection {
    Right,
    Down,
}

#[derive(Debug, Clone, Copy, PartialEq, Eq, Structural)]
pub enum AgentStatus {
    Idle,
    Working,
    Blocked,
    Done,
    Unknown,
}

#[derive(Debug, Clone, Copy, PartialEq, Eq, Structural)]
pub enum PaneAgentState {
    Idle,
    Working,
    Blocked,
    Unknown,
}

#[derive(Debug, Clone, Copy, PartialEq, Eq, Structural)]
pub enum ControlClientKind {
    Mcp,
}

#[derive(Debug, Clone, Copy, PartialEq, Eq, Structural)]
pub enum ControlClientAccessMode {
    Restricted,
    FullControl,
}

#[derive(Debug)]
pub enum OutputMatch {
    Substring { value: String },
    Regex { value: String },
}

#[derive(Debug)]
pub struct PaneTarget {
    pub pane_id: String,
}

#[derive(Debug)]
pub struct AgentTarget {
    pub target: String,
}

#[derive(Debug)]
pub struct PaneReadParams {
    pub pane_id: String,
    pub source: ReadSource,
    pub lines: Option<u32>,
    pub format: ReadFormat,
    pub strip_ansi: bool,
}

#[derive(Debug)]
pub struct PaneReadResult {
    pub pane_id: String,
    pub workspace_id: String,
    pub tab_id: String,
    pub source: ReadSource,
    pub format: ReadFormat,
    pub text: String,
    pub revision: u64,
    pub truncated: bool,
}

#[derive(Debug)]
pub struct PaneSendInputParams {
    pub pane_id: String,
    pub text: String,
    pub keys: Vec<String>,
}

#[derive(Debug)]
pub struct PaneProcessInfoParams {
    pub pane_id: Option<String>,
}

#[derive(Debug)]
pub struct PaneWaitForOutputParams {
    pub pane_id: String,
    pub source: ReadSource,
    pub lines: Option<u32>,
    pub matcher: OutputMatch,
    pub timeout_ms: Option<u64>,
    pub strip_ansi: bool,
}

/// What `events.wait` may be asked to wait for.
#[derive(Debug)]
pub enum EventMatch {
    PaneAgentStatusChanged { pane_id: String, agent_status: AgentStatus },
    PaneAgentStatusChangedAny { pane_id: String, agent_statuses: Vec<AgentStatus> },
    /// Any other kind of event.
    Other(Json),
}

#[derive(Debug)]
pub struct EventsWaitParams {
    pub match_event: EventMatch,
    pub timeout_ms: Option<u64>,
}

#[derive(Debug)]
pub enum Subscription {
    PaneAgentStatusChanged { pane_id: String, agent_status: Option<AgentStatus> },
}

#[derive(Debug)]
pub struct EventsSubscribeParams {
    pub subscriptions: Vec<Subscription>,
}

#[derive(Debug)]
pub struct TabCreateParams {
    pub workspace_id: Option<String>,
    pub cwd: Option<String>,
    pub focus: bool,
    pub label: Option<String>,
    pub env: Vec<(String, String)>,
}

#[derive(Debug)]
pub struct ClientWindowTitleSetParams {
    pub title: String,
}

#[derive(Debug)]
pub struct ControlClientTarget {
    pub client_id: String,
}

#[derive(Debug)]
pub struct ControlClientRegisterParams {
    pub client_id: String,
    pub kind: ControlClientKind,
    pub access_mode: ControlClientAccessMode,
}

/// How many clients control the server.
#[derive(Debug, Clone, Copy, PartialEq, Eq, Structural)]
pub struct ControlClientStatus {
    pub total_count: u32,
    pub restricted_count: u32,
    pub full_control_count: u32,
}

impl Default for ControlClientStatus {
    fn default() -> (r: Self)
        ensures
            r == (ControlClientStatus {
                total_count: 0,
                restricted_count: 0,
                full_control_count: 0,
            }),
    {
        ControlClientStatus { total_count: 0, restricted_count: 0, full_control_count: 0 }
    }
}

#[derive(Debug)]
pub struct ErrorBody {
    pub code: String,
    pub message: String,
}

impl View for ErrorBody {
    type V = (Seq<char>, Seq<char>);

    /// The code and the message.
    open spec fn view(&self) -> (Seq<char>, Seq<char>) {
        (self.code@, self.message@)
    }
}

impl ErrorBody {
    pub fn new(code: &str, message: &str) -> (r: ErrorBody)
        ensures
            r@ == (code@, message@),
    {
        ErrorBody { code: code.to_string(), message: message.to_string() }
    }
}

#[derive(Debug)]
pub struct ErrorResponse {
    pub id: String,
    pub error: ErrorBody,
}

impl ErrorResponse {
    pub fn new(id: &str, code: &str, message: &str) -> (r: ErrorResponse)
        ensures
            is_error(r, id@, code@, message@),
    {
        ErrorResponse {
            id: id.to_string(),
            error: ErrorBody { code: code.to_string(), message: message.to_string() },
        }
    }
}

pub open spec fn is_error(
    r: ErrorResponse,
    id: Seq<char>,
    code: Seq<char>,
    message: Seq<char>,
) -> bool {
    r.id@ == id && r.error.code@ == code && r.error.message@ == message
}

/// An API method with its parameters. Parameters that no decision reads are
/// carried as they came.
pub enum Method {
    Ping(PingParams),
    ServerReloadConfig(Json),
    ServerReloadAgentManifests(Json),
    ServerLiveHandoff(ServerLiveHandoffParams),
    NotificationShow(Json),
    SessionSnapshot(Json),
    ClientWindowTitleSet(ClientWindowTitleSetParams),
    ClientWindowTitleClear(Json),
    WorkspaceList(Json),
    WorkspaceGet(Json),
    WorkspaceCreate(Json),
    WorkspaceFocus(Json),
    WorkspaceRename(Json),
    WorkspaceMove(Json),
    WorkspaceClose(Json),
    WorktreeList(Json),
    WorktreeCreate(Json),
    WorktreeOpen(Json),
    WorktreeRemove(Json),
    TabList(Json),
    TabGet(Json),
    TabCreate(TabCreateParams),
    TabFocus(Json),
    TabRename(Json),
    TabMove(Json),
    TabClose(Json),
    LayoutExport(Json),
    LayoutApply(Json),
    LayoutSetSplitRatio(Json),
    AgentList(AgentListParams),
    AgentGet(AgentTarget),
    AgentRead(AgentReadParams),
    AgentExplain(AgentTarget),
    AgentSend(AgentSendParams),
    AgentRename(AgentRenameParams),
    AgentFocus(AgentTarget),
    AgentStart(AgentStartParams),
    AgentAttachPrepare(AgentAttachPrepareParams),
    PeerAgentList(Json),
    PeerAgentGet(AgentTarget),
    PeerAgentRead(AgentReadParams),
    PeerAgentExplain(AgentTarget),
    PeerAgentSend(AgentSendParams),
    PeerAgentRename(AgentRenameParams),
    PeerAgentStart(AgentStartParams),
    TerminalDelegateCreate(TerminalDelegateCreateParams),
    TerminalDelegateClaim(TerminalDelegateClaimParams),
    TerminalDelegateStatus(TerminalDelegationTarget),
    TerminalDelegateTerminate(TerminalDelegationTarget),
    TerminalDelegateHandoff(TerminalDelegateHandoffParams),
    TerminalDelegatePark(TerminalDelegateParkParams),
    TerminalParkedResume(TerminalParkedResumeParams),
    TerminalParkedList(TerminalParkedListParams),
    TerminalParkedResolve(TerminalParkedResolveParams),
    TerminalParkedAdminList(TerminalParkedAdminListParams),
    TerminalParkedAdminResolve(TerminalParkedAdminResolveParams),
    RemoteResume(RemoteResumeParams),
    TerminalRecoveryList(TerminalRecoveryListParams),
    TerminalRecoveryStatus(TerminalRecoveryTarget),
    TerminalRecoveryRetry(TerminalRecoveryTarget),
    TerminalRecoveryDiscard(TerminalRecoveryTarget),
    PaneList(Json),
    PaneCurrent(Json),
    PaneGet(PaneTarget),
    PaneRead(PaneReadParams),
    PaneProcessInfo(PaneProcessInfoParams),
    PaneLayout(Json),
    PaneNeighbor(Json),
    PaneEdges(Json),
    PaneSplit(Json),
    PaneSwap(Json),
    PaneMove(Json),
    PaneZoom(Json),
    PaneFocusDirection(Json),
    PaneResize(Json),
    PaneFocus(PaneTarget),
    PaneRename(Json),
    PaneSendInput(PaneSendInputParams),
    PaneWaitForOutput(PaneWaitForOutputParams),
    PaneReportAgent(Json),
    PaneReportAgentSession(Json),
    PaneReportMetadata(Json),
    PaneClearAgentAuthority(Json),
    PaneReleaseAgent(Json),
    PaneClose(PaneTarget),
    PeerRegister(PeerRegisterParams),
    PeerConnectSsh(PeerConnectSshParams),
    PeerDisconnectSsh(PeerDisconnectSshParams),
    PeerKeepaliveSsh(PeerKeepaliveSshParams),
    PeerPresentationActivate(TerminalDelegationTarget),
    PeerUnregister(PeerTarget),
    PeerList(Json),
    PeerHealth(PeerTarget),
    PluginActionInvoke(Json),
    PluginPaneOpen(Json),
    PluginPaneFocus(Json),
    PluginPaneClose(Json),
    EventsWait(EventsWaitParams),
    EventsSubscribe(EventsSubscribeParams),
    ControlClientRegister(ControlClientRegisterParams),
    ControlClientHeartbeat(ControlClientTarget),
    ControlClientUnregister(ControlClientTarget),
}

pub struct Request {
    pub id: String,
    pub method: Method,
}

/// A request on its way to the application, with the number under which its
/// answer is awaited.
pub struct ApiRequestMessage {
    pub request: Request,
    pub respond_to: u64,
}

} // verus!
