//! The local API: its vocabulary and the decisions made before a request
//! reaches the application.

pub mod peer_socket;
pub mod schema;
pub mod wait;

use vstd::prelude::*;
use vstd::string::*;

use schema::common::{Method, Request};

verus! {

/// What a server process knows of itself and its surroundings.
pub struct ServerEnv {
    pub api_socket_path: String,
    pub temp_dir: String,
    pub pid: u32,
    pub started_nanos: u128,
    /// The platform is a Unix.
    pub unix: bool,
}

/// Where the server listens for API requests.
pub fn socket_path(env: &ServerEnv) -> (r: String)
    ensures
        r == env.api_socket_path,
{
    env.api_socket_path.clone()
}

/// Where the server listens for its peers: on a path that fits into a socket
/// address and is not the API socket's.
pub fn peer_socket_path(env: &ServerEnv) -> (r: String)
    ensures
        peer_socket::is_usable(r@, env.api_socket_path@),
        r@ == peer_socket::derived_path(
            env.api_socket_path@,
            peer_socket::opaque_id(
                env.api_socket_path@,
                peer_socket::instance_id(env.pid, env.started_nanos),
            ),
            env.temp_dir@,
            env.unix,
        ),
{
    let instance = peer_socket::peer_socket_instance_id(env.pid, env.started_nanos);
    peer_socket::derive_peer_socket_path_with_temp_dir(
        socket_path(env).as_str(),
        instance.as_str(),
        env.temp_dir.as_str(),
        env.unix,
    )
}

/// The request may change what the user sees.
pub open spec fn changes_ui(m: Method) -> bool {
    ||| m is ServerReloadConfig
    ||| m is ServerReloadAgentManifests
    ||| m is NotificationShow
    ||| m is WorkspaceCreate
    ||| m is WorkspaceFocus
    ||| m is WorkspaceRename
    ||| m is WorkspaceMove
    ||| m is WorkspaceClose
    ||| m is WorktreeCreate
    ||| m is WorktreeOpen
    ||| m is WorktreeRemove
    ||| m is TabCreate
    ||| m is TabFocus
    ||| m is TabRename
    ||| m is TabMove
    ||| m is TabClose
    ||| m is LayoutApply
    ||| m is LayoutSetSplitRatio
    ||| m is AgentRename
    ||| m is AgentFocus
    ||| m is AgentStart
    ||| m is PeerAgentRename
    ||| m is PeerAgentStart
    ||| m is AgentAttachPrepare
    ||| m is TerminalDelegateCreate
    ||| m is TerminalDelegateClaim
    ||| m is TerminalDelegateTerminate
    ||| m is TerminalDelegateHandoff
    ||| m is TerminalDelegatePark
    ||| m is TerminalParkedResume
    ||| m is TerminalParkedResolve
    ||| m is TerminalParkedAdminResolve
    ||| m is RemoteResume
    ||| m is TerminalRecoveryRetry
    ||| m is TerminalRecoveryDiscard
    ||| m is PaneSplit
    ||| m is PaneSwap
    ||| m is PaneMove
    ||| m is PaneZoom
    ||| m is PaneFocusDirection
    ||| m is PaneResize
    ||| m is PaneFocus
    ||| m is PaneRename
    ||| m is PaneReportAgent
    ||| m is PaneReportAgentSession
    ||| m is PaneReportMetadata
    ||| m is PaneClearAgentAuthority
    ||| m is PaneReleaseAgent
    ||| m is PaneClose
    ||| m is PeerRegister
    ||| m is PeerConnectSsh
    ||| m is PeerDisconnectSsh
    ||| m is PeerPresentationActivate
    ||| m is PeerUnregister
    ||| m is PluginActionInvoke
    ||| m is PluginPaneOpen
    ||| m is PluginPaneFocus
    ||| m is PluginPaneClose
}

/// Whether the screen has to be drawn again after this request.
pub fn request_changes_ui(request: &Request) -> (r: bool)
    ensures
        r == changes_ui(request.method),
{
    matches!(
        &request.method,
        Method::ServerReloadConfig(_) | Method::ServerReloadAgentManifests(_)
            | Method::NotificationShow(_) | Method::WorkspaceCreate(_) | Method::WorkspaceFocus(_)
            | Method::WorkspaceRename(_) | Method::WorkspaceMove(_) | Method::WorkspaceClose(_)
            | Method::WorktreeCreate(_) | Method::WorktreeOpen(_) | Method::WorktreeRemove(_)
            | Method::TabCreate(_) | Method::TabFocus(_) | Method::TabRename(_) | Method::TabMove(_)
            | Method::TabClose(_) | Method::LayoutApply(_) | Method::LayoutSetSplitRatio(_)
            | Method::AgentRename(_) | Method::AgentFocus(_) | Method::AgentStart(_)
            | Method::PeerAgentRename(_) | Method::PeerAgentStart(_) | Method::AgentAttachPrepare(_)
            | Method::TerminalDelegateCreate(_) | Method::TerminalDelegateClaim(_)
            | Method::TerminalDelegateTerminate(_) | Method::TerminalDelegateHandoff(_)
            | Method::TerminalDelegatePark(_) | Method::TerminalParkedResume(_)
            | Method::TerminalParkedResolve(_) | Method::TerminalParkedAdminResolve(_)
            | Method::RemoteResume(_) | Method::TerminalRecoveryRetry(_)
            | Method::TerminalRecoveryDiscard(_) | Method::PaneSplit(_) | Method::PaneSwap(_)
            | Method::PaneMove(_) | Method::PaneZoom(_) | Method::PaneFocusDirection(_)
            | Method::PaneResize(_) | Method::PaneFocus(_) | Method::PaneRename(_)
            | Method::PaneReportAgent(_) | Method::PaneReportAgentSession(_)
            | Method::PaneReportMetadata(_) | Method::PaneClearAgentAuthority(_)
            | Method::PaneReleaseAgent(_) | Method::PaneClose(_) | Method::PeerRegister(_)
            | Method::PeerConnectSsh(_) | Method::PeerDisconnectSsh(_)
            | Method::PeerPresentationActivate(_) | Method::PeerUnregister(_)
            | Method::PluginActionInvoke(_) | Method::PluginPaneOpen(_) | Method::PluginPaneFocus(_)
            | Method::PluginPaneClose(_)
    )
}

/// A request that only looks, waits, sends text to a program or keeps a lease leaves what
/// the user sees as it is; every other one may change it.
pub proof fn lemma_looking_changes_nothing(m: Method)
    ensures
        changes_ui(m) <==> !(m is Ping || m is ServerLiveHandoff || m is SessionSnapshot
            || m is ClientWindowTitleSet || m is ClientWindowTitleClear || m is WorkspaceList
            || m is WorkspaceGet || m is WorktreeList || m is TabList || m is TabGet
            || m is LayoutExport || m is AgentList || m is AgentGet || m is AgentRead
            || m is AgentExplain || m is AgentSend || m is PeerAgentList || m is PeerAgentGet
            || m is PeerAgentRead || m is PeerAgentExplain || m is PeerAgentSend
            || m is TerminalDelegateStatus || m is TerminalParkedList
            || m is TerminalParkedAdminList || m is TerminalRecoveryList
            || m is TerminalRecoveryStatus || m is PaneList || m is PaneCurrent || m is PaneGet
            || m is PaneRead || m is PaneProcessInfo || m is PaneLayout || m is PaneNeighbor
            || m is PaneEdges || m is PaneSendInput || m is PaneWaitForOutput
            || m is PeerKeepaliveSsh || m is PeerList || m is PeerHealth || m is EventsWait
            || m is EventsSubscribe || m is ControlClientRegister || m is ControlClientHeartbeat
            || m is ControlClientUnregister),
{
}

} // verus!
