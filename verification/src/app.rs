//! The application: its terminals, and the peers they are shared with.
//!
//! Terminals, panes and connections are known here by their ids. What is to be
//! done to the processes and sockets behind them is listed as effects, which the
//! caller carries out in order.

pub mod api;
pub mod claims;
pub mod control_clients;
pub mod dwindling;
pub mod endings;
pub mod handed_back;
pub mod handoff;
pub mod laws;
pub mod leasing;
pub mod leaving;
pub mod letting_go;
pub mod linking;
pub mod list;
pub mod owners;
pub mod owning;
pub mod peer_agents;
pub mod presenting;
pub mod release;
pub mod remote_presentations;
pub mod remote_resume;
pub mod resumption;
pub mod returning;
pub mod routing;
pub mod sorting;
pub mod teardown;

use vstd::prelude::*;
use vstd::string::*;

use crate::api::schema::agents::{
    AgentAttachInfo, AgentInfo, AgentSessionInfo, AgentTransportInfo, AgentTransportView, AgentView,
    AttachView, SessionView,
};
use crate::api::schema::common::{AgentStatus, ControlClientStatus};
use crate::api::schema::peers::{
    DelegationView, PeerInfo, PeerView, TerminalDelegationClaim, TerminalDelegationInfo,
};
use crate::text;
use control_clients::{ControlClients, ControlView};
use list::{List, Table};

verus! {

/// What is known of a terminal.
pub struct Terminal {
    pub cwd: String,
    pub foreground_cwd: Option<String>,
    pub agent_name: Option<String>,
    /// The label of the agent that runs in it.
    pub agent_label: Option<String>,
    pub manual_label: Option<String>,
    pub is_agent: bool,
    pub has_launch_argv: bool,
    pub remote_agent_transport: Option<AgentTransportInfo>,
    pub title: Option<String>,
    pub display_agent: Option<String>,
    pub custom_status: Option<String>,
    pub state_labels: Vec<(String, String)>,
    /// The status that a pane shows that has been looked at since.
    pub seen_status: AgentStatus,
    pub unseen_status: AgentStatus,
    /// Hooks report the whole life of the agent.
    pub hook_authority: bool,
    pub agent_session: Option<AgentSessionInfo>,
    pub revision: u64,
}

pub struct TerminalView {
    pub cwd: Seq<char>,
    pub foreground_cwd: Option<Seq<char>>,
    pub agent_name: Option<Seq<char>>,
    pub agent_label: Option<Seq<char>>,
    pub manual_label: Option<Seq<char>>,
    pub is_agent: bool,
    pub has_launch_argv: bool,
    pub remote_agent_transport: Option<AgentTransportView>,
    pub title: Option<Seq<char>>,
    pub display_agent: Option<Seq<char>>,
    pub custom_status: Option<Seq<char>>,
    pub state_labels: Seq<(Seq<char>, Seq<char>)>,
    pub seen_status: AgentStatus,
    pub unseen_status: AgentStatus,
    pub hook_authority: bool,
    pub agent_session: Option<SessionView>,
    pub revision: u64,
}

impl View for Terminal {
    type V = TerminalView;

    open spec fn view(&self) -> TerminalView {
        TerminalView {
            cwd: self.cwd@,
            foreground_cwd: text::opt_view(self.foreground_cwd),
            agent_name: text::opt_view(self.agent_name),
            agent_label: text::opt_view(self.agent_label),
            manual_label: text::opt_view(self.manual_label),
            is_agent: self.is_agent,
            has_launch_argv: self.has_launch_argv,
            remote_agent_transport: text::viewed(self.remote_agent_transport),
            title: text::opt_view(self.title),
            display_agent: text::opt_view(self.display_agent),
            custom_status: text::opt_view(self.custom_status),
            state_labels: text::pair_views(self.state_labels@),
            seen_status: self.seen_status,
            unseen_status: self.unseen_status,
            hook_authority: self.hook_authority,
            agent_session: text::viewed(self.agent_session),
            revision: self.revision,
        }
    }
}

/// A pane of a workspace.
pub struct Pane {
    pub pane_id: u64,
    pub terminal_id: String,
    pub public_pane_id: Option<String>,
    pub tab: usize,
    pub seen: bool,
}

pub struct PaneView {
    pub pane_id: u64,
    pub terminal_id: Seq<char>,
    pub public_pane_id: Option<Seq<char>>,
    pub tab: usize,
    pub seen: bool,
}

impl View for Pane {
    type V = PaneView;

    open spec fn view(&self) -> PaneView {
        PaneView {
            pane_id: self.pane_id,
            terminal_id: self.terminal_id@,
            public_pane_id: text::opt_view(self.public_pane_id),
            tab: self.tab,
            seen: self.seen,
        }
    }
}

/// A tab of a workspace.
pub struct Tab {
    pub public_tab_id: Option<String>,
    pub label: Option<String>,
    pub focused: u64,
}

pub struct TabView {
    pub public_tab_id: Option<Seq<char>>,
    pub label: Option<Seq<char>>,
    pub focused: u64,
}

impl View for Tab {
    type V = TabView;

    open spec fn view(&self) -> TabView {
        TabView {
            public_tab_id: text::opt_view(self.public_tab_id),
            label: text::opt_view(self.label),
            focused: self.focused,
        }
    }
}

pub struct Workspace {
    pub id: String,
    pub cwd: String,
    pub tabs: List<Tab>,
    pub active_tab: usize,
    pub panes: List<Pane>,
    pub focused: Option<u64>,
}

pub struct WorkspaceView {
    pub id: Seq<char>,
    pub cwd: Seq<char>,
    pub tabs: Seq<TabView>,
    pub active_tab: usize,
    pub panes: Seq<PaneView>,
    pub focused: Option<u64>,
}

impl View for Workspace {
    type V = WorkspaceView;

    open spec fn view(&self) -> WorkspaceView {
        WorkspaceView {
            id: self.id@,
            cwd: self.cwd@,
            tabs: self.tabs@,
            active_tab: self.active_tab,
            panes: self.panes@,
            focused: self.focused,
        }
    }
}

/// A pane that is in no workspace.
pub struct MovedPane {
    pub pane_id: u64,
    pub terminal_id: String,
    pub seen: bool,
}

pub struct MovedView {
    pub pane_id: u64,
    pub terminal_id: Seq<char>,
    pub seen: bool,
}

impl View for MovedPane {
    type V = MovedView;

    open spec fn view(&self) -> MovedView {
        MovedView { pane_id: self.pane_id, terminal_id: self.terminal_id@, seen: self.seen }
    }
}

/// The ids under which a pane is known outside.
pub struct PublicPlace {
    pub pane_id: String,
    pub workspace_id: String,
    pub tab_id: String,
}

pub struct PlaceView {
    pub pane_id: Seq<char>,
    pub workspace_id: Seq<char>,
    pub tab_id: Seq<char>,
}

impl View for PublicPlace {
    type V = PlaceView;

    open spec fn view(&self) -> PlaceView {
        PlaceView {
            pane_id: self.pane_id@,
            workspace_id: self.workspace_id@,
            tab_id: self.tab_id@,
        }
    }
}

/// Where the terminal of a prepared delegation comes from.
pub enum PendingDelegationSource {
    /// A terminal that was started for the delegation.
    New { moved: MovedPane, place: PublicPlace },
    /// A pane of a workspace.
    Existing { pane_id: u64, place: PublicPlace, terminate_on_expire: bool },
    /// A delegation that is to be taken over.
    Takeover { previous_delegation_id: String },
}

pub enum SourceView {
    New { moved: MovedView, place: PlaceView },
    Existing { pane_id: u64, place: PlaceView, terminate_on_expire: bool },
    Takeover { previous_delegation_id: Seq<char> },
}

impl View for PendingDelegationSource {
    type V = SourceView;

    open spec fn view(&self) -> SourceView {
        match self {
            PendingDelegationSource::New { moved, place } => SourceView::New {
                moved: moved@,
                place: place@,
            },
            PendingDelegationSource::Existing { pane_id, place, terminate_on_expire } =>
                SourceView::Existing {
                pane_id: *pane_id,
                place: place@,
                terminate_on_expire: *terminate_on_expire,
            },
            PendingDelegationSource::Takeover { previous_delegation_id } => SourceView::Takeover {
                previous_delegation_id: previous_delegation_id@,
            },
        }
    }
}

/// A delegation that was prepared and not yet committed.
pub struct PendingTerminalDelegation {
    pub info: TerminalDelegationInfo,
    pub source: PendingDelegationSource,
    pub created_at_ms: u64,
}

pub struct PendingView {
    pub info: DelegationView,
    pub source: SourceView,
    pub created_at_ms: u64,
}

impl View for PendingTerminalDelegation {
    type V = PendingView;

    open spec fn view(&self) -> PendingView {
        PendingView {
            info: self.info@,
            source: self.source@,
            created_at_ms: self.created_at_ms,
        }
    }
}

/// A pane that another host presents.
pub struct DelegatedPane {
    pub info: TerminalDelegationInfo,
    pub moved: MovedPane,
    pub place: PublicPlace,
}

pub struct DelegatedView {
    pub info: DelegationView,
    pub moved: MovedView,
    pub place: PlaceView,
}

impl View for DelegatedPane {
    type V = DelegatedView;

    open spec fn view(&self) -> DelegatedView {
        DelegatedView { info: self.info@, moved: self.moved@, place: self.place@ }
    }
}

/// A delegation that has ended, kept for those who ask about it.
pub struct CompletedTerminalDelegation {
    pub info: TerminalDelegationInfo,
    pub completed_at_ms: u64,
}

pub struct CompletedView {
    pub info: DelegationView,
    pub completed_at_ms: u64,
}

impl View for CompletedTerminalDelegation {
    type V = CompletedView;

    open spec fn view(&self) -> CompletedView {
        CompletedView { info: self.info@, completed_at_ms: self.completed_at_ms }
    }
}

/// One connection to a peer.
pub struct BridgeRef {
    pub peer_id: String,
    pub connection_id: String,
}

pub struct BridgeRefView {
    pub peer_id: Seq<char>,
    pub connection_id: Seq<char>,
}

impl View for BridgeRef {
    type V = BridgeRefView;

    open spec fn view(&self) -> BridgeRefView {
        BridgeRefView { peer_id: self.peer_id@, connection_id: self.connection_id@ }
    }
}

impl Clone for BridgeRef {
    fn clone(&self) -> (r: Self)
        ensures
            r@ == self@,
    {
        BridgeRef { peer_id: self.peer_id.clone(), connection_id: self.connection_id.clone() }
    }
}

/// A connection that is up, over which a peer is reached.
pub struct PeerBridge {
    pub connection_id: String,
    /// The peer as this connection reaches it.
    pub peer: PeerInfo,
    /// The name that the peer knows this server by.
    pub remote_peer_id: Option<String>,
    pub healthy: bool,
}

pub struct BridgeView {
    pub connection_id: Seq<char>,
    pub peer: PeerView,
    pub remote_peer_id: Option<Seq<char>>,
    pub healthy: bool,
}

impl View for PeerBridge {
    type V = BridgeView;

    open spec fn view(&self) -> BridgeView {
        BridgeView {
            connection_id: self.connection_id@,
            peer: self.peer@,
            remote_peer_id: text::opt_view(self.remote_peer_id),
            healthy: self.healthy,
        }
    }
}

/// A remote terminal that a local one is to present once the peer confirms it.
pub struct PendingOwnerActivation {
    pub terminal_id: String,
    pub bridge: BridgeRef,
    pub peer: PeerInfo,
    pub delegation: TerminalDelegationInfo,
    pub release_bridge_on_owner_close: bool,
}

pub struct ActivationView {
    pub terminal_id: Seq<char>,
    pub bridge: BridgeRefView,
    pub peer: PeerView,
    pub delegation: DelegationView,
    pub release_bridge_on_owner_close: bool,
}

impl View for PendingOwnerActivation {
    type V = ActivationView;

    open spec fn view(&self) -> ActivationView {
        ActivationView {
            terminal_id: self.terminal_id@,
            bridge: self.bridge@,
            peer: self.peer@,
            delegation: self.delegation@,
            release_bridge_on_owner_close: self.release_bridge_on_owner_close,
        }
    }
}

/// The agents that a peer last reported.
pub struct PeerAgents {
    pub agents: List<AgentInfo>,
}

impl View for PeerAgents {
    type V = Seq<AgentView>;

    open spec fn view(&self) -> Seq<AgentView> {
        self.agents@
    }
}

/// What is to be done outside.
pub enum Effect {
    /// End the process of a terminal.
    ShutDownRuntime(String),
    /// A pane's process is gone.
    PaneDied(u64),
    /// Tell a peer that a presentation it prepared is active.
    AcknowledgeActivation { peer: PeerInfo, claim: TerminalDelegationClaim },
    /// Close a connection; `unregister` takes the peer's registration back.
    StopBridge { bridge: BridgeRef, unregister: bool },
    /// Register with the peer again, over this connection.
    RegisterBridge(BridgeRef),
    StartRefresh { peer: PeerInfo, generation: u64 },
    CancelRefresh(String),
    /// Look for terminals that are parked at the peer.
    DiscoverParked(PeerInfo),
    WatchActivation { delegation_id: String, attach: AgentAttachInfo },
    CancelActivation(String),
    StartMirror { terminal_id: String, pane_id: u64, transport: AgentTransportInfo },
    CancelMirror(String),
    /// Show what is known of a remote agent in its pane.
    ReportAgent { pane_id: u64, agent: AgentInfo, transport: AgentTransportInfo },
    /// Close a pane, by its public id.
    ClosePane(String),
    /// Tell those who listen how many clients control the server.
    AnnounceControlClients(ControlClientStatus),
}

pub enum EffectView {
    ShutDownRuntime(Seq<char>),
    PaneDied(u64),
    AcknowledgeActivation { peer: PeerView, claim: (Seq<char>, u64) },
    StopBridge { bridge: BridgeRefView, unregister: bool },
    RegisterBridge(BridgeRefView),
    StartRefresh { peer: PeerView, generation: u64 },
    CancelRefresh(Seq<char>),
    DiscoverParked(PeerView),
    WatchActivation { delegation_id: Seq<char>, attach: AttachView },
    CancelActivation(Seq<char>),
    StartMirror { terminal_id: Seq<char>, pane_id: u64, transport: AgentTransportView },
    CancelMirror(Seq<char>),
    ReportAgent { pane_id: u64, agent: AgentView, transport: AgentTransportView },
    ClosePane(Seq<char>),
    AnnounceControlClients(ControlClientStatus),
}

impl View for Effect {
    type V = EffectView;

    open spec fn view(&self) -> EffectView {
        match self {
            Effect::ShutDownRuntime(t) => EffectView::ShutDownRuntime(t@),
            Effect::PaneDied(p) => EffectView::PaneDied(*p),
            Effect::AcknowledgeActivation { peer, claim } => EffectView::AcknowledgeActivation {
                peer: peer@,
                claim: claim@,
            },
            Effect::StopBridge { bridge, unregister } => EffectView::StopBridge {
                bridge: bridge@,
                unregister: *unregister,
            },
            Effect::RegisterBridge(b) => EffectView::RegisterBridge(b@),
            Effect::StartRefresh { peer, generation } => EffectView::StartRefresh {
                peer: peer@,
                generation: *generation,
            },
            Effect::CancelRefresh(p) => EffectView::CancelRefresh(p@),
            Effect::DiscoverParked(p) => EffectView::DiscoverParked(p@),
            Effect::WatchActivation { delegation_id, attach } => EffectView::WatchActivation {
                delegation_id: delegation_id@,
                attach: attach@,
            },
            Effect::CancelActivation(d) => EffectView::CancelActivation(d@),
            Effect::StartMirror { terminal_id, pane_id, transport } => EffectView::StartMirror {
                terminal_id: terminal_id@,
                pane_id: *pane_id,
                transport: transport@,
            },
            Effect::CancelMirror(t) => EffectView::CancelMirror(t@),
            Effect::ReportAgent { pane_id, agent, transport } => EffectView::ReportAgent {
                pane_id: *pane_id,
                agent: agent@,
                transport: transport@,
            },
            Effect::ClosePane(p) => EffectView::ClosePane(p@),
            Effect::AnnounceControlClients(status) => EffectView::AnnounceControlClients(*status),
        }
    }
}

#[derive(Debug, Clone, Copy, PartialEq, Eq, Structural)]
pub enum Mode {
    Terminal,
    Navigate,
    Other,
}

/// What the screen shows beside the panes, by the pane it is about.
#[derive(Debug, Clone, Copy, PartialEq, Eq, Structural)]
pub struct Overlays {
    pub previous_pane_focus: Option<u64>,
    pub rename_pane_target: Option<u64>,
    pub selection: Option<u64>,
    pub selection_autoscroll: bool,
    pub copy_mode: Option<u64>,
    pub context_menu: bool,
    pub drag: bool,
    pub workspace_press: bool,
    pub tab_press: bool,
}

/// A toast about a pane.
pub struct Toast {
    pub workspace_id: String,
    pub pane_id: u64,
}

impl View for Toast {
    type V = (Seq<char>, u64);

    open spec fn view(&self) -> (Seq<char>, u64) {
        (self.workspace_id@, self.pane_id)
    }
}

pub struct App {
    /// The id under which peers know this server.
    pub local_peer_id: String,
    /// The platform is a Unix.
    pub unix: bool,
    pub next_delegation: u64,
    pub terminals: Table<Terminal>,
    /// The terminals whose process runs.
    pub runtimes: Table<()>,
    pub workspaces: List<Workspace>,
    pub active: Option<usize>,
    pub selected: usize,
    pub mode: Mode,
    pub last_focus: Option<(usize, u64)>,
    pub overlays: Overlays,
    pub toast: Option<Toast>,
    pub pending_agent_notifications: List<u64>,
    pub public_pane_id_aliases: Table<u64>,
    pub pane_id_aliases: Table<u64>,
    /// The terminal of each pane that another host presents.
    pub delegated_terminal_ids: List<(u64, String)>,
    pub pending: Table<PendingTerminalDelegation>,
    pub delegated: Table<DelegatedPane>,
    pub completed: Table<CompletedTerminalDelegation>,
    /// The remote terminals that local ones present, by the local terminal.
    pub remote_owner_presentations: Table<TerminalDelegationInfo>,
    pub remote_owner_peers: Table<String>,
    pub remote_owner_deadlines: Table<u64>,
    /// The connections that local shells opened: a terminal may stand here more
    /// than once.
    pub ssh_shell_bridges: Table<BridgeRef>,
    pub ssh_shell_bridge_deadlines: List<(BridgeRef, u64)>,
    pub remote_terminal_bridges: Table<BridgeRef>,
    pub pending_owner_operations: Table<u64>,
    pub pending_owner_activations: Table<PendingOwnerActivation>,
    pub remote_mirrors: Table<()>,
    pub peers: Table<PeerInfo>,
    /// The connections by peer, the latest last.
    pub peer_bridges: Table<PeerBridge>,
    pub peer_lifecycle_generations: Table<u64>,
    pub peer_refresh_generations: Table<u64>,
    pub peer_refreshes: Table<()>,
    pub next_peer_refresh_generation: u64,
    pub peer_agent_cache: Table<PeerAgents>,
    pub incoming_peer_deadlines: Table<u64>,
    pub control: ControlClients,
    pub session_dirty: bool,
    pub save_scheduled: bool,
    pub effects: List<Effect>,
}

pub struct AppView {
    pub local_peer_id: Seq<char>,
    pub unix: bool,
    pub next_delegation: u64,
    pub terminals: Seq<(Seq<char>, TerminalView)>,
    pub runtimes: Seq<(Seq<char>, ())>,
    pub workspaces: Seq<WorkspaceView>,
    pub active: Option<usize>,
    pub selected: usize,
    pub mode: Mode,
    pub last_focus: Option<(usize, u64)>,
    pub overlays: Overlays,
    pub toast: Option<(Seq<char>, u64)>,
    pub pending_agent_notifications: Seq<u64>,
    pub public_pane_id_aliases: Seq<(Seq<char>, u64)>,
    pub pane_id_aliases: Seq<(Seq<char>, u64)>,
    pub delegated_terminal_ids: Seq<(u64, Seq<char>)>,
    pub pending: Seq<(Seq<char>, PendingView)>,
    pub delegated: Seq<(Seq<char>, DelegatedView)>,
    pub completed: Seq<(Seq<char>, CompletedView)>,
    pub remote_owner_presentations: Seq<(Seq<char>, DelegationView)>,
    pub remote_owner_peers: Seq<(Seq<char>, Seq<char>)>,
    pub remote_owner_deadlines: Seq<(Seq<char>, u64)>,
    pub ssh_shell_bridges: Seq<(Seq<char>, BridgeRefView)>,
    pub ssh_shell_bridge_deadlines: Seq<(BridgeRefView, u64)>,
    pub remote_terminal_bridges: Seq<(Seq<char>, BridgeRefView)>,
    pub pending_owner_operations: Seq<(Seq<char>, u64)>,
    pub pending_owner_activations: Seq<(Seq<char>, ActivationView)>,
    pub remote_mirrors: Seq<(Seq<char>, ())>,
    pub peers: Seq<(Seq<char>, PeerView)>,
    pub peer_bridges: Seq<(Seq<char>, BridgeView)>,
    pub peer_lifecycle_generations: Seq<(Seq<char>, u64)>,
    pub peer_refresh_generations: Seq<(Seq<char>, u64)>,
    pub peer_refreshes: Seq<(Seq<char>, ())>,
    pub next_peer_refresh_generation: u64,
    pub peer_agent_cache: Seq<(Seq<char>, Seq<AgentView>)>,
    pub incoming_peer_deadlines: Seq<(Seq<char>, u64)>,
    pub control: ControlView,
    pub session_dirty: bool,
    pub save_scheduled: bool,
    pub effects: Seq<EffectView>,
}

impl View for App {
    type V = AppView;

    open spec fn view(&self) -> AppView {
        AppView {
            local_peer_id: self.local_peer_id@,
            unix: self.unix,
            next_delegation: self.next_delegation,
            terminals: self.terminals@,
            runtimes: self.runtimes@,
            workspaces: self.workspaces@,
            active: self.active,
            selected: self.selected,
            mode: self.mode,
            last_focus: self.last_focus,
            overlays: self.overlays,
            toast: text::viewed(self.toast),
            pending_agent_notifications: self.pending_agent_notifications@,
            public_pane_id_aliases: self.public_pane_id_aliases@,
            pane_id_aliases: self.pane_id_aliases@,
            delegated_terminal_ids: self.delegated_terminal_ids@,
            pending: self.pending@,
            delegated: self.delegated@,
            completed: self.completed@,
            remote_owner_presentations: self.remote_owner_presentations@,
            remote_owner_peers: self.remote_owner_peers@,
            remote_owner_deadlines: self.remote_owner_deadlines@,
            ssh_shell_bridges: self.ssh_shell_bridges@,
            ssh_shell_bridge_deadlines: self.ssh_shell_bridge_deadlines@,
            remote_terminal_bridges: self.remote_terminal_bridges@,
            pending_owner_operations: self.pending_owner_operations@,
            pending_owner_activations: self.pending_owner_activations@,
            remote_mirrors: self.remote_mirrors@,
            peers: self.peers@,
            peer_bridges: self.peer_bridges@,
            peer_lifecycle_generations: self.peer_lifecycle_generations@,
            peer_refresh_generations: self.peer_refresh_generations@,
            peer_refreshes: self.peer_refreshes@,
            next_peer_refresh_generation: self.next_peer_refresh_generation,
            peer_agent_cache: self.peer_agent_cache@,
            incoming_peer_deadlines: self.incoming_peer_deadlines@,
            control: self.control@,
            session_dirty: self.session_dirty,
            save_scheduled: self.save_scheduled,
            effects: self.effects@,
        }
    }
}

/// Nothing is shown, lent, owned or known.
pub open spec fn nothing_open(s: AppView) -> bool {
    &&& s.next_delegation == 1 && s.next_peer_refresh_generation == 0
    &&& s.terminals.len() == 0 && s.runtimes.len() == 0 && s.workspaces.len() == 0
    &&& s.active is None && s.selected == 0 && s.mode == Mode::Navigate && s.last_focus is None
    &&& s.overlays == (Overlays {
        previous_pane_focus: None,
        rename_pane_target: None,
        selection: None,
        selection_autoscroll: false,
        copy_mode: None,
        context_menu: false,
        drag: false,
        workspace_press: false,
        tab_press: false,
    })
    &&& s.toast is None && s.pending_agent_notifications.len() == 0
    &&& s.public_pane_id_aliases.len() == 0 && s.pane_id_aliases.len() == 0
        && s.delegated_terminal_ids.len() == 0
    &&& s.pending.len() == 0 && s.delegated.len() == 0 && s.completed.len() == 0
    &&& s.remote_owner_presentations.len() == 0 && s.remote_owner_peers.len() == 0
        && s.remote_owner_deadlines.len() == 0
    &&& s.ssh_shell_bridges.len() == 0 && s.ssh_shell_bridge_deadlines.len() == 0
        && s.remote_terminal_bridges.len() == 0
    &&& s.pending_owner_operations.len() == 0 && s.pending_owner_activations.len() == 0
        && s.remote_mirrors.len() == 0
    &&& s.peers.len() == 0 && s.peer_bridges.len() == 0
    &&& s.peer_lifecycle_generations.len() == 0 && s.peer_refresh_generations.len() == 0
        && s.peer_refreshes.len() == 0
    &&& s.peer_agent_cache.len() == 0 && s.incoming_peer_deadlines.len() == 0
    &&& s.control.leases.len() == 0 && control_clients::is_none(s.control.status)
    &&& !s.session_dirty && !s.save_scheduled && s.effects.len() == 0
}

impl App {
    /// An application with nothing open yet.
    pub fn new(local_peer_id: String, unix: bool) -> (r: App)
        ensures
            r@.local_peer_id == local_peer_id@,
            r@.unix == unix,
            nothing_open(r@),
    {
        App {
            local_peer_id,
            unix,
            next_delegation: 1,
            terminals: List::new(),
            runtimes: List::new(),
            workspaces: List::new(),
            active: None,
            selected: 0,
            mode: Mode::Navigate,
            last_focus: None,
            overlays: Overlays {
                previous_pane_focus: None,
                rename_pane_target: None,
                selection: None,
                selection_autoscroll: false,
                copy_mode: None,
                context_menu: false,
                drag: false,
                workspace_press: false,
                tab_press: false,
            },
            toast: None,
            pending_agent_notifications: List::new(),
            public_pane_id_aliases: List::new(),
            pane_id_aliases: List::new(),
            delegated_terminal_ids: List::new(),
            pending: List::new(),
            delegated: List::new(),
            completed: List::new(),
            remote_owner_presentations: List::new(),
            remote_owner_peers: List::new(),
            remote_owner_deadlines: List::new(),
            ssh_shell_bridges: List::new(),
            ssh_shell_bridge_deadlines: List::new(),
            remote_terminal_bridges: List::new(),
            pending_owner_operations: List::new(),
            pending_owner_activations: List::new(),
            remote_mirrors: List::new(),
            peers: List::new(),
            peer_bridges: List::new(),
            peer_lifecycle_generations: List::new(),
            peer_refresh_generations: List::new(),
            peer_refreshes: List::new(),
            next_peer_refresh_generation: 0,
            peer_agent_cache: List::new(),
            incoming_peer_deadlines: List::new(),
            control: ControlClients::new(),
            session_dirty: false,
            save_scheduled: false,
            effects: List::new(),
        }
    }
}

} // verus!
