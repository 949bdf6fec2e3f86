//! What background tasks tell the main loop.
//!
//! Whoever waits for an answer is known by the number under which it is awaited.

use vstd::prelude::*;
use vstd::string::*;

use crate::api::schema::agents::{AgentInfo, AgentStartParams};
use crate::api::schema::common::{PaneAgentState, Request};
use crate::api::schema::peers::{PeerInfo, TerminalParkedInfo};
use crate::app::api::peers::RemoteShellConnect;
use crate::app::remote_resume::RemoteAgentStart;
use crate::json::Json;
use crate::remote_resume::ResumeRecord;

verus! {

#[derive(Debug)]
pub struct ApiWorktreeAddRequest {
    pub id: String,
    pub operation_id: u64,
    pub checkout_key: String,
    pub source_workspace_id: Option<String>,
    pub source_existing_membership: Option<Json>,
    pub source_checkout_path: String,
    pub source_repo_root: String,
    pub repo_key: String,
    pub repo_name: String,
    pub label: Option<String>,
    pub focus: bool,
    pub respond_to: u64,
}

#[derive(Debug)]
pub struct WorktreeAddResult {
    pub path: String,
    pub api_request: Option<ApiWorktreeAddRequest>,
    pub result: Result<(), String>,
}

#[derive(Debug)]
pub struct ApiWorktreeRemoveRequest {
    pub id: String,
    pub operation_id: u64,
    pub checkout_key: String,
    pub respond_to: u64,
}

#[derive(Debug)]
pub struct WorktreeRemoveResult {
    pub workspace_id: String,
    pub path: String,
    pub workspace: Option<Json>,
    pub worktree: Option<Json>,
    pub forced: bool,
    pub api_request: Option<ApiWorktreeRemoveRequest>,
    pub result: Result<(), String>,
}

pub struct PeerConnectSshResult {
    pub id: String,
    pub peer_id: String,
    pub generation: u64,
    pub owner_terminal_id: Option<String>,
    pub result: Result<RemoteShellConnect, String>,
    pub respond_to: u64,
}

pub struct RemoteAgentStartResult {
    pub id: String,
    pub params: AgentStartParams,
    pub initial_name: String,
    pub result: Result<RemoteAgentStart, String>,
    pub respond_to: u64,
}

/// One attempt to get a pane back that was handed off, with its record.
pub struct RemoteReacquireResult {
    pub record: ResumeRecord,
    pub generation: u64,
    pub request_token: Option<u64>,
    pub result: Result<RemoteAgentStart, RemoteReacquireFailure>,
}

#[derive(Debug)]
pub enum RemoteReacquireFailure {
    Cancelled,
    TimedOut { message: String },
    Retryable { message: String },
    Ended { message: String },
}

/// The attempts for one peer. `respond_to` is set where a request waits for the
/// outcomes, with its id.
pub struct RemoteReacquireBatch {
    pub peer_id: String,
    pub results: Vec<RemoteReacquireResult>,
    pub respond_to: Option<(String, u64)>,
}

#[derive(Debug)]
pub struct RemoteParkedTerminateResult {
    pub remote_terminal_id: String,
    pub result: Result<(), String>,
}

#[derive(Debug)]
pub struct RemoteOrphanInventoryResult {
    pub peer_id: String,
    pub result: Result<Vec<TerminalParkedInfo>, String>,
}

pub struct RemoteOrphanResolveResult {
    pub entry: Json,
    pub result: Result<RemoteOrphanResolveOutcome, String>,
}

pub enum RemoteOrphanResolveOutcome {
    Resolved,
    Promoted(Box<RemoteAgentStart>),
}

pub struct PeerAgentRequestResult {
    pub id: String,
    pub peer: PeerInfo,
    pub request: Request,
    pub owner_terminal_id: Option<String>,
    pub result: Result<Json, String>,
    pub respond_to: u64,
}

#[derive(Debug)]
pub struct PeerHealthRequestResult {
    pub id: String,
    pub peer: PeerInfo,
    pub generation: u64,
    pub result: Result<Json, String>,
    pub respond_to: u64,
}

/// An event from a background task.
pub enum AppEvent {
    /// The process of a pane has ended.
    PaneDied { pane_id: u64 },
    /// What is seen on a pane's screen has changed.
    StateChanged {
        pane_id: u64,
        agent: Option<String>,
        state: PaneAgentState,
        visible_blocker: bool,
        visible_working: bool,
        process_exited: bool,
        observed_at_ms: u64,
    },
    /// A hook reported the state of an agent.
    HookStateReported {
        pane_id: u64,
        source: String,
        agent_label: String,
        state: PaneAgentState,
        message: Option<String>,
        custom_status: Option<String>,
        seq: Option<u64>,
        session_ref: Option<String>,
    },
    /// The session of an agent was reported, without its state.
    AgentSessionReported {
        pane_id: u64,
        source: String,
        agent_label: String,
        seq: Option<u64>,
        session_ref: Option<String>,
        session_start_source: Option<String>,
    },
    /// What is shown of an agent was reported.
    HookMetadataReported {
        pane_id: u64,
        source: String,
        agent_label: Option<String>,
        applies_to_source: Option<String>,
        title: Option<String>,
        display_agent: Option<String>,
        custom_status: Option<String>,
        state_labels: Vec<(String, String)>,
        clear_title: bool,
        clear_display_agent: bool,
        clear_custom_status: bool,
        clear_state_labels: bool,
        seq: Option<u64>,
        ttl_ms: Option<u64>,
    },
    /// Hooks speak for the pane no more.
    HookAuthorityCleared { pane_id: u64, source: Option<String>, seq: Option<u64> },
    /// The agent has given the pane back to the shell.
    HookAgentReleased {
        pane_id: u64,
        source: String,
        agent_label: String,
        known_agent: Option<String>,
        seq: Option<u64>,
    },
    /// A peer has told of its agents, or not.
    PeerAgentsRefreshed {
        peer_id: String,
        generation: u64,
        observed_at_ms: u64,
        result: Result<Vec<AgentInfo>, String>,
    },
    PeerConnectSshFinished(Box<PeerConnectSshResult>),
    RemoteAgentStartFinished(Box<RemoteAgentStartResult>),
    RemoteReacquireFinished(Box<RemoteReacquireBatch>),
    /// A parked terminal was cleaned up whose place was closed, or not.
    RemoteParkedTerminateFinished(RemoteParkedTerminateResult),
    RemoteOrphanInventoryFinished(RemoteOrphanInventoryResult),
    RemoteOrphanResolveFinished(RemoteOrphanResolveResult),
    PeerAgentRequestFinished(Box<PeerAgentRequestResult>),
    PeerHealthRequestFinished(Box<PeerHealthRequestResult>),
    /// A presentation that was prepared is active at its host, or has expired.
    RemotePresentationActivationObserved { delegation_id: String, activated: bool },
    /// A mirror has seen the remote directory.
    RemoteAgentInfoMirrored { pane_id: u64, remote_cwd: Option<String> },
    /// The process of a pane has written to the clipboard.
    ClipboardWrite { content: Vec<u8> },
    /// The keyboard is to be switched to plain letters, or back.
    PrefixInputSource { active: bool },
    /// A shell has reported its directory.
    TerminalCwdReported { pane_id: u64, cwd: String },
    GitStatusRefreshed { results: Vec<Json>, cache_updates: Vec<(String, Json)> },
    PluginCommandFinished {
        log_id: String,
        finished_unix_ms: u64,
        exit_code: Option<i32>,
        stdout: String,
        stderr: String,
        error: Option<String>,
    },
    WorktreeAddFinished(Box<WorktreeAddResult>),
    WorktreeRemoveFinished(Box<WorktreeRemoveResult>),
}

} // verus!
