use vstd::prelude::*;

use super::common::{AgentStatus, ReadFormat, ReadSource, SplitDirection};
use super::peers::{self, TerminalDelegationClaim};
use crate::text;

verus! {

#[derive(Debug)]
pub struct AgentReadParams {
    pub target: String,
    pub source: ReadSource,
    pub lines: Option<u32>,
    pub format: ReadFormat,
    pub strip_ansi: bool,
}

#[derive(Debug)]
pub struct AgentSendParams {
    pub target: String,
    pub text: String,
}

#[derive(Debug)]
pub struct AgentRenameParams {
    pub target: String,
    pub name: Option<String>,
}

#[derive(Debug, Clone, Copy, PartialEq, Eq, Structural)]
pub struct AgentListParams {
    pub include_peers: bool,
}

impl Default for AgentListParams {
    /// Only local agents.
    fn default() -> (r: Self)
        ensures
            !r.include_peers,
    {
        AgentListParams { include_peers: false }
    }
}

#[derive(Debug)]
pub struct AgentStartParams {
    pub name: String,
    pub peer: Option<String>,
    pub agent: Option<String>,
    pub cwd: Option<String>,
    pub workspace_id: Option<String>,
    pub tab_id: Option<String>,
    pub split: Option<SplitDirection>,
    pub focus: bool,
    pub argv: Vec<String>,
    pub env: Vec<(String, String)>,
    pub transport: Option<AgentStartTransport>,
}

#[derive(Debug)]
pub enum AgentStartTransport {
    Ssh {
        target: String,
        ssh_args: Vec<String>,
        managed_control_path: Option<String>,
        session: Option<String>,
        prepare_integration: bool,
    },
}

#[derive(Debug)]
pub enum AgentTransportInfo {
    Ssh {
        target: String,
        ssh_args: Vec<String>,
        managed_control_path: Option<String>,
        session: Option<String>,
        remote_terminal_id: String,
        remote_pane_id: String,
        remote_agent: Option<String>,
        remote_cwd: Option<String>,
    },
}

pub enum AgentTransportView {
    Ssh {
        target: Seq<char>,
        ssh_args: Seq<Seq<char>>,
        managed_control_path: Option<Seq<char>>,
        session: Option<Seq<char>>,
        remote_terminal_id: Seq<char>,
        remote_pane_id: Seq<char>,
        remote_agent: Option<Seq<char>>,
        remote_cwd: Option<Seq<char>>,
    },
}

impl View for AgentTransportInfo {
    type V = AgentTransportView;

    open spec fn view(&self) -> AgentTransportView {
        match self {
            AgentTransportInfo::Ssh {
                target,
                ssh_args,
                managed_control_path,
                session,
                remote_terminal_id,
                remote_pane_id,
                remote_agent,
                remote_cwd,
            } => AgentTransportView::Ssh {
                target: target@,
                ssh_args: text::views(ssh_args@),
                managed_control_path: text::opt_view(*managed_control_path),
                session: text::opt_view(*session),
                remote_terminal_id: remote_terminal_id@,
                remote_pane_id: remote_pane_id@,
                remote_agent: text::opt_view(*remote_agent),
                remote_cwd: text::opt_view(*remote_cwd),
            },
        }
    }
}

impl Clone for AgentTransportInfo {
    fn clone(&self) -> (r: Self)
        ensures
            r@ == self@,
    {
        match self {
            AgentTransportInfo::Ssh {
                target,
                ssh_args,
                managed_control_path,
                session,
                remote_terminal_id,
                remote_pane_id,
                remote_agent,
                remote_cwd,
            } => AgentTransportInfo::Ssh {
                target: target.clone(),
                ssh_args: text::clone_strings(ssh_args),
                managed_control_path: text::clone_opt(managed_control_path),
                session: text::clone_opt(session),
                remote_terminal_id: remote_terminal_id.clone(),
                remote_pane_id: remote_pane_id.clone(),
                remote_agent: text::clone_opt(remote_agent),
                remote_cwd: text::clone_opt(remote_cwd),
            },
        }
    }
}

#[derive(Debug)]
pub enum AgentAttachInfo {
    Ssh {
        target: String,
        ssh_args: Vec<String>,
        managed_control_path: Option<String>,
        session: Option<String>,
        terminal_id: String,
        delegation: Option<TerminalDelegationClaim>,
    },
    SshShell {
        target: String,
        ssh_args: Vec<String>,
        managed_control_path: Option<String>,
        session: Option<String>,
        label: Option<String>,
    },
}

pub enum AttachView {
    Ssh {
        target: Seq<char>,
        ssh_args: Seq<Seq<char>>,
        managed_control_path: Option<Seq<char>>,
        session: Option<Seq<char>>,
        terminal_id: Seq<char>,
        delegation: Option<(Seq<char>, u64)>,
    },
    SshShell {
        target: Seq<char>,
        ssh_args: Seq<Seq<char>>,
        managed_control_path: Option<Seq<char>>,
        session: Option<Seq<char>>,
        label: Option<Seq<char>>,
    },
}

impl View for AgentAttachInfo {
    type V = AttachView;

    open spec fn view(&self) -> AttachView {
        match self {
            AgentAttachInfo::Ssh {
                target,
                ssh_args,
                managed_control_path,
                session,
                terminal_id,
                delegation,
            } => AttachView::Ssh {
                target: target@,
                ssh_args: text::views(ssh_args@),
                managed_control_path: text::opt_view(*managed_control_path),
                session: text::opt_view(*session),
                terminal_id: terminal_id@,
                delegation: peers::claim_view(*delegation),
            },
            AgentAttachInfo::SshShell {
                target,
                ssh_args,
                managed_control_path,
                session,
                label,
            } => AttachView::SshShell {
                target: target@,
                ssh_args: text::views(ssh_args@),
                managed_control_path: text::opt_view(*managed_control_path),
                session: text::opt_view(*session),
                label: text::opt_view(*label),
            },
        }
    }
}

impl Clone for AgentAttachInfo {
    fn clone(&self) -> (r: Self)
        ensures
            r@ == self@,
    {
        match self {
            AgentAttachInfo::Ssh {
                target,
                ssh_args,
                managed_control_path,
                session,
                terminal_id,
                delegation,
            } => AgentAttachInfo::Ssh {
                target: target.clone(),
                ssh_args: text::clone_strings(ssh_args),
                managed_control_path: text::clone_opt(managed_control_path),
                session: text::clone_opt(session),
                terminal_id: terminal_id.clone(),
                delegation: match delegation {
                    Some(claim) => Some(claim.clone()),
                    None => None,
                },
            },
            AgentAttachInfo::SshShell {
                target,
                ssh_args,
                managed_control_path,
                session,
                label,
            } => AgentAttachInfo::SshShell {
                target: target.clone(),
                ssh_args: text::clone_strings(ssh_args),
                managed_control_path: text::clone_opt(managed_control_path),
                session: text::clone_opt(session),
                label: text::clone_opt(label),
            },
        }
    }
}

#[derive(Debug)]
pub struct AgentInfo {
    pub terminal_id: String,
    pub peer: Option<String>,
    pub qualified_target: Option<String>,
    pub presentation: Option<AgentPresentationInfo>,
    pub name: Option<String>,
    pub agent: Option<String>,
    pub title: Option<String>,
    pub display_agent: Option<String>,
    pub agent_status: AgentStatus,
    pub screen_detection_skipped: bool,
    pub custom_status: Option<String>,
    pub state_labels: Vec<(String, String)>,
    pub agent_session: Option<AgentSessionInfo>,
    pub transport: Option<AgentTransportInfo>,
    pub mirror_of_terminal_id: Option<String>,
    pub attach: Option<AgentAttachInfo>,
    pub workspace_id: String,
    pub tab_id: String,
    pub pane_id: String,
    pub focused: bool,
    pub cwd: Option<String>,
    pub foreground_cwd: Option<String>,
    pub revision: u64,
}

pub struct AgentView {
    pub terminal_id: Seq<char>,
    pub peer: Option<Seq<char>>,
    pub qualified_target: Option<Seq<char>>,
    pub presentation: Option<PresentationView>,
    pub name: Option<Seq<char>>,
    pub agent: Option<Seq<char>>,
    pub title: Option<Seq<char>>,
    pub display_agent: Option<Seq<char>>,
    pub agent_status: AgentStatus,
    pub screen_detection_skipped: bool,
    pub custom_status: Option<Seq<char>>,
    pub state_labels: Seq<(Seq<char>, Seq<char>)>,
    pub agent_session: Option<SessionView>,
    pub transport: Option<AgentTransportView>,
    pub mirror_of_terminal_id: Option<Seq<char>>,
    pub attach: Option<AttachView>,
    pub workspace_id: Seq<char>,
    pub tab_id: Seq<char>,
    pub pane_id: Seq<char>,
    pub focused: bool,
    pub cwd: Option<Seq<char>>,
    pub foreground_cwd: Option<Seq<char>>,
    pub revision: u64,
}

impl View for AgentInfo {
    type V = AgentView;

    open spec fn view(&self) -> AgentView {
        AgentView {
            terminal_id: self.terminal_id@,
            peer: text::opt_view(self.peer),
            qualified_target: text::opt_view(self.qualified_target),
            presentation: text::viewed(self.presentation),
            name: text::opt_view(self.name),
            agent: text::opt_view(self.agent),
            title: text::opt_view(self.title),
            display_agent: text::opt_view(self.display_agent),
            agent_status: self.agent_status,
            screen_detection_skipped: self.screen_detection_skipped,
            custom_status: text::opt_view(self.custom_status),
            state_labels: text::pair_views(self.state_labels@),
            agent_session: text::viewed(self.agent_session),
            transport: text::viewed(self.transport),
            mirror_of_terminal_id: text::opt_view(self.mirror_of_terminal_id),
            attach: text::viewed(self.attach),
            workspace_id: self.workspace_id@,
            tab_id: self.tab_id@,
            pane_id: self.pane_id@,
            focused: self.focused,
            cwd: text::opt_view(self.cwd),
            foreground_cwd: text::opt_view(self.foreground_cwd),
            revision: self.revision,
        }
    }
}

impl Clone for AgentInfo {
    fn clone(&self) -> (r: Self)
        ensures
            r@ == self@,
    {
        AgentInfo {
            terminal_id: self.terminal_id.clone(),
            peer: text::clone_opt(&self.peer),
            qualified_target: text::clone_opt(&self.qualified_target),
            presentation: match &self.presentation {
                Some(p) => Some(p.clone()),
                None => None,
            },
            name: text::clone_opt(&self.name),
            agent: text::clone_opt(&self.agent),
            title: text::clone_opt(&self.title),
            display_agent: text::clone_opt(&self.display_agent),
            agent_status: self.agent_status,
            screen_detection_skipped: self.screen_detection_skipped,
            custom_status: text::clone_opt(&self.custom_status),
            state_labels: text::clone_pairs(&self.state_labels),
            agent_session: match &self.agent_session {
                Some(s) => Some(s.clone()),
                None => None,
            },
            transport: match &self.transport {
                Some(t) => Some(t.clone()),
                None => None,
            },
            mirror_of_terminal_id: text::clone_opt(&self.mirror_of_terminal_id),
            attach: match &self.attach {
                Some(a) => Some(a.clone()),
                None => None,
            },
            workspace_id: self.workspace_id.clone(),
            tab_id: self.tab_id.clone(),
            pane_id: self.pane_id.clone(),
            focused: self.focused,
            cwd: text::clone_opt(&self.cwd),
            foreground_cwd: text::clone_opt(&self.foreground_cwd),
            revision: self.revision,
        }
    }
}

#[derive(Debug)]
pub struct AgentPresentationInfo {
    pub origin_peer_id: String,
    pub owner_peer_id: String,
    pub route: Vec<String>,
}

pub struct PresentationView {
    pub origin_peer_id: Seq<char>,
    pub owner_peer_id: Seq<char>,
    pub route: Seq<Seq<char>>,
}

impl View for AgentPresentationInfo {
    type V = PresentationView;

    open spec fn view(&self) -> PresentationView {
        PresentationView {
            origin_peer_id: self.origin_peer_id@,
            owner_peer_id: self.owner_peer_id@,
            route: text::views(self.route@),
        }
    }
}

impl Clone for AgentPresentationInfo {
    fn clone(&self) -> (r: Self)
        ensures
            r@ == self@,
    {
        AgentPresentationInfo {
            origin_peer_id: self.origin_peer_id.clone(),
            owner_peer_id: self.owner_peer_id.clone(),
            route: text::clone_strings(&self.route),
        }
    }
}

#[derive(Debug, Clone, Copy, PartialEq, Eq, Structural)]
pub enum AgentSessionRefKind {
    Id,
    Path,
}

#[derive(Debug)]
pub struct AgentSessionInfo {
    pub source: String,
    pub agent: String,
    pub kind: AgentSessionRefKind,
    pub value: String,
}

pub struct SessionView {
    pub source: Seq<char>,
    pub agent: Seq<char>,
    pub kind: AgentSessionRefKind,
    pub value: Seq<char>,
}

impl View for AgentSessionInfo {
    type V = SessionView;

    open spec fn view(&self) -> SessionView {
        SessionView {
            source: self.source@,
            agent: self.agent@,
            kind: self.kind,
            value: self.value@,
        }
    }
}

impl Clone for AgentSessionInfo {
    fn clone(&self) -> (r: Self)
        ensures
            r@ == self@,
    {
        AgentSessionInfo {
            source: self.source.clone(),
            agent: self.agent.clone(),
            kind: self.kind,
            value: self.value.clone(),
        }
    }
}

} // verus!
