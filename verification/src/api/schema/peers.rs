use vstd::prelude::*;
use vstd::string::*;

use super::agents::{AgentAttachInfo, AgentInfo};
use crate::text;

verus! {

#[derive(Debug)]
pub struct TerminalPresentationOwner {
    pub peer_id: String,
    pub pane_id: String,
    pub route: Vec<String>,
}

/// What an owner is: the peer and pane that present a terminal, and the hosts on
/// the way there.
pub struct OwnerView {
    pub peer_id: Seq<char>,
    pub pane_id: Seq<char>,
    pub route: Seq<Seq<char>>,
}

impl View for TerminalPresentationOwner {
    type V = OwnerView;

    open spec fn view(&self) -> OwnerView {
        OwnerView {
            peer_id: self.peer_id@,
            pane_id: self.pane_id@,
            route: text::views(self.route@),
        }
    }
}

impl Clone for TerminalPresentationOwner {
    fn clone(&self) -> (r: Self)
        ensures
            r@ == self@,
    {
        TerminalPresentationOwner {
            peer_id: self.peer_id.clone(),
            pane_id: self.pane_id.clone(),
            route: text::clone_strings(&self.route),
        }
    }
}

#[derive(Debug)]
pub struct TerminalDelegationClaim {
    pub delegation_id: String,
    pub epoch: u64,
}

impl View for TerminalDelegationClaim {
    type V = (Seq<char>, u64);

    open spec fn view(&self) -> (Seq<char>, u64) {
        (self.delegation_id@, self.epoch)
    }
}

pub open spec fn claim_view(claim: Option<TerminalDelegationClaim>) -> Option<(Seq<char>, u64)> {
    match claim {
        Some(c) => Some(c@),
        None => None,
    }
}

impl Clone for TerminalDelegationClaim {
    fn clone(&self) -> (r: Self)
        ensures
            r == *self,
    {
        TerminalDelegationClaim { delegation_id: self.delegation_id.clone(), epoch: self.epoch }
    }
}

#[derive(Debug)]
pub struct TerminalDelegationInfo {
    pub delegation_id: String,
    pub epoch: u64,
    pub terminal_id: String,
    pub pane_id: String,
    pub origin_peer_id: String,
    pub owner: TerminalPresentationOwner,
    pub status: TerminalDelegationStatus,
}

pub struct DelegationView {
    pub delegation_id: Seq<char>,
    pub epoch: u64,
    pub terminal_id: Seq<char>,
    pub pane_id: Seq<char>,
    pub origin_peer_id: Seq<char>,
    pub owner: OwnerView,
    pub status: TerminalDelegationStatus,
}

impl View for TerminalDelegationInfo {
    type V = DelegationView;

    open spec fn view(&self) -> DelegationView {
        DelegationView {
            delegation_id: self.delegation_id@,
            epoch: self.epoch,
            terminal_id: self.terminal_id@,
            pane_id: self.pane_id@,
            origin_peer_id: self.origin_peer_id@,
            owner: self.owner@,
            status: self.status,
        }
    }
}

impl Clone for TerminalDelegationInfo {
    fn clone(&self) -> (r: Self)
        ensures
            r@ == self@,
    {
        TerminalDelegationInfo {
            delegation_id: self.delegation_id.clone(),
            epoch: self.epoch,
            terminal_id: self.terminal_id.clone(),
            pane_id: self.pane_id.clone(),
            origin_peer_id: self.origin_peer_id.clone(),
            owner: self.owner.clone(),
            status: self.status,
        }
    }
}

#[derive(Debug, Clone, Copy, PartialEq, Eq, Structural)]
pub enum TerminalDelegationStatus {
    Pending,
    Active,
    Parked,
    TakenOver,
    HandedOff,
    Promoted,
    Terminated,
    Failed,
}

#[derive(Debug)]
pub struct TerminalDelegateCreateParams {
    pub cwd: Option<String>,
    pub label: Option<String>,
    pub env: Vec<(String, String)>,
    pub owner: TerminalPresentationOwner,
}

#[derive(Debug)]
pub struct TerminalDelegateClaimParams {
    pub target: String,
    pub owner: TerminalPresentationOwner,
    pub takeover: bool,
    pub terminate_on_expire: bool,
}

#[derive(Debug)]
pub struct TerminalDelegationTarget {
    pub delegation_id: String,
    pub epoch: u64,
}

#[derive(Debug)]
pub struct TerminalDelegateHandoffParams {
    pub pane_id: String,
}

pub struct TerminalDelegateParkParams {
    pub target: TerminalDelegationTarget,
    pub park_id: String,
    pub origin_id: String,
    pub resume_token: String,
    pub discovery_token: String,
}

pub struct TerminalParkedTarget {
    pub park_id: String,
    pub origin_id: String,
    pub resume_token: String,
}

pub struct TerminalParkedResumeParams {
    pub target: TerminalParkedTarget,
    pub owner: TerminalPresentationOwner,
}

pub struct TerminalParkedListParams {
    pub origin_id: String,
    pub discovery_token: String,
}

#[derive(Debug, Clone, Copy, PartialEq, Eq, Structural)]
pub enum TerminalParkedResolveAction {
    Retain,
    Terminate,
    Promote,
}

pub struct TerminalParkedResolveParams {
    pub park_id: String,
    pub origin_id: String,
    pub discovery_token: String,
    pub action: TerminalParkedResolveAction,
    pub owner: Option<TerminalPresentationOwner>,
}

pub struct TerminalParkedAdminListParams {
    pub admin_token: String,
}

pub struct TerminalParkedAdminResolveParams {
    pub park_id: String,
    pub admin_token: String,
    pub action: TerminalParkedResolveAction,
}

#[derive(Debug)]
pub struct TerminalParkedInfo {
    pub park_id: String,
    pub terminal_id: String,
    pub pane_id: String,
    pub origin_id: String,
    pub status: TerminalDelegationStatus,
    pub resuming: bool,
}

#[derive(Debug)]
pub struct TerminalParkedResumePrepared {
    pub delegation: TerminalDelegationInfo,
    pub agent: Option<AgentInfo>,
}

#[derive(Debug)]
pub struct AgentAttachPrepareParams {
    pub target: String,
    pub owner_pane_id: String,
    pub takeover: bool,
}

#[derive(Debug)]
pub struct AgentAttachPrepared {
    pub attach: AgentAttachInfo,
    pub delegation: Option<TerminalDelegationInfo>,
}

#[derive(Debug)]
pub struct PeerRegisterParams {
    pub peer: PeerInfo,
}

#[derive(Debug)]
pub struct PeerConnectSshParams {
    pub target: String,
    pub ssh_args: Vec<String>,
    pub managed_control_path: Option<String>,
    pub session: Option<String>,
    pub label: Option<String>,
    pub owner_pane_id: Option<String>,
    pub owner: Option<TerminalPresentationOwner>,
}

#[derive(Debug)]
pub struct PeerTarget {
    pub peer_id: String,
}

#[derive(Debug)]
pub struct PeerDisconnectSshParams {
    pub peer_id: String,
    pub connection_id: String,
    pub activated_delegation: Option<TerminalDelegationClaim>,
}

#[derive(Debug)]
pub struct PeerKeepaliveSshParams {
    pub peer_id: String,
    pub connection_id: String,
}

#[derive(Debug)]
pub struct RemoteResumeParams {
    pub peer_id: Option<String>,
    pub managed_control_path: Option<String>,
}

#[derive(Debug)]
pub struct RemoteResumeOutcome {
    pub remote_terminal_id: String,
    pub peer_id: String,
    pub error: Option<String>,
}

#[derive(Debug)]
pub struct PeerInfo {
    pub id: String,
    pub label: String,
    pub status: PeerStatus,
    pub transport: PeerTransportInfo,
}

pub struct PeerView {
    pub id: Seq<char>,
    pub label: Seq<char>,
    pub status: PeerStatus,
    pub transport: PeerTransportView,
}

impl View for PeerInfo {
    type V = PeerView;

    open spec fn view(&self) -> PeerView {
        PeerView {
            id: self.id@,
            label: self.label@,
            status: self.status,
            transport: self.transport@,
        }
    }
}

impl Clone for PeerInfo {
    fn clone(&self) -> (r: Self)
        ensures
            r@ == self@,
    {
        PeerInfo {
            id: self.id.clone(),
            label: self.label.clone(),
            status: self.status,
            transport: self.transport.clone(),
        }
    }
}

#[derive(Debug, Clone, Copy, PartialEq, Eq, Structural)]
pub enum PeerStatus {
    Connected,
    Disconnected,
}

#[derive(Debug)]
pub enum PeerTransportInfo {
    Ssh {
        target: String,
        ssh_args: Vec<String>,
        managed_control_path: Option<String>,
        session: Option<String>,
    },
    ApiSocket { api_socket: String },
}

pub enum PeerTransportView {
    Ssh {
        target: Seq<char>,
        ssh_args: Seq<Seq<char>>,
        managed_control_path: Option<Seq<char>>,
        session: Option<Seq<char>>,
    },
    ApiSocket { api_socket: Seq<char> },
}

impl View for PeerTransportInfo {
    type V = PeerTransportView;

    open spec fn view(&self) -> PeerTransportView {
        match self {
            PeerTransportInfo::Ssh { target, ssh_args, managed_control_path, session } =>
                PeerTransportView::Ssh {
                target: target@,
                ssh_args: text::views(ssh_args@),
                managed_control_path: text::opt_view(*managed_control_path),
                session: text::opt_view(*session),
            },
            PeerTransportInfo::ApiSocket { api_socket } => PeerTransportView::ApiSocket {
                api_socket: api_socket@,
            },
        }
    }
}

impl Clone for PeerTransportInfo {
    fn clone(&self) -> (r: Self)
        ensures
            r@ == self@,
    {
        match self {
            PeerTransportInfo::Ssh { target, ssh_args, managed_control_path, session } =>
                PeerTransportInfo::Ssh {
                target: target.clone(),
                ssh_args: text::clone_strings(ssh_args),
                managed_control_path: text::clone_opt(managed_control_path),
                session: text::clone_opt(session),
            },
            PeerTransportInfo::ApiSocket { api_socket } => PeerTransportInfo::ApiSocket {
                api_socket: api_socket.clone(),
            },
        }
    }
}

} // verus!
