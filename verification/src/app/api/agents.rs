//! Requests about agents, here and at peers.

use vstd::prelude::*;
use vstd::string::*;

use super::peers as api_peers;
use crate::api::schema::agents::{
    AgentAttachInfo, AgentInfo, AgentReadParams, AgentRenameParams, AgentSendParams,
    AgentStartParams, AgentView, AttachView,
};
use crate::api::schema::common::{AgentTarget, ErrorBody, Method, PaneReadResult, Request};
use crate::api::schema::peers::{
    AgentAttachPrepared, DelegationView, OwnerView, PeerInfo, PeerTransportInfo, PeerTransportView,
    PeerView, TerminalDelegateClaimParams, TerminalDelegationClaim, TerminalDelegationInfo,
    TerminalPresentationOwner,
};
use crate::app::list::{self, List};
use crate::app::owners;
use crate::app::peer_agents::{self, AgentRoute, LocalTarget, RouteView};
use crate::app::release;
use crate::app::remote_presentations::{self as presentations, Refusal};
use crate::app::{App, AppView};
use crate::json::{self, Json};
use crate::text;

verus! {

// ---------------------------------------------------------------------------
// Requests that go to a peer

/// The agent that a request is about.
pub open spec fn target_of(method: Method) -> Option<Seq<char>> {
    match method {
        Method::AgentGet(t) => Some(t.target@),
        Method::AgentExplain(t) => Some(t.target@),
        Method::AgentRename(p) => Some(p.target@),
        Method::AgentRead(p) => Some(p.target@),
        Method::AgentSend(p) => Some(p.target@),
        Method::AgentAttachPrepare(p) => Some(p.target@),
        _ => None,
    }
}

/// The owner for whom an agent of a peer is attached to a pane here.
pub open spec fn attach_owner(s: AppView, owner_pane_id: Seq<char>) -> OwnerView {
    match list::first(s.delegated, presentations::publicly(s, owner_pane_id)) {
        Some((_, d)) => d.info.owner,
        None => api_peers::local_owner(s, owner_pane_id),
    }
}

/// The request asks the peer what `method` asks here, of the agent that the peer
/// knows as `target`.
pub open spec fn asks_peer(r: Request, method: Method, s: AppView, target: Seq<char>) -> bool {
    match method {
        Method::AgentGet(_) => peer_agents::is_peer_get(r, target),
        Method::AgentRename(p) => r.id@ == "peer:agent:rename"@ && (r.method matches
            Method::PeerAgentRename(q) && q.target@ == target && q.name == p.name),
        Method::AgentRead(p) => r.id@ == "peer:agent:read"@ && (r.method matches
            Method::PeerAgentRead(q) && q.target@ == target && q.source == p.source && q.lines
            == p.lines && q.format == p.format && q.strip_ansi == p.strip_ansi),
        Method::AgentExplain(_) => r.id@ == "peer:agent:explain"@ && (r.method matches
            Method::PeerAgentExplain(q) && q.target@ == target),
        Method::AgentSend(p) => r.id@ == "peer:agent:send"@ && (r.method matches
            Method::PeerAgentSend(q) && q.target@ == target && q.text == p.text),
        Method::AgentStart(p) => r.id@ == "peer:agent:start"@ && (r.method matches
            Method::PeerAgentStart(q) && q == (AgentStartParams { peer: None, ..p })),
        Method::AgentAttachPrepare(p) => r.id@ == "peer:terminal:delegate:claim"@ && (
        r.method matches Method::TerminalDelegateClaim(q) && q.target@ == target && q.owner@
            == attach_owner(s, p.owner_pane_id@) && q.takeover == p.takeover
            && !q.terminate_on_expire),
        _ => false,
    }
}

pub open spec fn focus_at_peer(peer_id: Seq<char>, name: Seq<char>) -> Refusal {
    (
        "peer_agent_focus_unsupported"@,
        "agent.start cannot focus an agent on peer "@ + peer_id
            + "; start without focus, then use `herdr agent attach "@ + peer_id + "::"@ + name
            + "`"@,
    )
}

/// The peer that an agent is to be started at.
pub open spec fn start_peer(s: AppView, p: AgentStartParams, peer_id: Seq<char>) -> Result<
    PeerView,
    Refusal,
> {
    match list::lookup(s.peers, peer_id) {
        None => Err(peer_agents::peer_not_found(peer_id)),
        Some(peer) => if p.focus {
            Err(focus_at_peer(peer_id, p.name@))
        } else {
            Ok(peer)
        },
    }
}

/// Where a request of `method` goes: the peer, and the agent as the peer knows
/// it. The error for a request that stays here depends on the request.
pub open spec fn deferred_to(
    s: AppView,
    method: Method,
    local: LocalTarget,
    locals: Seq<AgentView>,
) -> Result<(PeerView, Seq<char>), Refusal> {
    match method {
        Method::AgentStart(p) => match p.peer {
            None => Err(("invalid_request"@, "peer agent start is missing a peer id"@)),
            Some(peer_id) => match start_peer(s, p, peer_id@) {
                Ok(peer) => Ok((peer, p.name@)),
                Err(e) => Err(e),
            },
        },
        _ => match target_of(method) {
            None => Err(("invalid_request"@, "method is not a peer agent operation"@)),
            Some(target) => match peer_agents::route_of(s, target, local, locals) {
                Err(e) => Err(e),
                Ok(RouteView::Peer { peer, target }) => Ok((peer, target)),
                Ok(RouteView::Local(_)) => Err(
                    (
                        "invalid_request"@,
                        if method is AgentAttachPrepare {
                            "local agents do not need remote attach preparation"@
                        } else {
                            "local agent request was incorrectly deferred"@
                        },
                    ),
                ),
            },
        },
    }
}

pub open spec fn goes_to_peer(
    s: AppView,
    method: Method,
    local: LocalTarget,
    locals: Seq<AgentView>,
) -> bool {
    match method {
        Method::AgentStart(p) => p.peer is Some,
        _ => match target_of(method) {
            Some(target) => peer_agents::route_of(s, target, local, locals) matches Ok(
                RouteView::Peer { .. },
            ),
            None => false,
        },
    }
}

pub(crate) fn requested_agent(method: &Method) -> (r: Option<&str>)
    ensures
        match target_of(*method) {
            Some(t) => r matches Some(s) && s@ == t,
            None => r is None,
        },
{
    match method {
        Method::AgentGet(t) => Some(t.target.as_str()),
        Method::AgentExplain(t) => Some(t.target.as_str()),
        Method::AgentRename(p) => Some(p.target.as_str()),
        Method::AgentRead(p) => Some(p.target.as_str()),
        Method::AgentSend(p) => Some(p.target.as_str()),
        Method::AgentAttachPrepare(p) => Some(p.target.as_str()),
        _ => None,
    }
}

fn refuse_focus(peer_id: &str, name: &str) -> (e: ErrorBody)
    ensures
        e@ == focus_at_peer(peer_id@, name@),
{
    let mut message = presentations::joined(
        "agent.start cannot focus an agent on peer ",
        peer_id,
    );
    message.append("; start without focus, then use `herdr agent attach ");
    message.append(peer_id);
    message.append("::");
    message.append(name);
    message.append("`");
    ErrorBody::new("peer_agent_focus_unsupported", message.as_str())
}

impl App {
    /// The request is answered by a peer.
    pub fn should_defer_peer_agent_request(
        &self,
        method: &Method,
        local: LocalTarget,
        locals: List<AgentInfo>,
    ) -> (r: bool)
        ensures
            r == goes_to_peer(self@, *method, local, locals@),
    {
        match method {
            Method::AgentStart(p) => return p.peer.is_some(),
            _ => {},
        }
        match requested_agent(method) {
            Some(target) => match self.resolve_agent_route(target, local, locals) {
                Ok(AgentRoute::Peer { .. }) => true,
                _ => false,
            },
            None => false,
        }
    }

    fn owner_for_attach(&self, owner_pane_id: &str) -> (r: TerminalPresentationOwner)
        ensures
            r@ == attach_owner(self@, owner_pane_id@),
    {
        match self.delegated_pane_for_public_id(owner_pane_id) {
            Some(d) => d.info.owner.clone(),
            None => self.owner_here(owner_pane_id),
        }
    }

    /// The request by which a peer is asked about its agent.
    pub(crate) fn peer_agent_request(&self, method: Method, target: String) -> (r: Option<Request>)
        ensures
            match r {
                Some(request) => asks_peer(request, method, self@, target@),
                None => target_of(method) is None && !(method is AgentStart),
            },
    {
        match method {
            Method::AgentGet(_) => Some(peer_agents::peer_agent_get(target)),
            Method::AgentRename(p) => Some(
                Request {
                    id: "peer:agent:rename".to_string(),
                    method: Method::PeerAgentRename(AgentRenameParams { target, name: p.name }),
                },
            ),
            Method::AgentRead(p) => Some(
                Request {
                    id: "peer:agent:read".to_string(),
                    method: Method::PeerAgentRead(
                        AgentReadParams {
                            target,
                            source: p.source,
                            lines: p.lines,
                            format: p.format,
                            strip_ansi: p.strip_ansi,
                        },
                    ),
                },
            ),
            Method::AgentExplain(_) => Some(
                Request {
                    id: "peer:agent:explain".to_string(),
                    method: Method::PeerAgentExplain(AgentTarget { target }),
                },
            ),
            Method::AgentSend(p) => Some(
                Request {
                    id: "peer:agent:send".to_string(),
                    method: Method::PeerAgentSend(AgentSendParams { target, text: p.text }),
                },
            ),
            Method::AgentStart(p) => {
                let mut p = p;
                p.peer = None;
                Some(
                    Request {
                        id: "peer:agent:start".to_string(),
                        method: Method::PeerAgentStart(p),
                    },
                )
            },
            Method::AgentAttachPrepare(p) => Some(
                Request {
                    id: "peer:terminal:delegate:claim".to_string(),
                    method: Method::TerminalDelegateClaim(
                        TerminalDelegateClaimParams {
                            target,
                            owner: self.owner_for_attach(p.owner_pane_id.as_str()),
                            takeover: p.takeover,
                            terminate_on_expire: false,
                        },
                    ),
                },
            ),
            _ => None,
        }
    }

    pub(crate) fn peer_to_start_at(&self, params: &AgentStartParams, peer_id: &str) -> (r: Result<
        PeerInfo,
        ErrorBody,
    >)
        ensures
            text::outcome(r) == start_peer(self@, *params, peer_id@),
    {
        match self.peers.get(peer_id) {
            None => Err(peer_agents::refuse_peer(peer_id)),
            Some(peer) => if params.focus {
                Err(refuse_focus(peer_id, params.name.as_str()))
            } else {
                Ok(peer.clone())
            },
        }
    }

    fn peer_for(&self, method: &Method, local: LocalTarget, locals: List<AgentInfo>) -> (r: Result<
        (PeerInfo, String),
        ErrorBody,
    >)
        ensures
            match deferred_to(self@, *method, local, locals@) {
                Ok((peer, target)) => r matches Ok((p, t)) && p@ == peer && t@ == target,
                Err(e) => r matches Err(body) && body@ == e,
            },
    {
        match method {
            Method::AgentStart(p) => {
                let peer_id = match &p.peer {
                    Some(peer_id) => peer_id.as_str(),
                    None => return Err(
                        ErrorBody::new("invalid_request", "peer agent start is missing a peer id"),
                    ),
                };
                return match self.peer_to_start_at(p, peer_id) {
                    Ok(peer) => Ok((peer, p.name.clone())),
                    Err(e) => Err(e),
                };
            },
            _ => {},
        }
        let target = match requested_agent(method) {
            Some(target) => target,
            None => return Err(
                ErrorBody::new("invalid_request", "method is not a peer agent operation"),
            ),
        };
        match self.resolve_agent_route(target, local, locals) {
            Err(e) => Err(e),
            Ok(AgentRoute::Peer { peer, target }) => Ok((peer, target)),
            Ok(AgentRoute::Local(_)) => {
                let message = match method {
                    Method::AgentAttachPrepare(_) =>
                        "local agents do not need remote attach preparation",
                    _ => "local agent request was incorrectly deferred",
                };
                Err(ErrorBody::new("invalid_request", message))
            },
        }
    }

    /// The peer that a request goes to, and what it is asked.
    pub fn prepare_peer_agent_request(
        &self,
        method: Method,
        local: LocalTarget,
        locals: List<AgentInfo>,
    ) -> (r: Result<(PeerInfo, Request), ErrorBody>)
        ensures
            match deferred_to(self@, method, local, locals@) {
                Ok((peer, target)) => r matches Ok((p, request)) && p@ == peer && asks_peer(
                    request,
                    method,
                    self@,
                    target,
                ),
                Err(e) => r matches Err(body) && body@ == e,
            },
    {
        let (peer, target) = match self.peer_for(&method, local, locals) {
            Ok(found) => found,
            Err(e) => return Err(e),
        };
        match self.peer_agent_request(method, target) {
            Some(request) => Ok((peer, request)),
            None => Err(ErrorBody::new("invalid_request", "method is not a peer agent operation")),
        }
    }
}

// ---------------------------------------------------------------------------
// Asking a peer

/// The local terminal for which an agent of a peer is prepared.
pub open spec fn request_owner(s: AppView, method: Method, parsed: Option<(usize, u64)>) -> Result<
    Option<Seq<char>>,
    Refusal,
> {
    match method {
        Method::AgentAttachPrepare(p) => api_peers::owner_terminal(
            s,
            Some(p.owner_pane_id@),
            parsed,
        ),
        _ => Ok(None),
    }
}

/// A request that is on its way to a peer.
pub struct PeerAgentRequest {
    pub peer: PeerInfo,
    pub request: Request,
    pub owner_terminal_id: Option<String>,
}

impl App {
    pub fn peer_agent_request_owner_terminal(
        &self,
        method: &Method,
        parsed: Option<(usize, u64)>,
    ) -> (r: Result<Option<String>, ErrorBody>)
        ensures
            match r {
                Ok(t) => request_owner(self@, *method, parsed) == Ok::<Option<Seq<char>>, Refusal>(
                    text::opt_view(t),
                ),
                Err(e) => request_owner(self@, *method, parsed) == Err::<
                    Option<Seq<char>>,
                    Refusal,
                >(e@),
            },
    {
        match method {
            Method::AgentAttachPrepare(p) => {
                let pane = Some(p.owner_pane_id.clone());
                self.resolve_ssh_owner_terminal(&pane, parsed)
            },
            _ => Ok(None),
        }
    }

    /// Begins to ask a peer, where `granted`.
    pub fn begin_peer_agent_request(
        &mut self,
        method: Method,
        parsed: Option<(usize, u64)>,
        local: LocalTarget,
        locals: List<AgentInfo>,
        granted: bool,
    ) -> (r: Result<Option<PeerAgentRequest>, ErrorBody>)
        ensures
            match (
                request_owner(old(self)@, method, parsed),
                deferred_to(old(self)@, method, local, locals@),
            ) {
                (Err(e), _) => r matches Err(body) && body@ == e && final(self)@ == old(self)@,
                (Ok(_), Err(e)) => r matches Err(body) && body@ == e && final(self)@ == old(self)@,
                (Ok(owner), Ok((peer, target))) => if granted {
                    r matches Ok(Some(q)) && q.peer@ == peer && text::opt_view(
                        q.owner_terminal_id,
                    ) == owner && asks_peer(q.request, method, old(self)@, target)
                        && final(self)@ == owners::operation_begun(old(self)@, owner)
                } else {
                    r matches Ok(None) && final(self)@ == old(self)@
                },
            },
    {
        let owner = match self.peer_agent_request_owner_terminal(&method, parsed) {
            Ok(owner) => owner,
            Err(e) => return Err(e),
        };
        let (peer, request) = match self.prepare_peer_agent_request(method, local, locals) {
            Ok(prepared) => prepared,
            Err(e) => return Err(e),
        };
        if !granted {
            return Ok(None);
        }
        self.begin_pending_owner_operation(&owner);
        Ok(Some(PeerAgentRequest { peer, request, owner_terminal_id: owner }))
    }

    /// The peer could not be asked.
    pub fn abort_peer_agent_request(&mut self, owner_terminal_id: &Option<String>, err: &str) -> (e:
        ErrorBody)
        ensures
            e@ == ("peer_unreachable"@, "could not start peer request: "@ + err@),
            final(self)@ == owners::operation_finished(
                old(self)@,
                text::opt_view(*owner_terminal_id),
            ),
    {
        self.finish_pending_owner_operation(owner_terminal_id);
        ErrorBody::new(
            "peer_unreachable",
            presentations::joined("could not start peer request: ", err).as_str(),
        )
    }
}

// ---------------------------------------------------------------------------
// What a peer answers

/// The payload of an answer about an agent.
pub enum ResponseResult {
    AgentInfo { agent: AgentInfo },
    AgentStarted { agent: AgentInfo, argv: Vec<String> },
    PaneRead { read: PaneReadResult },
    AgentExplain { explain: Json },
    Done {
        terminated_remote_presentations: Option<usize>,
        handed_off_remote_presentations: Option<usize>,
    },
    TerminalDelegation { delegation: TerminalDelegationInfo },
    AgentAttachPrepared { prepared: AgentAttachPrepared },
    /// Any other payload.
    Other(Json),
}

pub enum ResultView {
    AgentInfo { agent: AgentView },
    AgentStarted { agent: AgentView, argv: Seq<Seq<char>> },
    PaneRead { read: PaneReadResult },
    AgentExplain { explain: Json },
    Done {
        terminated_remote_presentations: Option<usize>,
        handed_off_remote_presentations: Option<usize>,
    },
    TerminalDelegation { delegation: DelegationView },
    AgentAttachPrepared { attach: AttachView, delegation: Option<DelegationView> },
    Other(Json),
}

impl View for ResponseResult {
    type V = ResultView;

    open spec fn view(&self) -> ResultView {
        match self {
            ResponseResult::AgentInfo { agent } => ResultView::AgentInfo { agent: agent@ },
            ResponseResult::AgentStarted { agent, argv } => ResultView::AgentStarted {
                agent: agent@,
                argv: text::views(argv@),
            },
            ResponseResult::PaneRead { read } => ResultView::PaneRead { read: *read },
            ResponseResult::AgentExplain { explain } => ResultView::AgentExplain {
                explain: *explain,
            },
            ResponseResult::Done {
                terminated_remote_presentations,
                handed_off_remote_presentations,
            } => ResultView::Done {
                terminated_remote_presentations: *terminated_remote_presentations,
                handed_off_remote_presentations: *handed_off_remote_presentations,
            },
            ResponseResult::TerminalDelegation { delegation } => ResultView::TerminalDelegation {
                delegation: delegation@,
            },
            ResponseResult::AgentAttachPrepared { prepared } => ResultView::AgentAttachPrepared {
                attach: prepared.attach@,
                delegation: text::viewed(prepared.delegation),
            },
            ResponseResult::Other(j) => ResultView::Other(*j),
        }
    }
}

/// How a terminal that a peer delegates is attached to.
pub open spec fn attach_delegated(peer: PeerView, d: DelegationView) -> Option<AttachView> {
    match peer.transport {
        PeerTransportView::Ssh { target, ssh_args, managed_control_path, session } => Some(
            AttachView::Ssh {
                target,
                ssh_args,
                managed_control_path,
                session,
                terminal_id: d.terminal_id,
                delegation: Some((d.delegation_id, d.epoch)),
            },
        ),
        PeerTransportView::ApiSocket { .. } => None,
    }
}

pub open spec fn wrong_type() -> Seq<char> {
    "peer returned the wrong response type for the requested agent operation"@
}

/// A delegated terminal is prepared for the pane that asked, which must still be
/// there, over a connection that is up.
pub open spec fn delegation_prepared(
    s: AppView,
    peer: PeerView,
    owner: Option<Seq<char>>,
    d: DelegationView,
) -> (AppView, Result<ResultView, Seq<char>>) {
    match (attach_delegated(peer, d), owner, release::latest(s.peer_bridges, peer.id)) {
        (None, _, _) => (s, Err("peer does not provide an SSH attach transport"@)),
        (Some(_), None, _) => (s, Err("peer attach preparation lost its local owner context"@)),
        (Some(attach), Some(t), bridge) => if !list::present(s.terminals, t) {
            (s, Err("peer attach owner pane closed while preparation was running"@))
        } else {
            match bridge {
                None => (s, Err("peer does not have an active SSH bridge"@)),
                Some(b) => (
                    owners::waiting(s, t, peer, b.connection_id, d, attach, false),
                    Ok(ResultView::AgentAttachPrepared { attach, delegation: Some(d) }),
                ),
            }
        },
    }
}

/// What is passed on of a peer's answer: only what the request asked for, and of
/// an agent nothing that the peer says of transports.
pub open spec fn sanitized(
    s: AppView,
    peer: PeerView,
    asked: Method,
    owner: Option<Seq<char>>,
    result: ResultView,
) -> (AppView, Result<ResultView, Seq<char>>) {
    match result {
        ResultView::AgentInfo { agent } => if asked is PeerAgentGet || asked is PeerAgentRename {
            (s, Ok(ResultView::AgentInfo { agent: peer_agents::annotated(peer, agent) }))
        } else {
            (s, Err(wrong_type()))
        },
        ResultView::AgentStarted { agent, argv } => if asked is PeerAgentStart {
            (s, Ok(ResultView::AgentStarted { agent: peer_agents::annotated(peer, agent), argv }))
        } else {
            (s, Err(wrong_type()))
        },
        ResultView::PaneRead { .. } => (
            s,
            if asked is PeerAgentRead {
                Ok(result)
            } else {
                Err(wrong_type())
            },
        ),
        ResultView::AgentExplain { .. } => (
            s,
            if asked is PeerAgentExplain {
                Ok(result)
            } else {
                Err(wrong_type())
            },
        ),
        ResultView::Done { .. } => (
            s,
            if asked is PeerAgentSend {
                Ok(result)
            } else {
                Err(wrong_type())
            },
        ),
        ResultView::TerminalDelegation { delegation } => if asked is TerminalDelegateClaim {
            delegation_prepared(s, peer, owner, delegation)
        } else {
            (s, Err(wrong_type()))
        },
        _ => (s, Err(wrong_type())),
    }
}

/// The reply to a client whose request a peer has answered. `error` and `success`
/// are what the answer reads as.
pub open spec fn peer_answered(
    s: AppView,
    peer: PeerView,
    asked: Method,
    owner: Option<Seq<char>>,
    result: Result<Json, String>,
    error: Result<ErrorBody, String>,
    success: Result<ResponseResult, String>,
) -> (AppView, Result<ResultView, Refusal>) {
    match result {
        Err(message) => (s, Err(("peer_unreachable"@, message@))),
        Ok(response) => if json::has(response, "error"@) {
            (
                s,
                Err(
                    match error {
                        Ok(e) => e@,
                        Err(err) => (
                            "peer_response_invalid"@,
                            "peer returned an invalid error response: "@ + err@,
                        ),
                    },
                ),
            )
        } else {
            match success {
                Err(err) => (
                    s,
                    Err(
                        (
                            "peer_response_invalid"@,
                            "peer returned an invalid agent response: "@ + err@,
                        ),
                    ),
                ),
                Ok(payload) => {
                    let (after, passed) = sanitized(s, peer, asked, owner, payload@);
                    (
                        after,
                        match passed {
                            Ok(payload) => Ok(payload),
                            Err(message) => Err(("peer_response_invalid"@, message)),
                        },
                    )
                },
            }
        },
    }
}

pub open spec fn told(r: Result<ResponseResult, &str>) -> Result<ResultView, Seq<char>> {
    match r {
        Ok(payload) => Ok(payload@),
        Err(message) => Err(message@),
    }
}

fn delegated_attach(peer: &PeerInfo, d: &TerminalDelegationInfo) -> (r: Option<AgentAttachInfo>)
    ensures
        text::viewed(r) == attach_delegated(peer@, d@),
{
    match &peer.transport {
        PeerTransportInfo::Ssh { target, ssh_args, managed_control_path, session } => Some(
            AgentAttachInfo::Ssh {
                target: target.clone(),
                ssh_args: text::clone_strings(ssh_args),
                managed_control_path: text::clone_opt(managed_control_path),
                session: text::clone_opt(session),
                terminal_id: d.terminal_id.clone(),
                delegation: Some(
                    TerminalDelegationClaim {
                        delegation_id: d.delegation_id.clone(),
                        epoch: d.epoch,
                    },
                ),
            },
        ),
        PeerTransportInfo::ApiSocket { .. } => None,
    }
}

impl App {
    fn prepare_delegation(
        &mut self,
        peer: &PeerInfo,
        owner: &Option<String>,
        delegation: TerminalDelegationInfo,
    ) -> (r: Result<ResponseResult, &'static str>)
        ensures
            final(self)@ == delegation_prepared(
                old(self)@,
                peer@,
                text::opt_view(*owner),
                delegation@,
            ).0,
            told(r) == delegation_prepared(
                old(self)@,
                peer@,
                text::opt_view(*owner),
                delegation@,
            ).1,
    {
        let attach = match delegated_attach(peer, &delegation) {
            Some(attach) => attach,
            None => return Err("peer does not provide an SSH attach transport"),
        };
        let terminal = match owner {
            Some(t) => t.clone(),
            None => return Err("peer attach preparation lost its local owner context"),
        };
        if !self.terminals.contains(terminal.as_str()) {
            return Err("peer attach owner pane closed while preparation was running");
        }
        let connection_id = match self.latest_bridge(peer.id.as_str()) {
            Some(bridge) => bridge.connection_id.clone(),
            None => return Err("peer does not have an active SSH bridge"),
        };
        self.register_pending_owner_activation(
            terminal,
            peer.clone(),
            connection_id,
            delegation.clone(),
            attach.clone(),
            false,
        );
        Ok(
            ResponseResult::AgentAttachPrepared {
                prepared: AgentAttachPrepared { attach, delegation: Some(delegation) },
            },
        )
    }

    /// Passes on what a peer answered, as far as it was asked for.
    pub fn sanitize_peer_agent_success(
        &mut self,
        peer: &PeerInfo,
        request: &Request,
        owner_terminal_id: &Option<String>,
        result: ResponseResult,
    ) -> (r: Result<ResponseResult, &'static str>)
        ensures
            final(self)@ == sanitized(
                old(self)@,
                peer@,
                request.method,
                text::opt_view(*owner_terminal_id),
                result@,
            ).0,
            told(r) == sanitized(
                old(self)@,
                peer@,
                request.method,
                text::opt_view(*owner_terminal_id),
                result@,
            ).1,
    {
        match (&request.method, result) {
            (Method::PeerAgentGet(_), ResponseResult::AgentInfo { agent })
            | (Method::PeerAgentRename(_), ResponseResult::AgentInfo { agent }) => {
                let mut agent = agent;
                peer_agents::annotate_peer_agent(peer, &mut agent);
                Ok(ResponseResult::AgentInfo { agent })
            },
            (Method::PeerAgentStart(_), ResponseResult::AgentStarted { agent, argv }) => {
                let mut agent = agent;
                peer_agents::annotate_peer_agent(peer, &mut agent);
                Ok(ResponseResult::AgentStarted { agent, argv })
            },
            (Method::PeerAgentRead(_), ResponseResult::PaneRead { read }) => Ok(
                ResponseResult::PaneRead { read },
            ),
            (Method::PeerAgentExplain(_), ResponseResult::AgentExplain { explain }) => Ok(
                ResponseResult::AgentExplain { explain },
            ),
            (
                Method::PeerAgentSend(_),
                ResponseResult::Done {
                    terminated_remote_presentations,
                    handed_off_remote_presentations,
                },
            ) => Ok(
                ResponseResult::Done {
                    terminated_remote_presentations,
                    handed_off_remote_presentations,
                },
            ),
            (
                Method::TerminalDelegateClaim(_),
                ResponseResult::TerminalDelegation { delegation },
            ) => self.prepare_delegation(peer, owner_terminal_id, delegation),
            _ => Err("peer returned the wrong response type for the requested agent operation"),
        }
    }

    /// The reply to a client whose request a peer has answered, or not.
    pub fn encode_peer_request_result(
        &mut self,
        peer: &PeerInfo,
        request: &Request,
        owner_terminal_id: &Option<String>,
        result: Result<Json, String>,
        error: Result<ErrorBody, String>,
        success: Result<ResponseResult, String>,
    ) -> (r: Result<ResponseResult, ErrorBody>)
        ensures
            final(self)@ == peer_answered(
                old(self)@,
                peer@,
                request.method,
                text::opt_view(*owner_terminal_id),
                result,
                error,
                success,
            ).0,
            text::outcome(r) == peer_answered(
                old(self)@,
                peer@,
                request.method,
                text::opt_view(*owner_terminal_id),
                result,
                error,
                success,
            ).1,
    {
        let response = match result {
            Ok(response) => response,
            Err(message) => return Err(ErrorBody::new("peer_unreachable", message.as_str())),
        };
        if response.get("error").is_some() {
            return Err(
                match error {
                    Ok(e) => e,
                    Err(err) => ErrorBody::new(
                        "peer_response_invalid",
                        presentations::joined(
                            "peer returned an invalid error response: ",
                            err.as_str(),
                        ).as_str(),
                    ),
                },
            );
        }
        let payload = match success {
            Ok(payload) => payload,
            Err(err) => return Err(
                ErrorBody::new(
                    "peer_response_invalid",
                    presentations::joined(
                        "peer returned an invalid agent response: ",
                        err.as_str(),
                    ).as_str(),
                ),
            ),
        };
        match self.sanitize_peer_agent_success(peer, request, owner_terminal_id, payload) {
            Ok(payload) => Ok(payload),
            Err(message) => Err(ErrorBody::new("peer_response_invalid", message)),
        }
    }

    /// A peer has answered a request of a client.
    pub fn handle_peer_agent_request_finished(
        &mut self,
        asked: &PeerAgentRequest,
        result: Result<Json, String>,
        error: Result<ErrorBody, String>,
        success: Result<ResponseResult, String>,
    ) -> (r: Result<ResponseResult, ErrorBody>)
        ensures
            ({
                let answered = peer_answered(
                    owners::operation_finished(
                        old(self)@,
                        text::opt_view(asked.owner_terminal_id),
                    ),
                    asked.peer@,
                    asked.request.method,
                    text::opt_view(asked.owner_terminal_id),
                    result,
                    error,
                    success,
                );
                final(self)@ == answered.0 && text::outcome(r) == answered.1
            }),
    {
        self.finish_pending_owner_operation(&asked.owner_terminal_id);
        self.encode_peer_request_result(
            &asked.peer,
            &asked.request,
            &asked.owner_terminal_id,
            result,
            error,
            success,
        )
    }

    /// Nobody took the reply: what was prepared for it is given up.
    pub fn abandon_peer_agent_reply(&mut self, reply: &Result<ResponseResult, ErrorBody>)
        ensures
            final(self)@ == match text::outcome(*reply) {
                Ok(ResultView::AgentAttachPrepared { delegation: Some(d), .. }) =>
                    release::activation_cancelled(old(self)@, d.delegation_id),
                _ => old(self)@,
            },
    {
        match reply {
            Ok(ResponseResult::AgentAttachPrepared { prepared }) => match &prepared.delegation {
                Some(d) => self.cancel_pending_owner_activation(d.delegation_id.as_str()),
                None => {},
            },
            _ => {},
        }
    }
}

/// What a client learns of an agent at a peer names no transport but that of the
/// peer itself, whatever the peer answered.
pub proof fn lemma_peer_answers_carry_no_transport(
    s: AppView,
    peer: PeerView,
    asked: Method,
    owner: Option<Seq<char>>,
    result: ResultView,
    agent: AgentView,
)
    requires
        sanitized(s, peer, asked, owner, result).1 == Ok::<ResultView, Seq<char>>(
            ResultView::AgentInfo { agent },
        ) || (exists|argv: Seq<Seq<char>>|
            sanitized(s, peer, asked, owner, result).1 == Ok::<ResultView, Seq<char>>(
                #[trigger] started_view(agent, argv),
            )),
    ensures
        agent.transport is None && agent.agent_session is None && agent.cwd is None
            && agent.foreground_cwd is None && agent.mirror_of_terminal_id is None,
        agent.attach == peer_agents::attach_over(peer, agent.terminal_id),
        agent.peer == Some(peer.id),
{
}

pub open spec fn started_view(agent: AgentView, argv: Seq<Seq<char>>) -> ResultView {
    ResultView::AgentStarted { agent, argv }
}

} // verus!
