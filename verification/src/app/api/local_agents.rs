//! Requests about agents that this server answers, for its clients and its peers.

use vstd::prelude::*;
use vstd::string::*;

use super::agents as api_agents;
use crate::api::schema::agents::{
    AgentInfo, AgentListParams, AgentReadParams, AgentStartParams, AgentView,
};
use crate::api::schema::common::{
    ErrorBody, Method, PaneReadResult, ReadFormat, ReadSource, Request,
};
use crate::api::schema::peers::{PeerInfo, PeerView};
use crate::app::handoff;
use crate::app::list::{self, List};
use crate::app::peer_agents::{self, AgentRoute, LocalTarget, RouteView};
use crate::app::remote_presentations::{self as presentations, Refusal, TerminalTarget};
use crate::app::{App, AppView, TerminalView};
use crate::json::{self, Json};
use crate::text;

verus! {

// ---------------------------------------------------------------------------
// Requests of clients

/// Who answers a request of a client.
pub enum AgentStep {
    Here(TerminalTarget),
    /// No agent is named yet: one is started here.
    StartHere,
    Forward { peer: PeerInfo, request: Request },
}

/// Where a request goes; `None` is here, where no agent is named.
pub open spec fn answered_by(
    s: AppView,
    method: Method,
    local: LocalTarget,
    locals: Seq<AgentView>,
) -> Result<Option<RouteView>, Refusal> {
    match method {
        Method::AgentStart(p) => match p.peer {
            None => Ok(None),
            Some(peer_id) => match api_agents::start_peer(s, p, peer_id@) {
                Ok(peer) => Ok(Some(RouteView::Peer { peer, target: p.name@ })),
                Err(e) => Err(e),
            },
        },
        _ => match api_agents::target_of(method) {
            Some(target) => match peer_agents::route_of(s, target, local, locals) {
                Ok(route) => Ok(Some(route)),
                Err(e) => Err(e),
            },
            None => Err(("invalid_request"@, "method is not a peer agent operation"@)),
        },
    }
}

pub open spec fn follows_route(
    r: Result<AgentStep, ErrorBody>,
    route: Result<Option<RouteView>, Refusal>,
    method: Method,
    s: AppView,
) -> bool {
    match route {
        Err(e) => r matches Err(body) && body@ == e,
        Ok(None) => r matches Ok(AgentStep::StartHere),
        Ok(Some(RouteView::Local(t))) => r matches Ok(AgentStep::Here(here)) && here == t,
        Ok(Some(RouteView::Peer { peer, target })) => r matches Ok(
            AgentStep::Forward { peer: p, request },
        ) && p@ == peer && api_agents::asks_peer(request, method, s, target),
    }
}

impl App {
    /// Where a request of a client about an agent is answered: `agent.get`,
    /// `agent.rename`, `agent.read`, `agent.explain`, `agent.send` and
    /// `agent.start`.
    pub fn route_agent_request(
        &self,
        method: Method,
        local: LocalTarget,
        locals: List<AgentInfo>,
    ) -> (r: Result<AgentStep, ErrorBody>)
        ensures
            follows_route(r, answered_by(self@, method, local, locals@), method, self@),
    {
        match &method {
            Method::AgentStart(p) => {
                let peer_id = match &p.peer {
                    Some(peer_id) => peer_id.as_str(),
                    None => return Ok(AgentStep::StartHere),
                };
                let peer = match self.peer_to_start_at(p, peer_id) {
                    Ok(peer) => peer,
                    Err(e) => return Err(e),
                };
                let name = p.name.clone();
                return self.forward(method, peer, name);
            },
            _ => {},
        }
        let route = match api_agents::requested_agent(&method) {
            Some(target) => self.resolve_agent_route(target, local, locals),
            None => return Err(
                ErrorBody::new("invalid_request", "method is not a peer agent operation"),
            ),
        };
        match route {
            Err(e) => Err(e),
            Ok(AgentRoute::Local(t)) => Ok(AgentStep::Here(t)),
            Ok(AgentRoute::Peer { peer, target }) => self.forward(method, peer, target),
        }
    }

    fn forward(&self, method: Method, peer: PeerInfo, target: String) -> (r: Result<
        AgentStep,
        ErrorBody,
    >)
        requires
            api_agents::target_of(method) is Some || method is AgentStart,
        ensures
            r matches Ok(AgentStep::Forward { peer: p, request }) && p@ == peer@
                && api_agents::asks_peer(request, method, self@, target@),
    {
        match self.peer_agent_request(method, target) {
            Some(request) => Ok(AgentStep::Forward { peer, request }),
            None => Err(ErrorBody::new("invalid_request", "method is not a peer agent operation")),
        }
    }
}

/// What a client learns of the agent of a pane here, once the request was routed to
/// it.
pub fn handle_agent_get(target: &str, agent: Option<AgentInfo>) -> (r: Result<AgentInfo, ErrorBody>)
    ensures
        match agent {
            Some(a) => r matches Ok(told) && told@ == a@,
            None => r matches Err(body) && body@ == peer_agents::agent_not_found(target@),
        },
{
    match agent {
        Some(agent) => Ok(agent),
        None => Err(peer_agents::refuse_agent(target)),
    }
}

/// A peer's agent is attached to, not focused.
pub open spec fn no_focus_at(peer: PeerView, target: Seq<char>) -> Refusal {
    (
        "peer_agent_focus_unsupported"@,
        "agent.focus cannot focus an agent on peer "@ + peer.id + "; use `herdr agent attach "@
            + peer.id + "::"@ + target + "` instead"@,
    )
}

impl App {
    /// The pane that a focus request is about.
    pub fn handle_agent_focus(
        &self,
        target: &str,
        local: LocalTarget,
        locals: List<AgentInfo>,
    ) -> (r: Result<TerminalTarget, ErrorBody>)
        ensures
            match peer_agents::route_of(self@, target@, local, locals@) {
                Err(e) => r matches Err(body) && body@ == e,
                Ok(RouteView::Local(t)) => r == Ok::<TerminalTarget, ErrorBody>(t),
                Ok(RouteView::Peer { peer, target }) => r matches Err(body) && body@ == no_focus_at(
                    peer,
                    target,
                ),
            },
    {
        match self.resolve_agent_route(target, local, locals) {
            Err(e) => Err(e),
            Ok(AgentRoute::Local(t)) => Ok(t),
            Ok(AgentRoute::Peer { peer, target }) => {
                let mut message = presentations::joined(
                    "agent.focus cannot focus an agent on peer ",
                    peer.id.as_str(),
                );
                message.append("; use `herdr agent attach ");
                message.append(peer.id.as_str());
                message.append("::");
                message.append(target.as_str());
                message.append("` instead");
                Err(ErrorBody::new("peer_agent_focus_unsupported", message.as_str()))
            },
        }
    }

    /// The agents that a client is told of.
    pub fn handle_agent_list(&self, locals: List<AgentInfo>, params: &AgentListParams) -> (r: List<
        AgentInfo,
    >)
        ensures
            r@ == if params.include_peers {
                peer_agents::agents_everywhere(self@, locals@)
            } else {
                locals@
            },
    {
        self.collect_agent_infos_with_peers(locals, params.include_peers)
    }
}

// ---------------------------------------------------------------------------
// Requests of peers

pub open spec fn projected_all(agents: Seq<AgentView>) -> Seq<AgentView> {
    agents.map_values(|a: AgentView| peer_agents::projected(a))
}

/// The agents that a peer is told of.
pub fn handle_peer_agent_list(locals: &List<AgentInfo>) -> (r: List<AgentInfo>)
    ensures
        r@ == projected_all(locals@),
{
    let mut out: List<AgentInfo> = List::new();
    let mut i: usize = 0;
    while i < locals.len()
        invariant
            i <= locals@.len(),
            out@.len() == i,
            forall|k: int| 0 <= k < i ==> #[trigger] out@[k] == peer_agents::projected(locals@[k]),
        decreases locals@.len() - i,
    {
        out.push(peer_agents::project_peer_agent_metadata(locals.at(i).clone()));
        i += 1;
    }
    assert(out@ =~= projected_all(locals@));
    out
}

/// What a peer learns of one agent. `here` is the agent of the pane that the
/// target names, or why it names none.
pub open spec fn agent_for_peer(
    s: AppView,
    target: Seq<char>,
    here: Result<Option<AgentInfo>, ErrorBody>,
) -> Result<AgentView, Refusal> {
    match handoff::delegated_agent_named(s, target) {
        Some(a) => Ok(peer_agents::projected(a)),
        None => match here {
            Err(e) => Err(e@),
            Ok(None) => Err(peer_agents::agent_not_found(target)),
            Ok(Some(a)) => Ok(peer_agents::projected(a@)),
        },
    }
}

/// An agent may not be started on behalf of a peer in these ways.
pub open spec fn start_for_peer_objection(p: AgentStartParams) -> Option<Refusal> {
    match p.peer {
        Some(peer_id) => Some(
            (
                "invalid_peer_target"@,
                "peer.agent.start cannot forward to peer "@ + peer_id@
                    + "; send the request directly to that peer"@,
            ),
        ),
        None => if p.transport is Some {
            Some(
                (
                    "invalid_peer_transport"@,
                    "peer.agent.start only starts agents on the receiving server"@,
                ),
            )
        } else if p.focus {
            Some(
                (
                    "peer_agent_focus_unsupported"@,
                    "peer.agent.start cannot change focus on the receiving server"@,
                ),
            )
        } else {
            None
        },
    }
}

impl App {
    /// What a peer learns of one agent. Agents of other peers are not found.
    pub fn handle_peer_agent_get(
        &self,
        target: &str,
        here: Result<Option<AgentInfo>, ErrorBody>,
    ) -> (r: Result<AgentInfo, ErrorBody>)
        ensures
            text::outcome(r) == agent_for_peer(self@, target@, here),
    {
        match self.delegated_agent_info_for_target(target) {
            Some(agent) => return Ok(peer_agents::project_peer_agent_metadata(agent)),
            None => {},
        }
        match here {
            Err(e) => Err(e),
            Ok(None) => Err(peer_agents::refuse_agent(target)),
            Ok(Some(agent)) => Ok(peer_agents::project_peer_agent_metadata(agent)),
        }
    }
}

/// Why a peer may not start an agent so; where there is no reason, it may.
pub fn handle_peer_agent_start(params: &AgentStartParams) -> (r: Option<ErrorBody>)
    ensures
        text::viewed(r) == start_for_peer_objection(*params),
{
    match &params.peer {
        Some(peer_id) => {
            let mut message = presentations::joined(
                "peer.agent.start cannot forward to peer ",
                peer_id.as_str(),
            );
            message.append("; send the request directly to that peer");
            return Some(ErrorBody::new("invalid_peer_target", message.as_str()));
        },
        None => {},
    }
    if params.transport.is_some() {
        return Some(
            ErrorBody::new(
                "invalid_peer_transport",
                "peer.agent.start only starts agents on the receiving server",
            ),
        );
    }
    if params.focus {
        return Some(
            ErrorBody::new(
                "peer_agent_focus_unsupported",
                "peer.agent.start cannot change focus on the receiving server",
            ),
        );
    }
    None
}

// ---------------------------------------------------------------------------
// Reading

/// A way to read the text of a pane.
#[derive(Debug, Clone, Copy, PartialEq, Eq, Structural)]
pub enum PaneText {
    VisibleText,
    RecentText(usize),
    RecentUnwrappedText(usize),
    DetectionText,
    VisibleAnsi,
    RecentAnsi(usize),
    RecentUnwrappedAnsi(usize),
}

pub const DEFAULT_READ_LINES: u32 = 80;

pub const MAX_READ_LINES: u32 = 1000;

pub open spec fn lines_read(lines: Option<u32>) -> usize {
    match lines {
        Some(n) => if n <= MAX_READ_LINES {
            n as usize
        } else {
            MAX_READ_LINES as usize
        },
        None => DEFAULT_READ_LINES as usize,
    }
}

/// What is read for a request; detection knows no colours.
pub open spec fn text_read(p: AgentReadParams) -> PaneText {
    let n = lines_read(p.lines);
    match (p.format, p.source) {
        (ReadFormat::Text, ReadSource::Visible) => PaneText::VisibleText,
        (ReadFormat::Text, ReadSource::Recent) => PaneText::RecentText(n),
        (ReadFormat::Text, ReadSource::RecentUnwrapped) => PaneText::RecentUnwrappedText(n),
        (_, ReadSource::Detection) => PaneText::DetectionText,
        (ReadFormat::Ansi, ReadSource::Visible) => PaneText::VisibleAnsi,
        (ReadFormat::Ansi, ReadSource::Recent) => PaneText::RecentAnsi(n),
        (ReadFormat::Ansi, ReadSource::RecentUnwrapped) => PaneText::RecentUnwrappedAnsi(n),
    }
}

/// Which text of its pane a read request is about.
pub fn requested_text(params: &AgentReadParams) -> (r: PaneText)
    ensures
        r == text_read(*params),
{
    let lines: u32 = match params.lines {
        Some(n) => if n <= MAX_READ_LINES {
            n
        } else {
            MAX_READ_LINES
        },
        None => DEFAULT_READ_LINES,
    };
    let n: usize = lines as usize;
    match params.format {
        ReadFormat::Text => match params.source {
            ReadSource::Visible => PaneText::VisibleText,
            ReadSource::Recent => PaneText::RecentText(n),
            ReadSource::RecentUnwrapped => PaneText::RecentUnwrappedText(n),
            ReadSource::Detection => PaneText::DetectionText,
        },
        ReadFormat::Ansi => match params.source {
            ReadSource::Visible => PaneText::VisibleAnsi,
            ReadSource::Recent => PaneText::RecentAnsi(n),
            ReadSource::RecentUnwrapped => PaneText::RecentUnwrappedAnsi(n),
            ReadSource::Detection => PaneText::DetectionText,
        },
    }
}

/// The pane of an agent, and the text that was read of it.
pub struct ReadPane {
    pub public_pane_id: Option<String>,
    pub workspace_id: String,
    pub tab_id: String,
    pub text: String,
}

pub open spec fn is_read(r: PaneReadResult, p: AgentReadParams, pane: ReadPane) -> bool {
    &&& r.pane_id@ == match pane.public_pane_id {
        Some(id) => id@,
        None => p.target@,
    }
    &&& r.workspace_id == pane.workspace_id && r.tab_id == pane.tab_id && r.text == pane.text
    &&& r.source == p.source && r.format == p.format
    &&& r.revision == 0 && !r.truncated
}

/// The answer to a read request. `pane` is the pane that the target names, with
/// the text that was asked for, or why it names none.
pub fn handle_peer_agent_read(
    params: &AgentReadParams,
    pane: Result<Option<ReadPane>, ErrorBody>,
) -> (r: Result<PaneReadResult, ErrorBody>)
    ensures
        match pane {
            Err(e) => r matches Err(body) && body@ == e@,
            Ok(None) => r matches Err(body) && body@ == peer_agents::agent_not_found(
                params.target@,
            ),
            Ok(Some(pane)) => r matches Ok(read) && is_read(read, *params, pane),
        },
{
    let pane = match pane {
        Err(e) => return Err(e),
        Ok(None) => return Err(peer_agents::refuse_agent(params.target.as_str())),
        Ok(Some(pane)) => pane,
    };
    Ok(
        PaneReadResult {
            pane_id: match pane.public_pane_id {
                Some(id) => id,
                None => params.target.clone(),
            },
            workspace_id: pane.workspace_id,
            tab_id: pane.tab_id,
            source: params.source,
            format: params.format,
            text: pane.text,
            revision: 0,
            truncated: false,
        },
    )
}

/// The answer to a send request. `sent` is what became of the text, where the
/// target names a pane with a process, or why it names none.
pub fn handle_peer_agent_send(
    target: &str,
    sent: Result<Option<Result<(), String>>, ErrorBody>,
) -> (r: Result<(), ErrorBody>)
    ensures
        match sent {
            Err(e) => r matches Err(body) && body@ == e@,
            Ok(None) => r matches Err(body) && body@ == peer_agents::agent_not_found(target@),
            Ok(Some(Err(err))) => r matches Err(body) && body@ == ("agent_send_failed"@, err@),
            Ok(Some(Ok(()))) => r is Ok,
        },
{
    match sent {
        Err(e) => Err(e),
        Ok(None) => Err(peer_agents::refuse_agent(target)),
        Ok(Some(Err(err))) => Err(ErrorBody::new("agent_send_failed", err.as_str())),
        Ok(Some(Ok(()))) => Ok(()),
    }
}

// ---------------------------------------------------------------------------
// Explaining

/// How the state of an agent is explained.
pub enum Explanation {
    /// The explanation itself.
    Given(Json),
    /// What is on its screen is to be explained, for this kind of agent.
    FromScreen(String),
}

/// An agent whose hooks report its whole life is not looked at.
pub open spec fn explains_hooks(explain: Json, agent: Seq<char>, state: Seq<char>) -> bool {
    explain matches Json::Object(m) && m@.len() == 19 && json::is_text_field(m@[0], "agent"@, agent)
        && json::is_text_field(m@[1], "state"@, state) && json::is_field(m@[2], "manifest_source"@, Json::Null)
        && json::is_field(m@[3], "manifest_version"@, Json::Null) && json::is_field(
        m@[4],
        "cached_remote_version"@,
        Json::Null,
    ) && json::is_field(m@[5], "local_override_shadowing_remote"@, Json::Bool(false)) && json::is_field(
        m@[6],
        "remote_update_status"@,
        Json::Null,
    ) && json::is_field(m@[7], "remote_update_error"@, Json::Null) && json::is_field(
        m@[8],
        "matched_rule"@,
        Json::Null,
    ) && json::is_field(m@[9], "visible_idle"@, Json::Bool(false)) && json::is_field(
        m@[10],
        "visible_blocker"@,
        Json::Bool(false),
    ) && json::is_field(m@[11], "visible_working"@, Json::Bool(false)) && json::is_field(
        m@[12],
        "screen_detection_skipped"@,
        Json::Bool(true),
    ) && json::is_text_field(
        m@[13],
        "screen_detection_skip_reason"@,
        "full_lifecycle_hook_authority"@,
    ) && json::is_field(m@[14], "skip_state_update"@, Json::Bool(false)) && json::is_field(
        m@[15],
        "skipped_update_reason"@,
        Json::Null,
    ) && json::is_field(m@[16], "fallback_reason"@, Json::Null) && json::is_field(
        m@[17],
        "warning"@,
        Json::Null,
    ) && m@[18].0@ == "evaluated_rules"@ && (m@[18].1 matches Json::Array(a) && a@.len() == 0)
}

fn no_rules() -> (r: Json)
    ensures
        r matches Json::Array(a) && a@.len() == 0,
{
    Json::Array(Vec::new())
}

fn hook_explanation(agent: &str, state: &str) -> (r: Json)
    ensures
        explains_hooks(r, agent@, state@),
{
    let mut m: Vec<(String, Json)> = Vec::new();
    m.push(json::field_of("agent", Json::Text(agent.to_string())));
    m.push(json::field_of("state", Json::Text(state.to_string())));
    m.push(json::field_of("manifest_source", Json::Null));
    m.push(json::field_of("manifest_version", Json::Null));
    m.push(json::field_of("cached_remote_version", Json::Null));
    m.push(json::field_of("local_override_shadowing_remote", Json::Bool(false)));
    m.push(json::field_of("remote_update_status", Json::Null));
    m.push(json::field_of("remote_update_error", Json::Null));
    m.push(json::field_of("matched_rule", Json::Null));
    m.push(json::field_of("visible_idle", Json::Bool(false)));
    m.push(json::field_of("visible_blocker", Json::Bool(false)));
    m.push(json::field_of("visible_working", Json::Bool(false)));
    m.push(json::field_of("screen_detection_skipped", Json::Bool(true)));
    m.push(
        json::field_of(
            "screen_detection_skip_reason",
            Json::Text("full_lifecycle_hook_authority".to_string()),
        ),
    );
    m.push(json::field_of("skip_state_update", Json::Bool(false)));
    m.push(json::field_of("skipped_update_reason", Json::Null));
    m.push(json::field_of("fallback_reason", Json::Null));
    m.push(json::field_of("warning", Json::Null));
    m.push(json::field_of("evaluated_rules", no_rules()));
    Json::Object(m)
}

/// The terminal in the pane that a target names.
pub open spec fn targeted_terminal(s: AppView, t: TerminalTarget) -> Option<TerminalView> {
    if t.ws_idx < s.workspaces.len() {
        match presentations::pane_in(s.workspaces[t.ws_idx as int], t.pane_id) {
            Some(p) => list::lookup(s.terminals, p.terminal_id),
            None => None,
        }
    } else {
        None
    }
}

/// A pane that is to be explained, and what was found out about it.
pub struct ExplainedPane {
    pub target: TerminalTarget,
    /// A process runs in it.
    pub running: bool,
    /// The name of its agent's state.
    pub state: String,
    /// The agent that was recognised.
    pub known_agent: Option<String>,
}

pub open spec fn no_agent_known(target: Seq<char>) -> Refusal {
    (
        "agent_explain_unavailable"@,
        "agent target "@ + target + " does not have a detected agent label"@,
    )
}

impl App {
    /// Why an agent is in the state it is in. `pane` is the pane that the target
    /// names, or why it names none.
    pub fn handle_peer_agent_explain(
        &self,
        target: &str,
        pane: Result<ExplainedPane, ErrorBody>,
    ) -> (r: Result<Explanation, ErrorBody>)
        ensures
            match pane {
                Err(e) => r matches Err(body) && body@ == e@,
                Ok(p) => match (p.running, targeted_terminal(self@, p.target)) {
                    (true, Some(t)) => if t.hook_authority {
                        r matches Ok(Explanation::Given(explain)) && explains_hooks(
                            explain,
                            peer_agents::or_else(t.agent_label, "unknown"@),
                            p.state@,
                        )
                    } else {
                        match p.known_agent {
                            Some(agent) => r matches Ok(Explanation::FromScreen(a)) && a == agent,
                            None => r matches Err(body) && body@ == no_agent_known(target@),
                        }
                    },
                    _ => r matches Err(body) && body@ == peer_agents::agent_not_found(target@),
                },
            },
    {
        let p = match pane {
            Ok(p) => p,
            Err(e) => return Err(e),
        };
        if !p.running || p.target.ws_idx >= self.workspaces.len() {
            return Err(peer_agents::refuse_agent(target));
        }
        let found = match self.workspaces.at(p.target.ws_idx).pane(p.target.pane_id) {
            Some(pane) => self.terminals.get(pane.terminal_id.as_str()),
            None => None,
        };
        let terminal = match found {
            Some(terminal) => terminal,
            None => return Err(peer_agents::refuse_agent(target)),
        };
        if terminal.hook_authority {
            let agent = match &terminal.agent_label {
                Some(label) => label.as_str(),
                None => "unknown",
            };
            return Ok(Explanation::Given(hook_explanation(agent, p.state.as_str())));
        }
        match p.known_agent {
            Some(agent) => Ok(Explanation::FromScreen(agent)),
            None => {
                let mut message = presentations::joined("agent target ", target);
                message.append(" does not have a detected agent label");
                Err(ErrorBody::new("agent_explain_unavailable", message.as_str()))
            },
        }
    }
}

/// A peer's view of an agent never says where its transports, its session or its
/// directories are.
pub proof fn lemma_projection_is_private(a: AgentView)
    ensures
        ({
            let p = peer_agents::projected(a);
            &&& p.transport is None && p.attach is None && p.agent_session is None
            &&& p.cwd is None && p.foreground_cwd is None
            &&& p.mirror_of_terminal_id == peer_agents::remote_terminal(a.transport)
            &&& p.terminal_id == a.terminal_id && p.name == a.name && p.agent == a.agent
        }),
{
}

} // verus!
