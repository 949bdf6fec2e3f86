//! The agents of peers: what is known of them, and how requests reach them.

use vstd::prelude::*;
use vstd::string::*;

use super::api::peers as api_peers;
use super::list::{self, List};
use super::remote_presentations::{self as presentations, Refusal, TerminalTarget};
use super::sorting;
use super::{App, AppView, BridgeView, PeerAgents, PeerBridge};
use crate::api::schema::agents::{
    AgentAttachInfo, AgentInfo, AgentTransportInfo, AgentTransportView, AgentView, AttachView,
};
use crate::api::schema::common::{AgentStatus, AgentTarget, ErrorBody, Method, Request};
use crate::api::schema::peers::{
    PeerInfo, PeerStatus, PeerTransportInfo, PeerTransportView, PeerView,
};
use crate::json::{self, Json};
use crate::text;

verus! {

// ---------------------------------------------------------------------------
// What peers are told, and what is made of what they tell

/// What is nobody else's business is gone.
pub open spec fn stripped(a: AgentView) -> AgentView {
    AgentView {
        agent_session: None,
        transport: None,
        attach: None,
        cwd: None,
        foreground_cwd: None,
        ..a
    }
}

pub open spec fn remote_terminal(t: Option<AgentTransportView>) -> Option<Seq<char>> {
    match t {
        Some(AgentTransportView::Ssh { remote_terminal_id, .. }) => Some(remote_terminal_id),
        None => None,
    }
}

/// An agent as a peer sees it: without what is private, but with the terminal
/// that it mirrors.
pub open spec fn projected(a: AgentView) -> AgentView {
    stripped(AgentView { mirror_of_terminal_id: remote_terminal(a.transport), ..a })
}

/// The name by which an agent of a peer is asked for.
pub open spec fn agent_name(a: AgentView) -> Seq<char> {
    match a.name {
        Some(n) => n,
        None => match a.agent {
            Some(n) => n,
            None => a.terminal_id,
        },
    }
}

/// How an agent of a peer is attached to, as this server knows the peer.
pub open spec fn attach_over(peer: PeerView, terminal_id: Seq<char>) -> Option<AttachView> {
    match peer.transport {
        PeerTransportView::Ssh { target, ssh_args, managed_control_path, session } => Some(
            AttachView::Ssh {
                target,
                ssh_args,
                managed_control_path,
                session,
                terminal_id,
                delegation: None,
            },
        ),
        PeerTransportView::ApiSocket { .. } => None,
    }
}

/// An agent that a peer reported, as this server passes it on: nothing that the
/// peer says of transports is taken over.
pub open spec fn annotated(peer: PeerView, a: AgentView) -> AgentView {
    AgentView {
        mirror_of_terminal_id: None,
        peer: Some(peer.id),
        qualified_target: Some(peer.id + "::"@ + agent_name(a)),
        attach: attach_over(peer, a.terminal_id),
        ..stripped(a)
    }
}

fn strip_peer_private_metadata(agent: &mut AgentInfo)
    ensures
        final(agent)@ == stripped(old(agent)@),
{
    agent.agent_session = None;
    agent.transport = None;
    agent.attach = None;
    agent.cwd = None;
    agent.foreground_cwd = None;
}

/// The agent as peers may see it.
pub fn project_peer_agent_metadata(agent: AgentInfo) -> (r: AgentInfo)
    ensures
        r@ == projected(agent@),
{
    let mut agent = agent;
    agent.mirror_of_terminal_id = match &agent.transport {
        Some(AgentTransportInfo::Ssh { remote_terminal_id, .. }) => Some(
            remote_terminal_id.clone(),
        ),
        None => None,
    };
    strip_peer_private_metadata(&mut agent);
    agent
}

/// Marks an agent that a peer reported as that peer's.
pub fn annotate_peer_agent(peer: &PeerInfo, agent: &mut AgentInfo)
    ensures
        final(agent)@ == annotated(peer@, old(agent)@),
{
    strip_peer_private_metadata(agent);
    agent.mirror_of_terminal_id = None;
    let mut qualified = presentations::joined(peer.id.as_str(), "::");
    let name = match &agent.name {
        Some(name) => name.clone(),
        None => match &agent.agent {
            Some(name) => name.clone(),
            None => agent.terminal_id.clone(),
        },
    };
    qualified.append(name.as_str());
    agent.peer = Some(peer.id.clone());
    agent.qualified_target = Some(qualified);
    agent.attach = match &peer.transport {
        PeerTransportInfo::Ssh { target, ssh_args, managed_control_path, session } => Some(
            AgentAttachInfo::Ssh {
                target: target.clone(),
                ssh_args: text::clone_strings(ssh_args),
                managed_control_path: text::clone_opt(managed_control_path),
                session: text::clone_opt(session),
                terminal_id: agent.terminal_id.clone(),
                delegation: None,
            },
        ),
        PeerTransportInfo::ApiSocket { .. } => None,
    };
}

// ---------------------------------------------------------------------------
// Agents of this server and its peers

pub open spec fn local_terminals(locals: Seq<AgentView>) -> Seq<Seq<char>> {
    locals.map_values(|a: AgentView| a.terminal_id)
}

/// The remote terminals that local agents stand for.
pub open spec fn mirrored_terminals(locals: Seq<AgentView>) -> Seq<Seq<char>>
    decreases locals.len(),
{
    if locals.len() == 0 {
        Seq::empty()
    } else {
        let front = mirrored_terminals(locals.drop_last());
        match remote_terminal(locals.last().transport) {
            Some(t) => front.push(t),
            None => front,
        }
    }
}

/// The agent is listed here already, under a local terminal.
pub open spec fn duplicates(a: AgentView, terminals: Seq<Seq<char>>, mirrored: Seq<Seq<char>>) -> bool {
    ||| mirrored.contains(a.terminal_id)
    ||| (a.mirror_of_terminal_id matches Some(t) && terminals.contains(t))
    ||| (remote_terminal(a.transport) matches Some(t) && terminals.contains(t))
}

/// The agent is presented by way of this host.
pub open spec fn passes(a: AgentView, peer_id: Seq<char>) -> bool {
    a.presentation matches Some(p) && p.route.contains(peer_id)
}

/// The agents of a peer that are shown beside the local ones.
pub open spec fn shown(
    s: AppView,
    peer: PeerView,
    agents: Seq<AgentView>,
    locals: Seq<AgentView>,
) -> Seq<AgentView>
    decreases agents.len(),
{
    if agents.len() == 0 {
        Seq::empty()
    } else {
        let front = shown(s, peer, agents.drop_last(), locals);
        let a = agents.last();
        if passes(a, s.local_peer_id) || duplicates(
            a,
            local_terminals(locals),
            mirrored_terminals(locals),
        ) {
            front
        } else {
            front.push(annotated(peer, a))
        }
    }
}

/// The agents of one peer, where it is known and has reported.
pub open spec fn shown_of(s: AppView, peer_id: Seq<char>, locals: Seq<AgentView>) -> Seq<AgentView> {
    match (list::lookup(s.peers, peer_id), list::lookup(s.peer_agent_cache, peer_id)) {
        (Some(peer), Some(agents)) => shown(s, peer, agents, locals),
        _ => Seq::empty(),
    }
}

pub open spec fn shown_of_all(
    s: AppView,
    peer_ids: Seq<Seq<char>>,
    locals: Seq<AgentView>,
) -> Seq<AgentView>
    decreases peer_ids.len(),
{
    if peer_ids.len() == 0 {
        Seq::empty()
    } else {
        shown_of_all(s, peer_ids.drop_last(), locals) + shown_of(s, peer_ids.last(), locals)
    }
}

/// The local agents, and those of the peers in the order of their names.
pub open spec fn agents_everywhere(s: AppView, locals: Seq<AgentView>) -> Seq<AgentView> {
    locals + shown_of_all(s, sorting::ordered(list::keys_of(s.peer_agent_cache)), locals)
}

/// A listed agent of a peer says nothing of its transport, its session or its
/// directories but what this server knows of the peer itself.
pub proof fn lemma_shown_is_annotated(
    s: AppView,
    peer: PeerView,
    agents: Seq<AgentView>,
    locals: Seq<AgentView>,
    i: int,
)
    requires
        0 <= i < shown(s, peer, agents, locals).len(),
    ensures
        ({
            let a = shown(s, peer, agents, locals)[i];
            &&& a.peer == Some(peer.id)
            &&& a.transport is None && a.agent_session is None && a.cwd is None
            &&& a.foreground_cwd is None && a.mirror_of_terminal_id is None
            &&& a.attach == attach_over(peer, a.terminal_id)
            &&& !passes(a, s.local_peer_id)
        }),
    decreases agents.len(),
{
    if agents.len() > 0 {
        let front = shown(s, peer, agents.drop_last(), locals);
        if i < front.len() {
            lemma_shown_is_annotated(s, peer, agents.drop_last(), locals, i);
        }
    }
}

fn same_name(x: &Option<String>, name: &str) -> (r: bool)
    ensures
        r == (text::opt_view(*x) == Some(name@)),
{
    match x {
        Some(s) => text::str_eq(s.as_str(), name),
        None => false,
    }
}

fn remote_terminal_of(t: &Option<AgentTransportInfo>) -> (r: Option<String>)
    ensures
        text::opt_view(r) == remote_terminal(text::viewed(*t)),
{
    match t {
        Some(AgentTransportInfo::Ssh { remote_terminal_id, .. }) => Some(
            remote_terminal_id.clone(),
        ),
        None => None,
    }
}

/// The agent stands for one that is listed already.
pub fn peer_agent_duplicates_local_mirror(
    agent: &AgentInfo,
    local_terminal_ids: &Vec<String>,
    local_remote_terminal_ids: &Vec<String>,
) -> (r: bool)
    ensures
        r == duplicates(
            agent@,
            text::views(local_terminal_ids@),
            text::views(local_remote_terminal_ids@),
        ),
{
    if text::contains_string(local_remote_terminal_ids, agent.terminal_id.as_str()) {
        return true;
    }
    match &agent.mirror_of_terminal_id {
        Some(t) => if text::contains_string(local_terminal_ids, t.as_str()) {
            return true;
        },
        None => {},
    }
    match remote_terminal_of(&agent.transport) {
        Some(t) => text::contains_string(local_terminal_ids, t.as_str()),
        None => false,
    }
}

fn terminals_of(locals: &List<AgentInfo>) -> (r: Vec<String>)
    ensures
        text::views(r@) == local_terminals(locals@),
{
    let mut out: Vec<String> = Vec::new();
    let mut i: usize = 0;
    while i < locals.len()
        invariant
            i <= locals@.len(),
            out@.len() == i,
            forall|k: int| 0 <= k < i ==> (#[trigger] out@[k])@ == locals@[k].terminal_id,
        decreases locals@.len() - i,
    {
        out.push(locals.at(i).terminal_id.clone());
        i += 1;
    }
    assert(text::views(out@) =~= local_terminals(locals@));
    out
}

fn mirrors_of(locals: &List<AgentInfo>) -> (r: Vec<String>)
    ensures
        text::views(r@) == mirrored_terminals(locals@),
{
    let mut out: Vec<String> = Vec::new();
    let ghost all = locals@;
    let mut i: usize = 0;
    assert(text::views(out@) =~= mirrored_terminals(all.take(0)));
    while i < locals.len()
        invariant
            i <= all.len(),
            all == locals@,
            text::views(out@) == mirrored_terminals(all.take(i as int)),
        decreases all.len() - i,
    {
        assert(all.take(i as int + 1).drop_last() =~= all.take(i as int));
        assert(all.take(i as int + 1).last() == all[i as int]);
        match remote_terminal_of(&locals.at(i).transport) {
            Some(t) => {
                let ghost before = text::views(out@);
                out.push(t);
                assert(text::views(out@) =~= before.push(t@));
            },
            None => {},
        }
        i += 1;
    }
    assert(all.take(all.len() as int) =~= all);
    out
}

impl App {
    fn shown_agents(
        &self,
        peer: &PeerInfo,
        agents: &List<AgentInfo>,
        terminals: &Vec<String>,
        mirrored: &Vec<String>,
        Ghost(locals): Ghost<Seq<AgentView>>,
        out: &mut List<AgentInfo>,
    )
        requires
            text::views(terminals@) == local_terminals(locals),
            text::views(mirrored@) == mirrored_terminals(locals),
        ensures
            final(out)@ == old(out)@ + shown(self@, peer@, agents@, locals),
    {
        let ghost all = agents@;
        let ghost start = out@;
        let mut i: usize = 0;
        assert(start + shown(self@, peer@, all.take(0), locals) =~= start);
        while i < agents.len()
            invariant
                i <= all.len(),
                all == agents@,
                text::views(terminals@) == local_terminals(locals),
                text::views(mirrored@) == mirrored_terminals(locals),
                out@ == start + shown(self@, peer@, all.take(i as int), locals),
            decreases all.len() - i,
        {
            assert(all.take(i as int + 1).drop_last() =~= all.take(i as int));
            assert(all.take(i as int + 1).last() == all[i as int]);
            let agent = agents.at(i);
            let through = match &agent.presentation {
                Some(p) => text::contains_string(&p.route, self.local_peer_id.as_str()),
                None => false,
            };
            if !through && !peer_agent_duplicates_local_mirror(agent, terminals, mirrored) {
                let mut copy = agent.clone();
                annotate_peer_agent(peer, &mut copy);
                let ghost before = out@;
                out.push(copy);
                assert(out@ =~= start + shown(self@, peer@, all.take(i as int + 1), locals));
            }
            i += 1;
        }
        assert(all.take(all.len() as int) =~= all);
    }

    /// The agents of this server, and those of its peers where they are asked
    /// for. `locals` are the agents of this server.
    pub fn collect_agent_infos_with_peers(
        &self,
        locals: List<AgentInfo>,
        include_peers: bool,
    ) -> (r: List<AgentInfo>)
        ensures
            r@ == if include_peers {
                agents_everywhere(self@, locals@)
            } else {
                locals@
            },
    {
        if !include_peers {
            return locals;
        }
        let ghost given = locals@;
        let terminals = terminals_of(&locals);
        let mirrored = mirrors_of(&locals);
        let keys = self.peer_agent_cache.keys();
        let peer_ids = sorting::sort_names(&keys);
        let ghost ids = text::views(peer_ids@);
        let mut out = locals;
        let mut i: usize = 0;
        assert(given + shown_of_all(self@, ids.take(0), given) =~= given);
        while i < peer_ids.len()
            invariant
                i <= peer_ids@.len() == ids.len(),
                ids == text::views(peer_ids@),
                text::views(terminals@) == local_terminals(given),
                text::views(mirrored@) == mirrored_terminals(given),
                out@ == given + shown_of_all(self@, ids.take(i as int), given),
            decreases peer_ids@.len() - i,
        {
            assert(ids.take(i as int + 1).drop_last() =~= ids.take(i as int));
            assert(ids.take(i as int + 1).last() == ids[i as int]);
            let ghost before = out@;
            let id = peer_ids[i].as_str();
            match (self.peers.get(id), self.peer_agent_cache.get(id)) {
                (Some(peer), Some(agents)) => {
                    self.shown_agents(
                        peer,
                        &agents.agents,
                        &terminals,
                        &mirrored,
                        Ghost(given),
                        &mut out,
                    );
                },
                _ => {},
            }
            assert(out@ =~= given + shown_of_all(self@, ids.take(i as int + 1), given));
            i += 1;
        }
        assert(ids.take(ids.len() as int) =~= ids);
        out
    }
}

// ---------------------------------------------------------------------------
// Where a request goes

/// What the panes of this server make of a target.
pub enum LocalTarget {
    Found(TerminalTarget),
    /// Several answer to it; the error says which.
    Ambiguous(ErrorBody),
    NotFound,
}

pub enum AgentRoute {
    Local(TerminalTarget),
    Peer { peer: PeerInfo, target: String },
}

pub enum RouteView {
    Local(TerminalTarget),
    Peer { peer: PeerView, target: Seq<char> },
}

impl View for AgentRoute {
    type V = RouteView;

    open spec fn view(&self) -> RouteView {
        match self {
            AgentRoute::Local(t) => RouteView::Local(*t),
            AgentRoute::Peer { peer, target } => RouteView::Peer { peer: peer@, target: target@ },
        }
    }
}

/// The agent goes by that name.
pub open spec fn named(a: AgentView, target: Seq<char>) -> bool {
    a.terminal_id == target || a.pane_id == target || a.name == Some(target) || a.agent == Some(
        target,
    ) || a.qualified_target == Some(target)
}

pub open spec fn answers_to(target: Seq<char>) -> spec_fn(AgentView) -> bool {
    |a: AgentView| a.peer is Some && named(a, target)
}

pub open spec fn status_name(status: AgentStatus) -> Seq<char> {
    match status {
        AgentStatus::Idle => "Idle"@,
        AgentStatus::Working => "Working"@,
        AgentStatus::Blocked => "Blocked"@,
        AgentStatus::Done => "Done"@,
        AgentStatus::Unknown => "Unknown"@,
    }
}

pub open spec fn or_else(x: Option<Seq<char>>, other: Seq<char>) -> Seq<char> {
    match x {
        Some(s) => s,
        None => other,
    }
}

pub open spec fn candidate(a: AgentView) -> Seq<char> {
    "peer="@ + or_else(a.peer, "local"@) + " terminal_id="@ + a.terminal_id + " pane_id="@
        + a.pane_id + " workspace_id="@ + a.workspace_id + " tab_id="@ + a.tab_id + " cwd="@
        + or_else(a.cwd, "unknown"@) + " status="@ + status_name(a.agent_status)
}

/// The candidates, one after the other.
pub open spec fn candidates(agents: Seq<AgentView>) -> Seq<char>
    decreases agents.len(),
{
    if agents.len() == 0 {
        Seq::empty()
    } else if agents.len() == 1 {
        candidate(agents[0])
    } else {
        candidates(agents.drop_last()) + "; "@ + candidate(agents.last())
    }
}

pub open spec fn agent_not_found(target: Seq<char>) -> Refusal {
    ("agent_not_found"@, "agent target "@ + target + " not found"@)
}

pub open spec fn peer_not_found(peer_id: Seq<char>) -> Refusal {
    ("peer_not_found"@, "peer "@ + peer_id + " not found"@)
}

pub open spec fn ambiguous(target: Seq<char>, agents: Seq<AgentView>) -> Refusal {
    (
        "agent_target_ambiguous"@,
        "agent target "@ + target + " is ambiguous; candidates: "@ + candidates(agents),
    )
}

/// The route of a target that names no local pane and no peer.
pub open spec fn route_by_search(s: AppView, target: Seq<char>, found: Seq<AgentView>) -> Result<
    RouteView,
    Refusal,
> {
    if found.len() == 0 {
        Err(agent_not_found(target))
    } else if found.len() == 1 {
        match list::lookup(s.peers, found[0].peer->0) {
            Some(peer) => Ok(RouteView::Peer { peer, target: found[0].terminal_id }),
            None => Err(peer_not_found(found[0].peer->0)),
        }
    } else {
        Err(ambiguous(target, found))
    }
}

/// The route of a target: a local pane first, then `peer::name`, then whatever
/// agent of a peer answers to it.
pub open spec fn route_of(
    s: AppView,
    target: Seq<char>,
    local: LocalTarget,
    locals: Seq<AgentView>,
) -> Result<RouteView, Refusal> {
    match local {
        LocalTarget::Found(t) => Ok(RouteView::Local(t)),
        LocalTarget::Ambiguous(e) => Err(e@),
        LocalTarget::NotFound => match text::split_first(target, "::"@) {
            Some((peer_id, name)) => match list::lookup(s.peers, peer_id) {
                None => Err(peer_not_found(peer_id)),
                Some(peer) => if name.len() == 0 {
                    Err(agent_not_found(target))
                } else {
                    Ok(RouteView::Peer { peer, target: name })
                },
            },
            None => route_by_search(
                s,
                target,
                agents_everywhere(s, locals).filter(answers_to(target)),
            ),
        },
    }
}

pub(crate) fn refuse_agent(target: &str) -> (e: ErrorBody)
    ensures
        e@ == agent_not_found(target@),
{
    let mut message = presentations::joined("agent target ", target);
    message.append(" not found");
    ErrorBody::new("agent_not_found", message.as_str())
}

pub(crate) fn refuse_peer(peer_id: &str) -> (e: ErrorBody)
    ensures
        e@ == peer_not_found(peer_id@),
{
    let mut message = presentations::joined("peer ", peer_id);
    message.append(" not found");
    ErrorBody::new("peer_not_found", message.as_str())
}

fn status_text(status: AgentStatus) -> (r: &'static str)
    ensures
        r@ == status_name(status),
{
    match status {
        AgentStatus::Idle => "Idle",
        AgentStatus::Working => "Working",
        AgentStatus::Blocked => "Blocked",
        AgentStatus::Done => "Done",
        AgentStatus::Unknown => "Unknown",
    }
}

fn append_or(line: &mut String, x: &Option<String>, other: &str)
    ensures
        final(line)@ == old(line)@ + or_else(text::opt_view(*x), other@),
{
    match x {
        Some(s) => line.append(s.as_str()),
        None => line.append(other),
    }
}

/// The line that describes one of several candidates.
pub fn agent_candidate_text(agent: &AgentInfo) -> (r: String)
    ensures
        r@ == candidate(agent@),
{
    let mut line = "peer=".to_string();
    append_or(&mut line, &agent.peer, "local");
    line.append(" terminal_id=");
    line.append(agent.terminal_id.as_str());
    line.append(" pane_id=");
    line.append(agent.pane_id.as_str());
    line.append(" workspace_id=");
    line.append(agent.workspace_id.as_str());
    line.append(" tab_id=");
    line.append(agent.tab_id.as_str());
    line.append(" cwd=");
    append_or(&mut line, &agent.cwd, "unknown");
    line.append(" status=");
    line.append(status_text(agent.agent_status));
    line
}

fn candidates_text(agents: &List<AgentInfo>) -> (r: String)
    ensures
        r@ == candidates(agents@),
{
    let ghost all = agents@;
    let mut out = String::new();
    let mut i: usize = 0;
    assert(all.take(0) =~= Seq::<AgentView>::empty());
    assert(out@ =~= candidates(all.take(0)));
    while i < agents.len()
        invariant
            i <= all.len(),
            all == agents@,
            out@ == candidates(all.take(i as int)),
        decreases all.len() - i,
    {
        assert(all.take(i as int + 1).drop_last() =~= all.take(i as int));
        assert(all.take(i as int + 1).last() == all[i as int]);
        let line = agent_candidate_text(agents.at(i));
        if i == 0 {
            out = line;
        } else {
            out.append("; ");
            out.append(line.as_str());
        }
        i += 1;
    }
    assert(all.take(all.len() as int) =~= all);
    out
}

/// The agent goes by that name.
pub fn agent_matches_target(agent: &AgentInfo, target: &str) -> (r: bool)
    ensures
        r == named(agent@, target@),
{
    text::str_eq(agent.terminal_id.as_str(), target) || text::str_eq(
        agent.pane_id.as_str(),
        target,
    ) || same_name(&agent.name, target) || same_name(&agent.agent, target) || same_name(
        &agent.qualified_target,
        target,
    )
}

impl App {
    fn search_peers(&self, target: &str, locals: List<AgentInfo>) -> (r: Result<
        AgentRoute,
        ErrorBody,
    >)
        ensures
            text::outcome(r) == route_by_search(
                self@,
                target@,
                agents_everywhere(self@, locals@).filter(answers_to(target@)),
            ),
    {
        let mut found = self.collect_agent_infos_with_peers(locals, true);
        let ghost all = found@;
        let hit = |a: &AgentInfo| -> (b: bool)
            ensures
                b == answers_to(target@)(a@),
        {
            a.peer.is_some() && agent_matches_target(a, target)
        };
        found.retain_by(hit, Ghost(answers_to(target@)));
        proof {
            list::lemma_filtered_holds(all, answers_to(target@));
        }
        let n: usize = found.len();
        if n == 0 {
            return Err(refuse_agent(target));
        }
        if n > 1 {
            let mut message = presentations::joined("agent target ", target);
            message.append(" is ambiguous; candidates: ");
            message.append(candidates_text(&found).as_str());
            return Err(ErrorBody::new("agent_target_ambiguous", message.as_str()));
        }
        let agent = found.at(0);
        assert(answers_to(target@)(found@[0]));
        let peer_id = match &agent.peer {
            Some(peer_id) => peer_id.as_str(),
            None => return Err(refuse_agent(target)),
        };
        match self.peers.get(peer_id) {
            Some(peer) => Ok(
                AgentRoute::Peer { peer: peer.clone(), target: agent.terminal_id.clone() },
            ),
            None => Err(refuse_peer(peer_id)),
        }
    }

    /// Where a request to an agent goes.
    pub fn resolve_agent_route(
        &self,
        target: &str,
        local: LocalTarget,
        locals: List<AgentInfo>,
    ) -> (r: Result<AgentRoute, ErrorBody>)
        ensures
            text::outcome(r) == route_of(self@, target@, local, locals@),
    {
        match local {
            LocalTarget::Found(t) => return Ok(AgentRoute::Local(t)),
            LocalTarget::Ambiguous(e) => return Err(e),
            LocalTarget::NotFound => {},
        }
        match text::split_once(target, "::") {
            Some((peer_id, name)) => {
                let peer = match self.peers.get(peer_id.as_str()) {
                    Some(peer) => peer.clone(),
                    None => return Err(refuse_peer(peer_id.as_str())),
                };
                if name.as_str().is_empty() {
                    return Err(refuse_agent(target));
                }
                Ok(AgentRoute::Peer { peer, target: name })
            },
            None => self.search_peers(target, locals),
        }
    }
}

/// An exact local name wins over a peer of the same spelling.
pub proof fn lemma_local_targets_win(
    s: AppView,
    target: Seq<char>,
    t: TerminalTarget,
    locals: Seq<AgentView>,
)
    ensures
        route_of(s, target, LocalTarget::Found(t), locals) == Ok::<RouteView, Refusal>(
            RouteView::Local(t),
        ),
{
}

pub open spec fn is_peer_get(r: Request, target: Seq<char>) -> bool {
    r.id@ == "peer:agent:get"@ && (r.method matches Method::PeerAgentGet(t) && t.target@ == target)
}

/// The question for one agent of a peer.
pub fn peer_agent_get(target: String) -> (r: Request)
    ensures
        is_peer_get(r, target@),
{
    Request {
        id: "peer:agent:get".to_string(),
        method: Method::PeerAgentGet(AgentTarget { target }),
    }
}

// ---------------------------------------------------------------------------
// Refreshes

pub open spec fn healthy_with(peer_id: Seq<char>) -> spec_fn((Seq<char>, BridgeView)) -> bool {
    |row: (Seq<char>, BridgeView)| row.0 == peer_id && row.1.healthy
}

/// No connection to the peer is needed, or one of them is sound.
pub open spec fn bridges_sound(s: AppView, peer_id: Seq<char>) -> bool {
    !list::present(s.peer_bridges, peer_id) || list::some(s.peer_bridges, healthy_with(peer_id))
}

pub open spec fn status_of(connected: bool) -> PeerStatus {
    if connected {
        PeerStatus::Connected
    } else {
        PeerStatus::Disconnected
    }
}

pub open spec fn with_status(
    peers: Seq<(Seq<char>, PeerView)>,
    peer_id: Seq<char>,
    status: PeerStatus,
) -> Seq<(Seq<char>, PeerView)> {
    match list::lookup(peers, peer_id) {
        Some(peer) => list::with(peers, peer_id, PeerView { status, ..peer }),
        None => peers,
    }
}

/// What a peer's answer about its agents changes. Late answers change nothing.
pub open spec fn refreshed(
    s: AppView,
    peer_id: Seq<char>,
    generation: u64,
    observed_at_ms: u64,
    agents: Option<Seq<AgentView>>,
) -> AppView {
    if list::lookup(s.peer_refresh_generations, peer_id) != Some(generation) || !list::present(
        s.peers,
        peer_id,
    ) {
        s
    } else {
        match agents {
            Some(agents) => {
                let leased = api_peers::incoming_leased(
                    AppView {
                        peer_agent_cache: list::with(s.peer_agent_cache, peer_id, agents),
                        ..s
                    },
                    peer_id,
                    observed_at_ms,
                );
                AppView {
                    peers: with_status(s.peers, peer_id, status_of(bridges_sound(s, peer_id))),
                    ..leased
                }
            },
            None => AppView {
                peer_agent_cache: list::without(s.peer_agent_cache, peer_id),
                peers: with_status(s.peers, peer_id, PeerStatus::Disconnected),
                ..s
            },
        }
    }
}

impl App {
    pub fn has_sound_bridge(&self, peer_id: &str) -> (r: bool)
        ensures
            r == bridges_sound(self@, peer_id@),
    {
        let hit = |row: &(String, PeerBridge)| -> (b: bool)
            ensures
                b == healthy_with(peer_id@)(row@),
        {
            text::str_eq(row.0.as_str(), peer_id) && row.1.healthy
        };
        !self.peer_bridges.contains(peer_id) || self.peer_bridges.some_by(
            hit,
            Ghost(healthy_with(peer_id@)),
        )
    }

    pub(crate) fn set_peer_status(&mut self, peer_id: &str, connected: bool)
        ensures
            final(self)@ == (AppView {
                peers: with_status(old(self)@.peers, peer_id@, status_of(connected)),
                ..old(self)@
            }),
    {
        match self.peers.remove(peer_id) {
            Some(peer) => {
                let mut peer = peer;
                peer.status = if connected {
                    PeerStatus::Connected
                } else {
                    PeerStatus::Disconnected
                };
                proof {
                    list::lemma_without_twice(old(self)@.peers, peer_id@);
                }
                self.peers.insert(peer_id.to_string(), peer);
            },
            None => {
                proof {
                    list::lemma_without_absent(old(self)@.peers, peer_id@);
                }
            },
        }
    }

    /// A peer has answered, or not, about its agents.
    pub fn apply_peer_refresh(
        &mut self,
        peer_id: &str,
        generation: u64,
        observed_at_ms: u64,
        result: Result<List<AgentInfo>, String>,
    )
        ensures
            final(self)@ == refreshed(
                old(self)@,
                peer_id@,
                generation,
                observed_at_ms,
                match result {
                    Ok(agents) => Some(agents@),
                    Err(_) => None,
                },
            ),
    {
        let current = match self.peer_refresh_generations.get(peer_id) {
            Some(g) => *g == generation,
            None => false,
        };
        if !current || !self.peers.contains(peer_id) {
            return;
        }
        match result {
            Ok(agents) => {
                let sound = self.has_sound_bridge(peer_id);
                self.peer_agent_cache.insert(peer_id.to_string(), PeerAgents { agents });
                self.renew_incoming_peer_lease(peer_id, observed_at_ms);
                self.set_peer_status(peer_id, sound);
            },
            Err(_) => {
                self.peer_agent_cache.discard(peer_id);
                self.set_peer_status(peer_id, false);
            },
        }
    }
}

// ---------------------------------------------------------------------------
// Asking a peer

pub open spec fn is_list_request(r: Request) -> bool {
    r.id@ == "peer:agent:list"@ && (r.method matches Method::PeerAgentList(p)
        && json::is_empty_object(p))
}

/// The question for the agents of a peer.
pub fn peer_agent_list_request() -> (r: Request)
    ensures
        is_list_request(r),
{
    Request {
        id: "peer:agent:list".to_string(),
        method: Method::PeerAgentList(Json::Object(Vec::new())),
    }
}

/// The agents that a peer's answer lists. `listed` is what its `result.agents`
/// reads as.
pub open spec fn agents_reported(
    result: Result<Json, String>,
    listed: Result<List<AgentInfo>, String>,
) -> Result<Seq<AgentView>, Seq<char>> {
    match result {
        Err(e) => Err(e@),
        Ok(response) => if json::has(response, "error"@) {
            Err(
                match json::as_text(
                    json::member(json::member(response, "error"@), "message"@),
                ) {
                    Some(message) => message,
                    None => "peer.agent.list failed"@,
                },
            )
        } else {
            match listed {
                Ok(agents) => Ok(agents@),
                Err(err) => Err("peer.agent.list returned invalid agents: "@ + err@),
            }
        },
    }
}

pub fn peer_agent_list_value(
    result: Result<Json, String>,
    listed: Result<List<AgentInfo>, String>,
) -> (r: Result<List<AgentInfo>, String>)
    ensures
        text::outcome(r) == agents_reported(result, listed),
{
    let response = match result {
        Ok(response) => response,
        Err(e) => return Err(e),
    };
    match response.get("error") {
        Some(error) => return Err(
            match error.text_member("message") {
                Some(message) => message.to_string(),
                None => "peer.agent.list failed".to_string(),
            },
        ),
        None => {},
    }
    match listed {
        Ok(agents) => Ok(agents),
        Err(err) => Err(
            presentations::joined("peer.agent.list returned invalid agents: ", err.as_str()),
        ),
    }
}

/// How a request over a socket failed.
#[derive(Debug, Clone, Copy, PartialEq, Eq, Structural)]
pub enum SocketFailure {
    NotFound,
    ConnectionRefused,
    WouldBlock,
    TimedOut,
    Interrupted,
    Other,
}

/// A peer is asked for this long.
pub const PEER_REQUEST_TIMEOUT_MS: u64 = 5000;

/// One try takes no longer than this.
pub const PEER_TRY_TIMEOUT_MS: u64 = 2000;

pub const PEER_RETRY_PAUSE_MS: u64 = 50;

pub fn is_transient_peer_socket_error(failure: SocketFailure) -> (r: bool)
    ensures
        r == (failure != SocketFailure::Other),
{
    match failure {
        SocketFailure::Other => false,
        _ => true,
    }
}

/// How long the next try may take.
pub fn peer_try_timeout(now_ms: u64, deadline_ms: u64) -> (r: u64)
    ensures
        r == if deadline_ms <= now_ms {
            0int
        } else if deadline_ms - now_ms < PEER_TRY_TIMEOUT_MS {
            deadline_ms - now_ms
        } else {
            PEER_TRY_TIMEOUT_MS as int
        },
{
    if deadline_ms <= now_ms {
        0
    } else if deadline_ms - now_ms < PEER_TRY_TIMEOUT_MS {
        deadline_ms - now_ms
    } else {
        PEER_TRY_TIMEOUT_MS
    }
}

/// What follows a try that failed: another one after a pause, while there is time
/// and hope, or the error.
pub fn after_failed_try(
    peer_id: &str,
    failure: SocketFailure,
    err: &str,
    now_ms: u64,
    deadline_ms: u64,
) -> (r: Result<u64, String>)
    ensures
        if failure != SocketFailure::Other && now_ms < deadline_ms {
            r == Ok::<u64, String>(PEER_RETRY_PAUSE_MS)
        } else {
            r matches Err(message) && message@ == "peer "@ + peer_id@ + " unreachable: "@ + err@
        },
{
    if is_transient_peer_socket_error(failure) && now_ms < deadline_ms {
        return Ok(PEER_RETRY_PAUSE_MS);
    }
    let mut message = presentations::joined("peer ", peer_id);
    message.append(" unreachable: ");
    message.append(err);
    Err(message)
}

} // verus!
