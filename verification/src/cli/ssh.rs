//! `herdr ssh`: an interactive SSH session that is presented as a pane of the
//! remote server. Wherever that cannot be had, plain `ssh` runs instead.

use vstd::prelude::*;
use vstd::string::*;
use vstd::utf8;

use crate::api::schema::agents::AgentAttachInfo;
use crate::api::schema::common::{Method, PaneTarget, Request};
use crate::api::schema::peers::{
    PeerConnectSshParams, PeerDisconnectSshParams, PeerKeepaliveSshParams, TerminalDelegationClaim,
};
use crate::json::{self, Json};
use crate::text;

verus! {

/// An interactive invocation of `ssh`.
pub struct ParsedSshInvocation {
    pub target: String,
    pub ssh_args: Vec<String>,
}

/// The session that a server runs where none is named.
pub open spec fn default_session() -> Seq<char> {
    "default"@
}

/// The remote session to use: the default one where none was asked for.
pub fn explicit_remote_ssh_session(session: Option<String>) -> (r: String)
    ensures
        r@ == match session {
            Some(s) => s@,
            None => default_session(),
        },
{
    match session {
        Some(s) => s,
        None => "default".to_string(),
    }
}

pub open spec fn connects(
    p: PeerConnectSshParams,
    parsed: ParsedSshInvocation,
    control_path: Option<String>,
    owner_pane_id: Option<String>,
) -> bool {
    &&& p.target@ == parsed.target@
    &&& p.ssh_args@ == parsed.ssh_args@
    &&& p.managed_control_path == control_path
    &&& text::opt_view(p.session) == Some(default_session())
    &&& text::opt_view(p.label) == Some(parsed.target@)
    &&& p.owner_pane_id == owner_pane_id
    &&& p.owner is None
}

pub open spec fn is_connect(
    r: Request,
    parsed: ParsedSshInvocation,
    control_path: Option<String>,
    owner_pane_id: Option<String>,
) -> bool {
    &&& r.id@ == "cli:ssh:connect"@
    &&& r.method matches Method::PeerConnectSsh(p) && connects(
        p,
        parsed,
        control_path,
        owner_pane_id,
    )
}

/// The request closes the pane that ran the command.
pub open spec fn closes(r: Request, pane_id: Seq<char>) -> bool {
    &&& r.id@ == "cli:ssh:close-owner-pane"@
    &&& r.method matches Method::PaneClose(t) && t.pane_id@ == pane_id
}

/// The connection that an intercepted `ssh` asks for.
pub fn shim_peer_connect_params(
    parsed: &ParsedSshInvocation,
    managed_control_path: Option<String>,
    owner_pane_id: Option<String>,
) -> (p: PeerConnectSshParams)
    ensures
        connects(p, *parsed, managed_control_path, owner_pane_id),
{
    PeerConnectSshParams {
        target: parsed.target.clone(),
        ssh_args: text::clone_strings(&parsed.ssh_args),
        managed_control_path,
        session: Some(explicit_remote_ssh_session(None)),
        label: Some(parsed.target.clone()),
        owner_pane_id,
        owner: None,
    }
}

/// The keepalive ends when the server rejects it; a request that did not get
/// through is tried again.
pub fn ssh_keepalive_should_stop(response: &Result<Json, String>) -> (r: bool)
    ensures
        r == (response matches Ok(value) && json::has(*value, "error"@)),
{
    match response {
        Ok(value) => value.get("error").is_some(),
        Err(_) => false,
    }
}

/// The keepalive goes on after a pause: it was not told to stop, and the managed
/// connection, where there is one, is alive.
pub fn keepalive_continues(stopped: bool, managed_alive: Option<bool>) -> (r: bool)
    ensures
        r == (!stopped && managed_alive != Some(false)),
{
    if stopped {
        return false;
    }
    match managed_alive {
        Some(alive) => alive,
        None => true,
    }
}

pub open spec fn is_keepalive(r: Request, peer_id: Seq<char>, connection_id: Seq<char>) -> bool {
    &&& r.id@ == "cli:ssh:keepalive"@
    &&& r.method matches Method::PeerKeepaliveSsh(p) && p.peer_id@ == peer_id && p.connection_id@
        == connection_id
}

pub fn keepalive_request(peer_id: &str, connection_id: &str) -> (r: Request)
    ensures
        is_keepalive(r, peer_id@, connection_id@),
{
    Request {
        id: "cli:ssh:keepalive".to_string(),
        method: Method::PeerKeepaliveSsh(
            PeerKeepaliveSshParams {
                peer_id: peer_id.to_string(),
                connection_id: connection_id.to_string(),
            },
        ),
    }
}

pub open spec fn is_disconnect(
    r: Request,
    link: SshLink,
    activated: Option<TerminalDelegationClaim>,
) -> bool {
    &&& r.id@ == "cli:ssh:disconnect"@
    &&& r.method matches Method::PeerDisconnectSsh(p) && p.peer_id@ == link.peer_id@
        && p.connection_id@ == link.connection_id@ && p.activated_delegation == activated
}

fn disconnect_request(link: &SshLink, activated: Option<TerminalDelegationClaim>) -> (r: Request)
    ensures
        is_disconnect(r, *link, activated),
{
    Request {
        id: "cli:ssh:disconnect".to_string(),
        method: Method::PeerDisconnectSsh(
            PeerDisconnectSshParams {
                peer_id: link.peer_id.clone(),
                connection_id: link.connection_id.clone(),
                activated_delegation: activated,
            },
        ),
    }
}

/// A server's answer to a disconnect: the message with which it refused.
pub fn disconnect_ssh_peer(response: Result<Json, String>) -> (r: Result<(), String>)
    ensures
        match response {
            Err(e) => r == Err::<(), String>(e),
            Ok(value) => match json::as_text(
                json::member(json::member(value, "error"@), "message"@),
            ) {
                Some(message) => r matches Err(e) && e@ == message,
                None => r is Ok,
            },
        },
{
    let value = match response {
        Ok(value) => value,
        Err(e) => return Err(e),
    };
    match value.get("error") {
        Some(error) => match error.text_member("message") {
            Some(message) => Err(message.to_string()),
            None => Ok(()),
        },
        None => Ok(()),
    }
}

/// A connection that the server has made.
pub struct SshLink {
    pub parsed: ParsedSshInvocation,
    pub control_path: Option<String>,
    pub owner_pane_id: Option<String>,
    pub peer_id: String,
    pub connection_id: String,
}

/// Where an invocation stands, and what it waits for.
pub enum SshState {
    /// Whether invocations are integrated.
    Start,
    /// What the arguments come to.
    Parsing,
    /// Whether the session is interactive.
    Preflighting(ParsedSshInvocation),
    /// The managed connection.
    Authenticating(ParsedSshInvocation),
    /// The server's answer.
    Connecting {
        parsed: ParsedSshInvocation,
        control_path: Option<String>,
        owner_pane_id: Option<String>,
    },
    /// The attach info in the answer.
    ReadingAttach(SshLink),
    /// The command that attaches.
    BuildingCommand(SshLink, AgentAttachInfo),
    /// The answer to the disconnect of a connection that is of no use.
    Refusing(String),
    /// The end of the session.
    Running(SshLink, AgentAttachInfo),
    /// Whether the delegation was activated.
    AskingActivation(SshLink, AgentAttachInfo, Result<i32, String>),
    /// That the delegation was given up.
    Abandoning(SshLink, Result<i32, String>),
    /// The answer to the disconnect after the session.
    Releasing { owner_pane_id: Option<String>, activated: bool, outcome: Result<i32, String> },
    /// The answer to closing the pane that ran the command.
    Closing(Result<i32, String>),
    Finished,
}

pub enum SshEvent {
    Integrates(bool),
    Parsed(Option<ParsedSshInvocation>),
    Preflight(Option<bool>),
    /// The managed connection's control path, where one is managed.
    Authenticated { managed: Result<Option<String>, String>, owner_pane_id: Option<String> },
    Answered(Result<Json, String>),
    AttachRead(Result<AgentAttachInfo, String>),
    Command(Option<Vec<String>>),
    Ran(Result<i32, String>),
    /// What the remote server says of the delegation, where it says anything.
    Activated(Option<bool>),
    Abandoned,
}

pub enum SshAction {
    CheckIntegration,
    ParseArguments,
    Preflight,
    Authenticate { target: String, ssh_args: Vec<String> },
    Send(Request),
    ReadAttach(Json),
    BuildCommand,
    /// Keep the managed connection, keep the peer alive, and run the command.
    RunCommand { argv: Vec<String>, keepalive_target: String, control_path: Option<String> },
    AskActivation,
    AbandonDelegation,
    /// Stop the keepalive, then send.
    StopAndSend(Request),
    /// Give up the managed connection and run plain `ssh`.
    FallBack,
    Finish(Result<i32, String>),
}

/// What comes next: a line for the user first, where there is one.
pub struct SshMove {
    pub state: SshState,
    pub notice: Option<String>,
    pub action: SshAction,
}

/// The event is one that the state waits for.
pub open spec fn expects(state: SshState, event: SshEvent) -> bool {
    match state {
        SshState::Start => event is Integrates,
        SshState::Parsing => event is Parsed,
        SshState::Preflighting(_) => event is Preflight,
        SshState::Authenticating(_) => event is Authenticated,
        SshState::Connecting { .. } => event is Answered,
        SshState::ReadingAttach(_) => event is AttachRead,
        SshState::BuildingCommand(_, _) => event is Command,
        SshState::Refusing(_) => event is Answered,
        SshState::Running(_, _) => event is Ran,
        SshState::AskingActivation(_, _, _) => event is Activated,
        SshState::Abandoning(_, _) => event is Abandoned,
        SshState::Releasing { .. } => event is Answered,
        SshState::Closing(_) => event is Answered,
        SshState::Finished => false,
    }
}

/// Plain `ssh` runs; `notice` says why.
pub open spec fn falls_back(m: SshMove, notice: Option<Seq<char>>) -> bool {
    m.state is Finished && text::opt_view(m.notice) == notice && m.action is FallBack
}

pub open spec fn finishes(m: SshMove, notice: Option<Seq<char>>, outcome: Result<i32, String>) -> bool {
    m.state is Finished && text::opt_view(m.notice) == notice && m.action == SshAction::Finish(
        outcome,
    )
}

/// The peer is disconnected, then plain `ssh` runs.
pub open spec fn refuses(m: SshMove, link: SshLink, notice: Seq<char>) -> bool {
    &&& m.state matches SshState::Refusing(n) && n@ == notice
    &&& m.notice is None
    &&& m.action matches SshAction::Send(r) && is_disconnect(r, link, None)
}

/// The delegation that a session leaves active.
pub open spec fn delegation_of(attach: AgentAttachInfo) -> Option<TerminalDelegationClaim> {
    match attach {
        AgentAttachInfo::Ssh { delegation, .. } => delegation,
        AgentAttachInfo::SshShell { .. } => None,
    }
}

/// The connection is given back, with the delegation that stays active.
pub open spec fn releases(
    m: SshMove,
    link: SshLink,
    delegation: Option<TerminalDelegationClaim>,
    activated: bool,
    outcome: Result<i32, String>,
) -> bool {
    &&& m.state == (SshState::Releasing { owner_pane_id: link.owner_pane_id, activated, outcome })
    &&& m.notice is None
    &&& m.action matches SshAction::StopAndSend(r) && is_disconnect(r, link, delegation)
}

pub open spec fn error_message(value: Json) -> Option<Seq<char>> {
    json::as_text(json::member(json::member(value, "error"@), "message"@))
}

pub open spec fn answered_peer(value: Json) -> Option<Seq<char>> {
    json::as_text(
        json::member(json::member(json::member(value, "result"@), "peer"@), "id"@),
    )
}

pub open spec fn answered_connection(value: Json) -> Option<Seq<char>> {
    json::as_text(json::member(json::member(value, "result"@), "connection_id"@))
}

/// What follows the server's answer to the connect request.
pub open spec fn connected(
    parsed: ParsedSshInvocation,
    control_path: Option<String>,
    owner_pane_id: Option<String>,
    response: Result<Json, String>,
    m: SshMove,
) -> bool {
    match response {
        Err(e) => falls_back(
            m,
            Some("herdr ssh integration unavailable, falling back to ssh: "@ + e@),
        ),
        Ok(value) => if json::has(value, "error"@) {
            falls_back(
                m,
                Some(
                    "herdr ssh integration failed, falling back to ssh: "@ + match error_message(
                        value,
                    ) {
                        Some(message) => message,
                        None => "ssh integration failed"@,
                    },
                ),
            )
        } else if answered_peer(value) is None {
            falls_back(
                m,
                Some("herdr ssh integration returned no peer id, falling back to ssh"@),
            )
        } else if answered_connection(value) is None {
            falls_back(
                m,
                Some("herdr ssh integration returned no connection id, falling back to ssh"@),
            )
        } else {
            &&& m.state matches SshState::ReadingAttach(link) && link.parsed == parsed
                && link.control_path == control_path && link.owner_pane_id == owner_pane_id
                && Some(link.peer_id@) == answered_peer(value) && Some(link.connection_id@)
                == answered_connection(value)
            &&& m.notice is None
            &&& m.action == SshAction::ReadAttach(
                json::member(json::member(value, "result"@), "attach"@),
            )
        },
    }
}

/// `m` is what follows the event in the state.
pub open spec fn ssh_follows(state: SshState, event: SshEvent, m: SshMove) -> bool {
    match (state, event) {
        (SshState::Start, SshEvent::Integrates(yes)) => if yes {
            m.state is Parsing && m.notice is None && m.action is ParseArguments
        } else {
            falls_back(m, None)
        },
        (SshState::Parsing, SshEvent::Parsed(parsed)) => match parsed {
            Some(p) => m.state == SshState::Preflighting(p) && m.notice is None && m.action
                is Preflight,
            None => falls_back(m, None),
        },
        (SshState::Preflighting(p), SshEvent::Preflight(interactive)) => if interactive == Some(
            true,
        ) {
            &&& m.state == SshState::Authenticating(p)
            &&& m.notice is None
            &&& m.action matches SshAction::Authenticate { target, ssh_args } && target@
                == p.target@ && ssh_args@ == p.ssh_args@
        } else {
            falls_back(m, None)
        },
        (
            SshState::Authenticating(p),
            SshEvent::Authenticated { managed, owner_pane_id },
        ) => match managed {
            Err(e) => falls_back(
                m,
                Some("herdr ssh setup failed, falling back to ssh: "@ + e@),
            ),
            Ok(control_path) => {
                &&& m.state == (SshState::Connecting { parsed: p, control_path, owner_pane_id })
                &&& m.notice is None
                &&& m.action matches SshAction::Send(r) && is_connect(
                    r,
                    p,
                    control_path,
                    owner_pane_id,
                )
            },
        },
        (
            SshState::Connecting { parsed, control_path, owner_pane_id },
            SshEvent::Answered(response),
        ) => connected(parsed, control_path, owner_pane_id, response, m),
        (SshState::ReadingAttach(link), SshEvent::AttachRead(attach)) => match attach {
            Ok(a) => m.state == SshState::BuildingCommand(link, a) && m.notice is None && m.action
                is BuildCommand,
            Err(e) => refuses(
                m,
                link,
                "herdr ssh integration returned invalid attach info, falling back to ssh: "@ + e@,
            ),
        },
        (SshState::BuildingCommand(link, attach), SshEvent::Command(argv)) => match argv {
            Some(argv) => {
                &&& m.state == SshState::Running(link, attach)
                &&& m.notice is None
                &&& m.action matches SshAction::RunCommand {
                    argv: run,
                    keepalive_target,
                    control_path,
                } && run == argv && keepalive_target@ == link.parsed.target@ && text::opt_view(
                    control_path,
                ) == text::opt_view(link.control_path)
            },
            None => refuses(
                m,
                link,
                "herdr ssh integration returned an unsupported attach transport, falling back to ssh"@,
            ),
        },
        (SshState::Refusing(notice), SshEvent::Answered(_)) => falls_back(m, Some(notice@)),
        (SshState::Running(link, attach), SshEvent::Ran(outcome)) => m.state
            == SshState::AskingActivation(link, attach, outcome) && m.notice is None && m.action
            is AskActivation,
        (SshState::AskingActivation(link, attach, outcome), SshEvent::Activated(known)) => {
            if activation(known, outcome) {
                releases(m, link, delegation_of(attach), true, outcome)
            } else {
                m.state == SshState::Abandoning(link, outcome) && m.notice is None && m.action
                    is AbandonDelegation
            }
        },
        (SshState::Abandoning(link, outcome), SshEvent::Abandoned) => releases(
            m,
            link,
            None,
            false,
            outcome,
        ),
        (
            SshState::Releasing { owner_pane_id, activated, outcome },
            SshEvent::Answered(response),
        ) => released(owner_pane_id, activated, outcome, response, m),
        (SshState::Closing(outcome), SshEvent::Answered(_)) => finishes(m, None, outcome),
        _ => false,
    }
}

/// The session was presented: the remote server says so, or, where it says
/// nothing, the command succeeded.
pub open spec fn activation(known: Option<bool>, outcome: Result<i32, String>) -> bool {
    match known {
        Some(yes) => yes,
        None => outcome == Ok::<i32, String>(0i32),
    }
}

/// The message with which a disconnect failed.
pub open spec fn disconnect_failure(response: Result<Json, String>) -> Option<Seq<char>> {
    match response {
        Err(e) => Some(e@),
        Ok(value) => error_message(value),
    }
}

pub open spec fn release_notice(response: Result<Json, String>) -> Option<Seq<char>> {
    match disconnect_failure(response) {
        Some(e) => Some("warning: could not release Herdr SSH peer connection: "@ + e),
        None => None,
    }
}

/// What follows the last disconnect: the pane that ran the command is closed
/// where the session took its place.
pub open spec fn released(
    owner_pane_id: Option<String>,
    activated: bool,
    outcome: Result<i32, String>,
    response: Result<Json, String>,
    m: SshMove,
) -> bool {
    if activated && owner_pane_id is Some {
        &&& m.state == SshState::Closing(outcome)
        &&& text::opt_view(m.notice) == release_notice(response)
        &&& m.action matches SshAction::Send(r) && closes(r, owner_pane_id->0@)
    } else {
        finishes(m, release_notice(response), outcome)
    }
}

fn fall_back(notice: Option<String>) -> (m: SshMove)
    ensures
        falls_back(m, text::opt_view(notice)),
{
    SshMove { state: SshState::Finished, notice, action: SshAction::FallBack }
}

fn refuse(link: SshLink, notice: String) -> (m: SshMove)
    ensures
        refuses(m, link, notice@),
{
    let request = disconnect_request(&link, None);
    SshMove {
        state: SshState::Refusing(notice),
        notice: None,
        action: SshAction::Send(request),
    }
}

fn after_connect(
    parsed: ParsedSshInvocation,
    control_path: Option<String>,
    owner_pane_id: Option<String>,
    response: Result<Json, String>,
) -> (m: SshMove)
    ensures
        connected(parsed, control_path, owner_pane_id, response, m),
{
    let value = match response {
        Ok(value) => value,
        Err(e) => {
            return fall_back(
                Some(
                    super::concat(
                        "herdr ssh integration unavailable, falling back to ssh: ",
                        e.as_str(),
                    ),
                ),
            );
        },
    };
    match value.get("error") {
        Some(error) => {
            let message = match error.text_member("message") {
                Some(message) => message,
                None => "ssh integration failed",
            };
            return fall_back(
                Some(
                    super::concat("herdr ssh integration failed, falling back to ssh: ", message),
                ),
            );
        },
        None => {},
    }
    let peer = match value.get("result") {
        Some(result) => match result.get("peer") {
            Some(peer) => peer.text_member("id"),
            None => None,
        },
        None => None,
    };
    let peer_id = match peer {
        Some(id) => id.to_string(),
        None => {
            return fall_back(
                Some(
                    "herdr ssh integration returned no peer id, falling back to ssh".to_string(),
                ),
            );
        },
    };
    let connection = match value.get("result") {
        Some(result) => result.text_member("connection_id"),
        None => None,
    };
    let connection_id = match connection {
        Some(id) => id.to_string(),
        None => {
            return fall_back(
                Some(
                    "herdr ssh integration returned no connection id, falling back to ssh".to_string(),
                ),
            );
        },
    };
    let attach = value.into_member("result").into_member("attach");
    SshMove {
        state: SshState::ReadingAttach(
            SshLink { parsed, control_path, owner_pane_id, peer_id, connection_id },
        ),
        notice: None,
        action: SshAction::ReadAttach(attach),
    }
}

fn release(
    link: SshLink,
    delegation: Option<TerminalDelegationClaim>,
    activated: bool,
    outcome: Result<i32, String>,
) -> (m: SshMove)
    ensures
        releases(m, link, delegation, activated, outcome),
{
    let request = disconnect_request(&link, delegation);
    SshMove {
        state: SshState::Releasing { owner_pane_id: link.owner_pane_id, activated, outcome },
        notice: None,
        action: SshAction::StopAndSend(request),
    }
}

fn after_release(
    owner_pane_id: Option<String>,
    activated: bool,
    outcome: Result<i32, String>,
    response: Result<Json, String>,
) -> (m: SshMove)
    ensures
        released(owner_pane_id, activated, outcome, response, m),
{
    let notice = match disconnect_ssh_peer(response) {
        Ok(()) => None,
        Err(e) => Some(
            super::concat("warning: could not release Herdr SSH peer connection: ", e.as_str()),
        ),
    };
    if activated {
        match owner_pane_id {
            Some(pane_id) => {
                return SshMove {
                    state: SshState::Closing(outcome),
                    notice,
                    action: SshAction::Send(
                        Request {
                            id: "cli:ssh:close-owner-pane".to_string(),
                            method: Method::PaneClose(PaneTarget { pane_id }),
                        },
                    ),
                };
            },
            None => {},
        }
    }
    SshMove { state: SshState::Finished, notice, action: SshAction::Finish(outcome) }
}

/// The first thing an invocation asks.
pub fn run_ssh_command() -> (m: SshMove)
    ensures
        m.state is Start,
        m.notice is None,
        m.action is CheckIntegration,
{
    SshMove { state: SshState::Start, notice: None, action: SshAction::CheckIntegration }
}

/// One step of an invocation.
pub fn ssh_step(state: SshState, event: SshEvent) -> (m: SshMove)
    requires
        expects(state, event),
    ensures
        ssh_follows(state, event, m),
{
    match (state, event) {
        (SshState::Start, SshEvent::Integrates(yes)) => if yes {
            SshMove {
                state: SshState::Parsing,
                notice: None,
                action: SshAction::ParseArguments,
            }
        } else {
            fall_back(None)
        },
        (SshState::Parsing, SshEvent::Parsed(parsed)) => match parsed {
            Some(p) => SshMove {
                state: SshState::Preflighting(p),
                notice: None,
                action: SshAction::Preflight,
            },
            None => fall_back(None),
        },
        (SshState::Preflighting(p), SshEvent::Preflight(interactive)) => {
            let go_on = match interactive {
                Some(yes) => yes,
                None => false,
            };
            if go_on {
                let target = p.target.clone();
                let ssh_args = text::clone_strings(&p.ssh_args);
                SshMove {
                    state: SshState::Authenticating(p),
                    notice: None,
                    action: SshAction::Authenticate { target, ssh_args },
                }
            } else {
                fall_back(None)
            }
        },
        (SshState::Authenticating(p), SshEvent::Authenticated { managed, owner_pane_id }) => {
            let control_path = match managed {
                Ok(control_path) => control_path,
                Err(e) => {
                    return fall_back(
                        Some(
                            super::concat(
                                "herdr ssh setup failed, falling back to ssh: ",
                                e.as_str(),
                            ),
                        ),
                    );
                },
            };
            let params = shim_peer_connect_params(
                &p,
                text::clone_opt(&control_path),
                text::clone_opt(&owner_pane_id),
            );
            SshMove {
                state: SshState::Connecting { parsed: p, control_path, owner_pane_id },
                notice: None,
                action: SshAction::Send(
                    Request {
                        id: "cli:ssh:connect".to_string(),
                        method: Method::PeerConnectSsh(params),
                    },
                ),
            }
        },
        (
            SshState::Connecting { parsed, control_path, owner_pane_id },
            SshEvent::Answered(response),
        ) => after_connect(parsed, control_path, owner_pane_id, response),
        (SshState::ReadingAttach(link), SshEvent::AttachRead(attach)) => match attach {
            Ok(a) => SshMove {
                state: SshState::BuildingCommand(link, a),
                notice: None,
                action: SshAction::BuildCommand,
            },
            Err(e) => refuse(
                link,
                super::concat(
                    "herdr ssh integration returned invalid attach info, falling back to ssh: ",
                    e.as_str(),
                ),
            ),
        },
        (SshState::BuildingCommand(link, attach), SshEvent::Command(argv)) => match argv {
            Some(argv) => {
                let keepalive_target = link.parsed.target.clone();
                let control_path = text::clone_opt(&link.control_path);
                SshMove {
                    state: SshState::Running(link, attach),
                    notice: None,
                    action: SshAction::RunCommand { argv, keepalive_target, control_path },
                }
            },
            None => refuse(
                link,
                "herdr ssh integration returned an unsupported attach transport, falling back to ssh".to_string(),
            ),
        },
        (SshState::Refusing(notice), SshEvent::Answered(_)) => fall_back(Some(notice)),
        (SshState::Running(link, attach), SshEvent::Ran(outcome)) => SshMove {
            state: SshState::AskingActivation(link, attach, outcome),
            notice: None,
            action: SshAction::AskActivation,
        },
        (SshState::AskingActivation(link, attach, outcome), SshEvent::Activated(known)) => {
            let activated = match known {
                Some(yes) => yes,
                None => match &outcome {
                    Ok(code) => *code == 0,
                    Err(_) => false,
                },
            };
            if activated {
                let delegation = match attach {
                    AgentAttachInfo::Ssh { delegation, .. } => delegation,
                    AgentAttachInfo::SshShell { .. } => None,
                };
                release(link, delegation, true, outcome)
            } else {
                SshMove {
                    state: SshState::Abandoning(link, outcome),
                    notice: None,
                    action: SshAction::AbandonDelegation,
                }
            }
        },
        (SshState::Abandoning(link, outcome), SshEvent::Abandoned) => release(
            link,
            None,
            false,
            outcome,
        ),
        (
            SshState::Releasing { owner_pane_id, activated, outcome },
            SshEvent::Answered(response),
        ) => after_release(owner_pane_id, activated, outcome, response),
        (SshState::Closing(outcome), SshEvent::Answered(_)) => SshMove {
            state: SshState::Finished,
            notice: None,
            action: SshAction::Finish(outcome),
        },
        _ => fall_back(None),
    }
}

// ---------------------------------------------------------------------------
// Arguments

/// The arguments as text, where every one of them is UTF-8. Those that are not
/// go to `ssh` as they are.
#[verifier::loop_isolation(false)]
pub fn ssh_os_args_as_utf8(args: Vec<Vec<u8>>) -> (r: Option<Vec<String>>)
    ensures
        match r {
            Some(texts) => texts@.len() == args@.len() && forall|i: int|
                0 <= i < args@.len() ==> utf8::valid_utf8(#[trigger] args@[i]@) && texts@[i]@
                    == utf8::decode_utf8(args@[i]@),
            None => exists|i: int|
                0 <= i < args@.len() && !utf8::valid_utf8(#[trigger] args@[i]@),
        },
{
    let mut rest = args;
    let ghost all = rest@;
    let mut out: Vec<String> = Vec::new();
    while rest.len() > 0
        invariant
            out@.len() <= all.len(),
            rest@ == all.skip(out@.len() as int),
            forall|i: int|
                0 <= i < out@.len() ==> utf8::valid_utf8(#[trigger] all[i]@) && out@[i]@
                    == utf8::decode_utf8(all[i]@),
        decreases rest@.len(),
    {
        let bytes = rest.remove(0);
        let ghost n = out@.len() as int;
        assert(bytes == all[n]);
        assert(rest@ =~= all.skip(n + 1));
        match text::read_utf8(bytes) {
            Some(s) => out.push(s),
            None => {
                assert(!utf8::valid_utf8(all[n]@));
                return None;
            },
        }
    }
    Some(out)
}

} // verus!
