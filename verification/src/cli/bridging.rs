//! What a user of an intercepted `ssh` can rely on.

use vstd::prelude::*;
use vstd::string::*;

use super::ssh::{
    self, ParsedSshInvocation, SshAction, SshEvent, SshLink, SshMove, SshState,
};
use crate::api::schema::agents::AgentAttachInfo;
use crate::api::schema::common::Request;
use crate::json::{self, Json};
use crate::text;

verus! {

/// The connection that is open in a state.
pub open spec fn open_link(state: SshState) -> Option<SshLink> {
    match state {
        SshState::ReadingAttach(link) => Some(link),
        SshState::BuildingCommand(link, _) => Some(link),
        SshState::Running(link, _) => Some(link),
        SshState::AskingActivation(link, _, _) => Some(link),
        SshState::Abandoning(link, _) => Some(link),
        _ => None,
    }
}

/// The request gives this connection back.
pub open spec fn gives_back(r: Request, link: SshLink) -> bool {
    r.method is PeerDisconnectSsh && (r.method->PeerDisconnectSsh_0).peer_id@ == link.peer_id@ && (
    r.method->PeerDisconnectSsh_0).connection_id@ == link.connection_id@
}

/// A connection that was opened stays open or is given back: no way leads to the end but
/// through a request that names it.
pub proof fn lemma_connections_are_given_back(state: SshState, event: SshEvent, m: SshMove, link: SshLink)
    requires
        ssh::ssh_follows(state, event, m),
        open_link(state) == Some(link),
    ensures
        open_link(m.state) == Some(link) || match m.action {
            SshAction::Send(r) => gives_back(r, link),
            SshAction::StopAndSend(r) => gives_back(r, link),
            _ => false,
        },
        !(m.state is Finished),
{
}

/// What the command that ran came to.
pub open spec fn came_to(state: SshState) -> Option<Result<i32, String>> {
    match state {
        SshState::AskingActivation(_, _, outcome) => Some(outcome),
        SshState::Abandoning(_, outcome) => Some(outcome),
        SshState::Releasing { outcome, .. } => Some(outcome),
        SshState::Closing(outcome) => Some(outcome),
        _ => None,
    }
}

/// What the command came to is what the user gets, whatever else happens.
pub proof fn lemma_outcomes_are_passed_on(
    state: SshState,
    event: SshEvent,
    m: SshMove,
    outcome: Result<i32, String>,
)
    requires
        ssh::ssh_follows(state, event, m),
    ensures
        came_to(state) == Some(outcome) ==> came_to(m.state) == Some(outcome) || m.action
            == SshAction::Finish(outcome),
        state is Running && event == SshEvent::Ran(outcome) ==> came_to(m.state) == Some(outcome),
        m.action is Finish ==> came_to(state) == Some(m.action->Finish_0),
{
}

/// The peer is asked to connect as the user asked: to the same target, by the same
/// arguments, on behalf of the pane where the command was given.
pub proof fn lemma_connections_go_where_the_user_said(
    state: SshState,
    event: SshEvent,
    m: SshMove,
    r: Request,
)
    requires
        ssh::ssh_follows(state, event, m),
        m.action == SshAction::Send(r),
        r.method is PeerConnectSsh,
    ensures
        state is Authenticating,
        event is Authenticated && (event->managed) is Ok,
        ({
            let p = r.method->PeerConnectSsh_0;
            let parsed = state->Authenticating_0;
            &&& p.target@ == parsed.target@
            &&& p.ssh_args@ == parsed.ssh_args@
            &&& text::opt_view(p.session) == Some("default"@)
            &&& p.managed_control_path == (event->managed)->Ok_0
            &&& p.owner_pane_id == event->owner_pane_id
            &&& p.owner is None
        }),
{
}

/// Nothing but plain `ssh` happens unless the call can be integrated: the shell takes part,
/// its arguments are understood, and the session is interactive.
pub proof fn lemma_other_calls_are_left_to_ssh(
    parsed: ParsedSshInvocation,
    unparsed: SshMove,
    outside: SshMove,
    batch: SshMove,
    interactive: Option<bool>,
)
    requires
        ssh::ssh_follows(SshState::Start, SshEvent::Integrates(false), outside),
        ssh::ssh_follows(SshState::Parsing, SshEvent::Parsed(None), unparsed),
        ssh::ssh_follows(SshState::Preflighting(parsed), SshEvent::Preflight(interactive), batch),
    ensures
        outside.action is FallBack && outside.notice is None,
        unparsed.action is FallBack && unparsed.notice is None,
        interactive != Some(true) ==> batch.action is FallBack && batch.notice is None,
        interactive == Some(true) ==> batch.action is Authenticate,
{
}

/// A connection is the one that the server's answer names, and the answer's attachment is
/// what is read. An answer that names none, or is an error, leaves the call to `ssh`.
pub proof fn lemma_connections_are_what_the_server_answers(
    parsed: ParsedSshInvocation,
    control_path: Option<String>,
    owner_pane_id: Option<String>,
    response: Result<Json, String>,
    m: SshMove,
)
    requires
        ssh::connected(parsed, control_path, owner_pane_id, response, m),
    ensures
        m.state is ReadingAttach || m.action is FallBack,
        m.state is ReadingAttach ==> {
            let value = response->Ok_0;
            let result = json::member(value, "result"@);
            let link = m.state->ReadingAttach_0;
            &&& response is Ok && !json::has(value, "error"@)
            &&& json::as_text(json::member(json::member(result, "peer"@), "id"@)) == Some(
                link.peer_id@,
            )
            &&& json::as_text(json::member(result, "connection_id"@)) == Some(link.connection_id@)
            &&& link.parsed == parsed && link.owner_pane_id == owner_pane_id && link.control_path
                == control_path
            &&& m.action == SshAction::ReadAttach(json::member(result, "attach"@))
        },
        m.action is FallBack ==> m.notice is Some,
{
}

/// A delegation is reported as taken up exactly if the session was presented: if the remote
/// server says so, or, where it says nothing, if the command succeeded. Only then is the pane
/// closed where the command was given.
pub proof fn lemma_presented_sessions_take_the_pane(
    link: SshLink,
    attach: AgentAttachInfo,
    outcome: Result<i32, String>,
    known: Option<bool>,
    m: SshMove,
    response: Result<Json, String>,
    end: SshMove,
)
    requires
        ssh::ssh_follows(
            SshState::AskingActivation(link, attach, outcome),
            SshEvent::Activated(known),
            m,
        ),
    ensures
        ({
            let presented = known == Some(true) || (known is None && outcome == Ok::<i32, String>(
                0i32,
            ));
            &&& presented <==> m.action is StopAndSend
            &&& !presented ==> m.action is AbandonDelegation
            &&& presented && attach is Ssh ==> (m.action->StopAndSend_0).method is PeerDisconnectSsh
                && ((
            m.action->StopAndSend_0).method->PeerDisconnectSsh_0).activated_delegation
                == attach->delegation
            &&& presented && ssh::ssh_follows(m.state, SshEvent::Answered(response), end) ==> (
            end.action is Send <==> link.owner_pane_id is Some)
            &&& presented && ssh::ssh_follows(m.state, SshEvent::Answered(response), end)
                && end.action is Send ==> (end.action->Send_0).method is PaneClose && ((
            end.action->Send_0).method->PaneClose_0).pane_id@ == (link.owner_pane_id->0)@
        }),
{
}

/// A delegation that nobody took up is never reported as active, and the pane where the
/// command was given stays.
pub proof fn lemma_abandoned_sessions_leave_the_pane(
    link: SshLink,
    outcome: Result<i32, String>,
    m: SshMove,
    response: Result<Json, String>,
    end: SshMove,
)
    requires
        ssh::ssh_follows(SshState::Abandoning(link, outcome), SshEvent::Abandoned, m),
        ssh::ssh_follows(m.state, SshEvent::Answered(response), end),
    ensures
        m.action is StopAndSend && (m.action->StopAndSend_0).method is PeerDisconnectSsh && ((
        m.action->StopAndSend_0).method->PeerDisconnectSsh_0).activated_delegation is None,
        end.action == SshAction::Finish(outcome),
{
}

} // verus!
