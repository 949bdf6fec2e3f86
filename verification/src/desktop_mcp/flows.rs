//! Tool calls that take several operations: which one comes next, and what the
//! call answers in the end.
//!
//! Each flow is a state and a step. The step takes what the last operation gave
//! and says which operation to perform next, or how the call ends.

use vstd::prelude::*;
use vstd::string::*;

use super::{BridgeError, Details};
use crate::api::schema::agents::AgentInfo;
use crate::api::schema::common::PaneSendInputParams;
use crate::desktop_queue::{CliIdentity, CliState, IdentityView, QueueError};
use crate::text;

verus! {

/// What the server answered, with the answer's text for a message.
pub struct Reply {
    pub value: ReplyValue,
    pub text: String,
}

pub enum ReplyValue {
    Done,
    AgentStarted(AgentInfo),
    PaneInfo { terminal_id: String },
    Other,
}

/// A launch that is recorded but not known to run.
pub struct Creating {
    pub identity: CliIdentity,
    pub marker: String,
}

/// Where a launch was found.
pub struct Found {
    pub pane_id: String,
    pub terminal_id: String,
    pub workspace_id: String,
    pub tab_id: String,
}

/// What the registry says of a CLI.
pub enum Lookup {
    Running(CliIdentity),
    Launching(Creating),
}

/// A registered CLI runs, or is being launched, or the call ends here.
pub fn after_lookup(r: Result<CliIdentity, QueueError>) -> (next: Result<Lookup, BridgeError>)
    ensures
        match r {
            Err(e) => next matches Err(b) && super::is_bridge_error(
                b,
                super::queue_error_code(e.kind),
                e.message@,
                super::queue_error_retryable(e.kind),
            ) && b.details == Some(Details::QueueKind(e.kind)),
            Ok(identity) => match identity.state {
                CliState::Active => next == Ok::<Lookup, BridgeError>(Lookup::Running(identity)),
                CliState::Closed => next matches Err(b) && super::is_bridge_error(
                    b,
                    "cli_not_running"@,
                    "the registered CLI is no longer running"@,
                    false,
                ) && b.details is None,
                CliState::Creating => match identity.launch_marker {
                    None => next matches Err(b) && super::is_bridge_error(
                        b,
                        "cli_not_running"@,
                        "the CLI launch record cannot be reconciled"@,
                        false,
                    ) && b.details is None,
                    Some(marker) => next == Ok::<Lookup, BridgeError>(
                        Lookup::Launching(Creating { identity, marker }),
                    ),
                },
            },
        },
{
    match r {
        Err(e) => Err(super::queue_error(e)),
        Ok(identity) => match identity.state {
            CliState::Active => Ok(Lookup::Running(identity)),
            CliState::Closed => Err(
                BridgeError::new(
                    "cli_not_running",
                    "the registered CLI is no longer running",
                    false,
                ),
            ),
            CliState::Creating => match text::clone_opt(&identity.launch_marker) {
                None => Err(
                    BridgeError::new(
                        "cli_not_running",
                        "the CLI launch record cannot be reconciled",
                        false,
                    ),
                ),
                Some(marker) => Ok(Lookup::Launching(Creating { identity, marker })),
            },
        },
    }
}

/// The agent is local and carries the launch marker as its name.
pub open spec fn carries_marker(agent: AgentInfo, marker: Seq<char>) -> bool {
    agent.peer is None && text::opt_view(agent.name) == Some(marker)
}

pub open spec fn named(agent: AgentInfo, name: Seq<char>) -> bool {
    text::opt_view(agent.name) == Some(name)
}

pub(crate) fn has_name(agent: &AgentInfo, name: &str) -> (r: bool)
    ensures
        r == named(*agent, name@),
{
    match &agent.name {
        Some(n) => text::str_eq(n.as_str(), name),
        None => false,
    }
}

pub open spec fn found_at(f: Found, agent: AgentInfo) -> bool {
    &&& f.pane_id == agent.pane_id
    &&& f.terminal_id == agent.terminal_id
    &&& f.workspace_id == agent.workspace_id
    &&& f.tab_id == agent.tab_id
}

/// The one pane that carries the marker, if any does. Two are a mismatch.
pub fn match_marker(agents: &Vec<AgentInfo>, marker: &str) -> (r: Result<Option<Found>, BridgeError>)
    ensures
        match r {
            Ok(None) => forall|i: int|
                0 <= i < agents@.len() ==> !carries_marker(#[trigger] agents@[i], marker@),
            Ok(Some(found)) => exists|i: int|
                0 <= i < agents@.len() && carries_marker(#[trigger] agents@[i], marker@)
                    && found_at(found, agents@[i]) && forall|j: int|
                    0 <= j < agents@.len() && j != i ==> !carries_marker(
                        #[trigger] agents@[j],
                        marker@,
                    ),
            Err(e) => {
                &&& super::is_bridge_error(
                    e,
                    "cli_identity_mismatch"@,
                    "multiple panes matched the CLI launch marker"@,
                    false,
                )
                &&& e.details is None
                &&& exists|i: int, j: int|
                    0 <= i < j < agents@.len() && carries_marker(#[trigger] agents@[i], marker@)
                        && carries_marker(#[trigger] agents@[j], marker@)
            },
        },
{
    let mut at: Option<usize> = None;
    let mut i: usize = 0;
    while i < agents.len()
        invariant
            i <= agents@.len(),
            match at {
                None => forall|j: int|
                    0 <= j < i ==> !carries_marker(#[trigger] agents@[j], marker@),
                Some(k) => k < i && carries_marker(agents@[k as int], marker@) && forall|j: int|
                    0 <= j < i && j != k ==> !carries_marker(#[trigger] agents@[j], marker@),
            },
        decreases agents@.len() - i,
    {
        if agents[i].peer.is_none() && has_name(&agents[i], marker) {
            match at {
                Some(k) => {
                    assert(carries_marker(agents@[k as int], marker@));
                    assert(carries_marker(agents@[i as int], marker@));
                    return Err(
                        BridgeError::new(
                            "cli_identity_mismatch",
                            "multiple panes matched the CLI launch marker",
                            false,
                        ),
                    );
                },
                None => {
                    at = Some(i);
                },
            }
        }
        i += 1;
    }
    match at {
        None => Ok(None),
        Some(k) => {
            let found = Found {
                pane_id: agents[k].pane_id.clone(),
                terminal_id: agents[k].terminal_id.clone(),
                workspace_id: agents[k].workspace_id.clone(),
                tab_id: agents[k].tab_id.clone(),
            };
            assert(carries_marker(agents@[k as int], marker@));
            Ok(Some(found))
        },
    }
}

/// The names of the agents, in order: what shows that a launch is alive.
pub open spec fn agent_names(agents: Seq<AgentInfo>) -> Seq<Seq<char>>
    decreases agents.len(),
{
    if agents.len() == 0 {
        Seq::empty()
    } else {
        match agents.last().name {
            Some(name) => agent_names(agents.drop_last()).push(name@),
            None => agent_names(agents.drop_last()),
        }
    }
}

pub fn live_markers(agents: &Vec<AgentInfo>) -> (r: Vec<String>)
    ensures
        text::views(r@) == agent_names(agents@),
{
    let mut out: Vec<String> = Vec::new();
    let mut i: usize = 0;
    proof {
        assert(agents@.take(0) =~= Seq::<AgentInfo>::empty());
        assert(text::views(out@) =~= agent_names(agents@.take(0)));
    }
    while i < agents.len()
        invariant
            i <= agents@.len(),
            text::views(out@) == agent_names(agents@.take(i as int)),
        decreases agents@.len() - i,
    {
        let ghost before = text::views(out@);
        assert(agents@.take(i as int + 1).drop_last() =~= agents@.take(i as int));
        if let Some(name) = &agents[i].name {
            out.push(name.clone());
            assert(text::views(out@) =~= before.push(name@));
        }
        i += 1;
    }
    assert(agents@.take(agents@.len() as int) =~= agents@);
    out
}

/// The identity of a launch that was found running.
pub open spec fn reconciled(creating: Creating, found: Found) -> IdentityView {
    IdentityView {
        cli_id: creating.identity.cli_id@,
        pane_id: found.pane_id@,
        terminal_id: found.terminal_id@,
        workspace_id: found.workspace_id@,
        tab_id: found.tab_id@,
        name: creating.identity.name@,
        cwd: creating.identity.cwd@,
        state: CliState::Active,
        launch_marker: Some(creating.marker@),
    }
}

/// A launch that was not found is still pending, unless it was pruned.
pub open spec fn not_found(e: BridgeError, creating: Creating, pruned: Seq<Seq<char>>) -> bool {
    let absent = pruned.contains(creating.identity.cli_id@);
    &&& super::is_bridge_error(
        e,
        "cli_not_running"@,
        if absent {
            "the stale CLI launch was confirmed absent"@
        } else {
            "the CLI launch is still pending reconciliation"@
        },
        !absent,
    )
    &&& e.details == Some(
        Details::Reconciliation { cli_id: creating.identity.cli_id, confirmed_absent: absent },
    )
}

/// Once stale launches are pruned: the identity to activate, or why there is
/// none.
pub fn after_prune(creating: Creating, found: Option<Found>, pruned: &Vec<String>) -> (r: Result<
    CliIdentity,
    BridgeError,
>)
    ensures
        match found {
            Some(f) => r matches Ok(identity) && identity@ == reconciled(creating, f),
            None => r matches Err(e) && not_found(e, creating, text::views(pruned@)),
        },
{
    match found {
        Some(f) => Ok(
            CliIdentity {
                cli_id: creating.identity.cli_id,
                pane_id: f.pane_id,
                terminal_id: f.terminal_id,
                workspace_id: f.workspace_id,
                tab_id: f.tab_id,
                name: creating.identity.name,
                cwd: creating.identity.cwd,
                state: CliState::Active,
                launch_marker: Some(creating.marker),
            },
        ),
        None => {
            let absent = text::contains_string(pruned, creating.identity.cli_id.as_str());
            let message = if absent {
                "the stale CLI launch was confirmed absent"
            } else {
                "the CLI launch is still pending reconciliation"
            };
            Err(
                BridgeError::new("cli_not_running", message, !absent).with_details(
                    Details::Reconciliation {
                        cli_id: creating.identity.cli_id,
                        confirmed_absent: absent,
                    },
                ),
            )
        },
    }
}

/// What a look at the registered pane says.
pub enum PaneCheck {
    /// The pane still belongs to the CLI.
    Same,
    /// The pane is gone; the CLI is closed.
    Gone,
    /// The pane belongs to another terminal; the CLI is closed.
    Foreign,
    Refused(BridgeError),
}

pub open spec fn pane_checked(
    identity: CliIdentity,
    r: Result<Reply, BridgeError>,
    check: PaneCheck,
) -> bool {
    match r {
        Ok(reply) => match reply.value {
            ReplyValue::PaneInfo { terminal_id } => check == if terminal_id@
                == identity.terminal_id@ {
                PaneCheck::Same
            } else {
                PaneCheck::Foreign
            },
            _ => check matches PaneCheck::Refused(e) && super::is_unexpected(
                e,
                "pane.get"@,
                reply.text@,
            ),
        },
        Err(err) => if err.code@ == "pane_not_found"@ {
            check == PaneCheck::Gone
        } else {
            check == PaneCheck::Refused(err)
        },
    }
}

pub fn check_pane(identity: &CliIdentity, r: Result<Reply, BridgeError>) -> (check: PaneCheck)
    ensures
        pane_checked(*identity, r, check),
{
    match r {
        Ok(reply) => match reply.value {
            ReplyValue::PaneInfo { terminal_id } => {
                if text::str_eq(terminal_id.as_str(), identity.terminal_id.as_str()) {
                    PaneCheck::Same
                } else {
                    PaneCheck::Foreign
                }
            },
            _ => PaneCheck::Refused(super::unexpected_result("pane.get", reply.text.as_str())),
        },
        Err(err) => {
            if text::str_eq(err.code.as_str(), "pane_not_found") {
                PaneCheck::Gone
            } else {
                PaneCheck::Refused(err)
            }
        },
    }
}

/// Whether input may go to the registered pane; where it may not, the CLI may have to be
/// marked as closed.
pub open spec fn preflighted(
    identity: CliIdentity,
    r: Result<Reply, BridgeError>,
    next: Result<(), (BridgeError, bool)>,
) -> bool {
    exists|check: PaneCheck|
        #[trigger] pane_checked(identity, r, check) && match check {
            PaneCheck::Same => next is Ok,
            PaneCheck::Gone => next matches Err((e, close)) && close && super::is_bridge_error(
                e,
                "cli_not_running"@,
                "the registered CLI pane no longer exists"@,
                false,
            ) && e.details is None,
            PaneCheck::Foreign => next matches Err((e, close)) && close
                && super::is_bridge_error(
                e,
                "cli_identity_mismatch"@,
                "the pane now belongs to a different terminal"@,
                false,
            ) && e.details == Some(
                Details::ForeignPane { cli_id: identity.cli_id, pane_id: identity.pane_id },
            ),
            PaneCheck::Refused(err) => next == Err::<(), (BridgeError, bool)>((err, false)),
        }
}

/// Whether input may go to the registered pane.
pub fn preflight(identity: &CliIdentity, r: Result<Reply, BridgeError>) -> (next: Result<
    (),
    (BridgeError, bool),
>)
    ensures
        preflighted(*identity, r, next),
{
    let check = check_pane(identity, r);
    assert(pane_checked(*identity, r, check));
    match check {
        PaneCheck::Same => Ok(()),
        PaneCheck::Gone => Err(
            (
                BridgeError::new(
                    "cli_not_running",
                    "the registered CLI pane no longer exists",
                    false,
                ),
                true,
            ),
        ),
        PaneCheck::Foreign => Err(
            (
                BridgeError::new(
                    "cli_identity_mismatch",
                    "the pane now belongs to a different terminal",
                    false,
                ).with_details(
                    Details::ForeignPane {
                        cli_id: identity.cli_id.clone(),
                        pane_id: identity.pane_id.clone(),
                    },
                ),
                true,
            ),
        ),
        PaneCheck::Refused(e) => Err((e, false)),
    }
}

/// How sending input ends.
pub enum InputOutcome {
    Sent,
    /// The pane is gone: mark the CLI closed, then answer.
    Gone(BridgeError),
    /// The keys were not understood.
    InvalidKeys(String),
    Refused(BridgeError),
}

/// What became of input to a pane.
pub open spec fn input_settled(r: Result<Reply, BridgeError>, typed: bool, o: InputOutcome) -> bool {
    match r {
        Ok(reply) => if reply.value is Done {
            o is Sent
        } else {
            o matches InputOutcome::Refused(e) && super::is_unexpected(
                e,
                "pane.send_input"@,
                reply.text@,
            )
        },
        Err(err) => if err.code@ == "pane_not_found"@ {
            o matches InputOutcome::Gone(e) && super::is_bridge_error(
                e,
                "cli_not_running"@,
                "the registered CLI pane no longer exists"@,
                false,
            ) && e.details is None
        } else if typed && err.code@ == "invalid_key"@ {
            o == InputOutcome::InvalidKeys(err.message)
        } else {
            o matches InputOutcome::Refused(e) && super::remapped(err, "input_rejected"@, e)
        },
    }
}

/// What the server made of input to a pane. `typed` says that the caller chose
/// the keys, so that an unknown key is the caller's mistake.
pub fn after_input(r: Result<Reply, BridgeError>, typed: bool) -> (o: InputOutcome)
    ensures
        input_settled(r, typed, o),
{
    match r {
        Ok(reply) => match reply.value {
            ReplyValue::Done => InputOutcome::Sent,
            _ => InputOutcome::Refused(
                super::unexpected_result("pane.send_input", reply.text.as_str()),
            ),
        },
        Err(err) => {
            if text::str_eq(err.code.as_str(), "pane_not_found") {
                return InputOutcome::Gone(
                    BridgeError::new(
                        "cli_not_running",
                        "the registered CLI pane no longer exists",
                        false,
                    ),
                );
            }
            if typed && text::str_eq(err.code.as_str(), "invalid_key") {
                return InputOutcome::InvalidKeys(err.message);
            }
            InputOutcome::Refused(super::remap_rejection(err, "input_rejected"))
        },
    }
}

/// Ctrl-C for a pane.
pub fn interrupt_input(pane_id: String) -> (p: PaneSendInputParams)
    ensures
        p.pane_id == pane_id,
        p.text@.len() == 0,
        text::views(p.keys@) == seq!["ctrl+c"@],
{
    let mut keys: Vec<String> = Vec::new();
    keys.push("ctrl+c".to_string());
    assert(text::views(keys@) =~= seq!["ctrl+c"@]);
    PaneSendInputParams { pane_id, text: String::new(), keys }
}

/// Where stopping a CLI stands.
pub enum StopState {
    /// The registry was asked for the CLI.
    Lookup,
    /// The running identity was asked for.
    Activation,
    /// The server was asked for its version.
    Version { identity: CliIdentity },
    /// The server was asked for the pane.
    Pane { identity: CliIdentity },
    /// The pane is to be closed.
    Close,
    /// The CLI is to be marked as closed.
    Mark { already_stopped: bool },
}

pub enum StopEvent {
    Registered(Result<CliIdentity, QueueError>),
    Active(Result<CliIdentity, BridgeError>),
    Version(Result<(String, u32), BridgeError>),
    Reply(Result<Reply, BridgeError>),
}

/// The next operation of a stop, or its end.
pub enum StopNext {
    FindRunning(StopState),
    AskVersion(StopState),
    AskPane(StopState, String),
    ClosePane(StopState, String),
    MarkClosed(StopState),
    /// Mark the CLI as closed, whatever comes of it, and answer.
    MarkClosedAndRefuse(BridgeError),
    Stopped { already_stopped: bool },
    Refused(BridgeError),
    /// The operation that was performed is not the one that was asked for.
    OutOfStep,
}

/// What follows in each state.
pub open spec fn stop_follows(state: StopState, event: StopEvent, next: StopNext) -> bool {
    match (state, event) {
        (StopState::Lookup, StopEvent::Registered(Ok(identity))) => if identity.state
            == CliState::Closed {
            next == (StopNext::Stopped { already_stopped: true })
        } else {
            next == StopNext::FindRunning(StopState::Activation)
        },
        (StopState::Lookup, StopEvent::Registered(Err(e))) => next matches StopNext::Refused(b)
            && super::is_bridge_error(
            b,
            super::queue_error_code(e.kind),
            e.message@,
            super::queue_error_retryable(e.kind),
        ) && b.details == Some(Details::QueueKind(e.kind)),
        (StopState::Activation, StopEvent::Active(Ok(identity))) => next == StopNext::AskVersion(
            StopState::Version { identity },
        ),
        (StopState::Activation, StopEvent::Active(Err(e))) => if super::confirmed_absent(e) {
            next == (StopNext::Stopped { already_stopped: true })
        } else {
            next == StopNext::Refused(e)
        },
        (StopState::Version { identity }, StopEvent::Version(Ok((version, protocol)))) =>
            if protocol == super::REQUIRED_PROTOCOL {
            next == StopNext::AskPane(StopState::Pane { identity }, identity.pane_id)
        } else {
            next matches StopNext::Refused(e) && super::incompatible(e, protocol, version)
        },
        (StopState::Version { identity }, StopEvent::Version(Err(e))) => next
            == StopNext::Refused(e),
        (StopState::Pane { identity }, StopEvent::Reply(r)) => exists|check: PaneCheck|
            #[trigger] pane_checked(identity, r, check) && match check {
                PaneCheck::Same => next == StopNext::ClosePane(StopState::Close, identity.pane_id),
                PaneCheck::Gone => next == StopNext::MarkClosed(
                    StopState::Mark { already_stopped: true },
                ),
                PaneCheck::Foreign => next matches StopNext::MarkClosedAndRefuse(e)
                    && super::is_bridge_error(
                    e,
                    "cli_identity_mismatch"@,
                    "the pane now belongs to a different terminal and was not closed"@,
                    false,
                ) && e.details is None,
                PaneCheck::Refused(err) => next matches StopNext::Refused(e) && if r is Ok {
                    e == err
                } else {
                    super::remapped(err, "stop_rejected"@, e)
                },
            },
        (StopState::Close, StopEvent::Reply(Ok(reply))) => if reply.value is Done {
            next == StopNext::MarkClosed(StopState::Mark { already_stopped: false })
        } else {
            next matches StopNext::Refused(e) && super::is_unexpected(
                e,
                "pane.close"@,
                reply.text@,
            )
        },
        (StopState::Close, StopEvent::Reply(Err(err))) => if err.code@ == "pane_not_found"@ {
            next == StopNext::MarkClosed(StopState::Mark { already_stopped: true })
        } else {
            next matches StopNext::Refused(e) && super::remapped(err, "stop_rejected"@, e)
        },
        (StopState::Mark { already_stopped }, StopEvent::Registered(Ok(_))) => next == (
        StopNext::Stopped { already_stopped }),
        (StopState::Mark { already_stopped }, StopEvent::Registered(Err(e))) => next
            matches StopNext::Refused(b) && super::is_bridge_error(
            b,
            super::queue_error_code(e.kind),
            e.message@,
            super::queue_error_retryable(e.kind),
        ) && b.details == Some(Details::QueueKind(e.kind)),
        _ => next == StopNext::OutOfStep,
    }
}

/// Closes a registered CLI's pane, unless the pane belongs to something else by
/// now.
pub fn herdr_stop_cli(state: StopState, event: StopEvent) -> (next: StopNext)
    ensures
        stop_follows(state, event, next),
{
    match (state, event) {
        (StopState::Lookup, StopEvent::Registered(Ok(identity))) => {
            if identity.state == CliState::Closed {
                StopNext::Stopped { already_stopped: true }
            } else {
                StopNext::FindRunning(StopState::Activation)
            }
        },
        (StopState::Lookup, StopEvent::Registered(Err(e))) => StopNext::Refused(
            super::queue_error(e),
        ),
        (StopState::Activation, StopEvent::Active(Ok(identity))) => StopNext::AskVersion(
            StopState::Version { identity },
        ),
        (StopState::Activation, StopEvent::Active(Err(e))) => {
            if e.is_confirmed_absent() {
                StopNext::Stopped { already_stopped: true }
            } else {
                StopNext::Refused(e)
            }
        },
        (StopState::Version { identity }, StopEvent::Version(Ok((version, protocol)))) => {
            match super::require_compatible(version, protocol) {
                Ok(()) => {
                    let pane_id = identity.pane_id.clone();
                    StopNext::AskPane(StopState::Pane { identity }, pane_id)
                },
                Err(e) => StopNext::Refused(e),
            }
        },
        (StopState::Version { identity: _ }, StopEvent::Version(Err(e))) => StopNext::Refused(e),
        (StopState::Pane { identity }, StopEvent::Reply(r)) => {
            let answered = r.is_ok();
            let check = check_pane(&identity, r);
            assert(pane_checked(identity, r, check));
            match check {
                PaneCheck::Same => StopNext::ClosePane(StopState::Close, identity.pane_id),
                PaneCheck::Gone => StopNext::MarkClosed(StopState::Mark { already_stopped: true }),
                PaneCheck::Foreign => StopNext::MarkClosedAndRefuse(
                    BridgeError::new(
                        "cli_identity_mismatch",
                        "the pane now belongs to a different terminal and was not closed",
                        false,
                    ),
                ),
                PaneCheck::Refused(e) => {
                    if answered {
                        StopNext::Refused(e)
                    } else {
                        StopNext::Refused(super::remap_rejection(e, "stop_rejected"))
                    }
                },
            }
        },
        (StopState::Close, StopEvent::Reply(Ok(reply))) => match reply.value {
            ReplyValue::Done => StopNext::MarkClosed(StopState::Mark { already_stopped: false }),
            _ => StopNext::Refused(super::unexpected_result("pane.close", reply.text.as_str())),
        },
        (StopState::Close, StopEvent::Reply(Err(err))) => {
            if text::str_eq(err.code.as_str(), "pane_not_found") {
                StopNext::MarkClosed(StopState::Mark { already_stopped: true })
            } else {
                StopNext::Refused(super::remap_rejection(err, "stop_rejected"))
            }
        },
        (StopState::Mark { already_stopped }, StopEvent::Registered(Ok(_))) => StopNext::Stopped {
            already_stopped,
        },
        (StopState::Mark { already_stopped: _ }, StopEvent::Registered(Err(e))) =>
            StopNext::Refused(super::queue_error(e)),
        _ => StopNext::OutOfStep,
    }
}

/// A pane is closed only after the server said that it still belongs to the
/// CLI's terminal.
pub proof fn lemma_only_own_panes_are_closed(
    state: StopState,
    event: StopEvent,
    next: StopNext,
    after: StopState,
    pane_id: String,
)
    requires
        stop_follows(state, event, next),
        next == StopNext::ClosePane(after, pane_id),
    ensures
        state matches StopState::Pane { identity } && pane_id == identity.pane_id && (event
            matches StopEvent::Reply(Ok(reply)) && (reply.value matches ReplyValue::PaneInfo {
            terminal_id,
        } && terminal_id@ == identity.terminal_id@)),
{
}

} // verus!
