//! Requests about terminals that are presented elsewhere, and about those that
//! are parked here.

use vstd::prelude::*;
use vstd::string::*;

use crate::api::schema::agents::AgentInfo;
use crate::api::schema::common::ErrorBody;
use crate::api::schema::peers::{
    TerminalDelegationClaim, TerminalDelegationInfo, TerminalDelegationTarget, TerminalParkedInfo,
    TerminalParkedResolveAction, TerminalParkedResolveParams, TerminalParkedResumePrepared,
};
use crate::app::handoff;
use crate::app::release;
use crate::app::remote_presentations::{self as presentations, Refusal};
use crate::app::App;

verus! {

// ---------------------------------------------------------------------------
// Delegations

impl App {
    /// What is known of a delegation.
    pub fn handle_terminal_delegate_status(&self, target: &TerminalDelegationTarget) -> (r: Result<
        TerminalDelegationInfo,
        ErrorBody,
    >)
        ensures
            match handoff::delegation_at(self@, target.delegation_id@, target.epoch) {
                Some(d) => r matches Ok(info) && info@ == d,
                None => r matches Err(e) && e@ == (
                    "terminal_delegation_not_found"@,
                    "terminal delegation was not found or has expired"@,
                ),
            },
    {
        match self.terminal_delegation_info(target.delegation_id.as_str(), target.epoch) {
            Some(info) => Ok(info),
            None => Err(
                ErrorBody::new(
                    "terminal_delegation_not_found",
                    "terminal delegation was not found or has expired",
                ),
            ),
        }
    }

    /// Ends a delegation that its owner gives up.
    pub fn handle_terminal_delegate_terminate(
        &mut self,
        target: TerminalDelegationTarget,
        now_ms: u64,
    ) -> (r: Result<(), ErrorBody>)
        ensures
            final(self)@ == release::terminated(
                old(self)@,
                (target.delegation_id@, target.epoch),
                now_ms,
            ),
            if release::terminable(old(self)@, (target.delegation_id@, target.epoch)) {
                r is Ok
            } else {
                r matches Err(e) && e@ == (
                    "terminal_delegation_not_found"@,
                    "terminal delegation was not found or no longer belongs to this owner"@,
                )
            },
    {
        let claim = TerminalDelegationClaim {
            delegation_id: target.delegation_id,
            epoch: target.epoch,
        };
        if self.terminate_terminal_delegation(&claim, now_ms) {
            Ok(())
        } else {
            Err(
                ErrorBody::new(
                    "terminal_delegation_not_found",
                    "terminal delegation was not found or no longer belongs to this owner",
                ),
            )
        }
    }
}

// ---------------------------------------------------------------------------
// Parked terminals

/// What was done to a parked terminal.
pub enum ParkedOutcome {
    Retained(Result<TerminalParkedInfo, ErrorBody>),
    Terminated(Result<(), ErrorBody>),
    Promoted(Result<TerminalDelegationInfo, ErrorBody>),
}

pub enum ParkedReply {
    Parked(TerminalParkedInfo),
    Done,
    Resumed(TerminalParkedResumePrepared),
    Delegated(TerminalDelegationInfo),
}

/// What is to be done to a parked terminal.
pub enum ParkedOperation {
    Retain,
    Terminate,
    /// It gets a delegation again, for an owner who resumes it where one is named.
    Promote { to_owner: bool },
}

pub open spec fn operation_for(action: TerminalParkedResolveAction, to_owner: bool) -> ParkedOperation {
    match action {
        TerminalParkedResolveAction::Retain => ParkedOperation::Retain,
        TerminalParkedResolveAction::Terminate => ParkedOperation::Terminate,
        TerminalParkedResolveAction::Promote => ParkedOperation::Promote { to_owner },
    }
}

fn choose_operation(action: &TerminalParkedResolveAction, to_owner: bool) -> (r: ParkedOperation)
    ensures
        r == operation_for(*action, to_owner),
{
    match action {
        TerminalParkedResolveAction::Retain => ParkedOperation::Retain,
        TerminalParkedResolveAction::Terminate => ParkedOperation::Terminate,
        TerminalParkedResolveAction::Promote => ParkedOperation::Promote { to_owner },
    }
}

/// What a request asks to have done.
pub fn parked_operation(params: &TerminalParkedResolveParams) -> (r: ParkedOperation)
    ensures
        r == operation_for(params.action, params.owner is Some),
{
    choose_operation(&params.action, params.owner.is_some())
}

/// What an administrator asks to have done, once let in. There is no owner to whom a
/// terminal could be promoted then.
pub fn parked_admin_operation(
    authorized: Result<(), ErrorBody>,
    action: &TerminalParkedResolveAction,
) -> (r: Result<ParkedOperation, ErrorBody>)
    ensures
        match authorized {
            Ok(()) => r == Ok::<ParkedOperation, ErrorBody>(operation_for(*action, false)),
            Err(e) => r == Err::<ParkedOperation, ErrorBody>(e),
        },
{
    match authorized {
        Ok(()) => Ok(choose_operation(action, false)),
        Err(e) => Err(e),
    }
}

pub open spec fn resolves(
    r: Result<ParkedReply, ErrorBody>,
    outcome: ParkedOutcome,
    to_owner: bool,
    agent: Option<AgentInfo>,
) -> bool {
    match outcome {
        ParkedOutcome::Retained(Ok(parked)) => r == Ok::<ParkedReply, ErrorBody>(
            ParkedReply::Parked(parked),
        ),
        ParkedOutcome::Retained(Err(e)) => r == Err::<ParkedReply, ErrorBody>(e),
        ParkedOutcome::Terminated(Ok(())) => r == Ok::<ParkedReply, ErrorBody>(ParkedReply::Done),
        ParkedOutcome::Terminated(Err(e)) => r == Err::<ParkedReply, ErrorBody>(e),
        ParkedOutcome::Promoted(Ok(delegation)) => r == Ok::<ParkedReply, ErrorBody>(
            if to_owner {
                ParkedReply::Resumed(TerminalParkedResumePrepared { delegation, agent })
            } else {
                ParkedReply::Delegated(delegation)
            },
        ),
        ParkedOutcome::Promoted(Err(e)) => r == Err::<ParkedReply, ErrorBody>(e),
    }
}

fn parked_reply(outcome: ParkedOutcome, to_owner: bool, agent: Option<AgentInfo>) -> (r: Result<
    ParkedReply,
    ErrorBody,
>)
    ensures
        resolves(r, outcome, to_owner, agent),
{
    match outcome {
        ParkedOutcome::Retained(Ok(parked)) => Ok(ParkedReply::Parked(parked)),
        ParkedOutcome::Retained(Err(e)) => Err(e),
        ParkedOutcome::Terminated(Ok(())) => Ok(ParkedReply::Done),
        ParkedOutcome::Terminated(Err(e)) => Err(e),
        ParkedOutcome::Promoted(Ok(delegation)) => {
            if to_owner {
                Ok(ParkedReply::Resumed(TerminalParkedResumePrepared { delegation, agent }))
            } else {
                Ok(ParkedReply::Delegated(delegation))
            }
        },
        ParkedOutcome::Promoted(Err(e)) => Err(e),
    }
}

/// The reply about a parked terminal. One that is promoted for an owner is told as
/// resumed, with its agent; one that no owner is named for is not.
pub fn handle_terminal_parked_resolve(
    params: &TerminalParkedResolveParams,
    agent: Option<AgentInfo>,
    outcome: ParkedOutcome,
) -> (r: Result<ParkedReply, ErrorBody>)
    ensures
        resolves(r, outcome, params.owner is Some, agent),
{
    parked_reply(outcome, params.owner.is_some(), agent)
}

/// The reply to an administrator about a parked terminal.
pub fn handle_terminal_parked_admin_resolve(outcome: ParkedOutcome) -> (r: Result<
    ParkedReply,
    ErrorBody,
>)
    ensures
        resolves(r, outcome, false, None),
{
    parked_reply(outcome, false, None)
}

/// The reply to a request to resume a parked terminal.
pub fn handle_terminal_parked_resume(
    agent: Option<AgentInfo>,
    prepared: Result<TerminalDelegationInfo, ErrorBody>,
) -> (r: Result<TerminalParkedResumePrepared, ErrorBody>)
    ensures
        match prepared {
            Ok(delegation) => r == Ok::<TerminalParkedResumePrepared, ErrorBody>(
                TerminalParkedResumePrepared { delegation, agent },
            ),
            Err(e) => r == Err::<TerminalParkedResumePrepared, ErrorBody>(e),
        },
{
    match prepared {
        Ok(delegation) => Ok(TerminalParkedResumePrepared { delegation, agent }),
        Err(e) => Err(e),
    }
}

/// Why an administrator is turned away. `token` tells whether the token that was
/// given is the right one, where the right one could be read.
pub open spec fn admin_objection(unix: bool, token: Result<bool, String>) -> Option<Refusal> {
    if !unix {
        Some(
            (
                "unsupported_platform"@,
                "parked terminal administration is not supported on this platform"@,
            ),
        )
    } else {
        match token {
            Err(error) => Some(
                (
                    "terminal_parked_admin_unavailable"@,
                    "could not load the local parked-terminal admin token: "@ + error@,
                ),
            ),
            Ok(false) => Some(
                (
                    "terminal_parked_admin_unauthorized"@,
                    "local parked-terminal admin token does not match"@,
                ),
            ),
            Ok(true) => None,
        }
    }
}

/// Lets an administrator through who knows the token.
pub fn authorize_parked_admin(unix: bool, token: &Result<bool, String>) -> (r: Result<
    (),
    ErrorBody,
>)
    ensures
        match admin_objection(unix, *token) {
            Some(e) => r matches Err(body) && body@ == e,
            None => r is Ok,
        },
{
    if !unix {
        return Err(
            ErrorBody::new(
                "unsupported_platform",
                "parked terminal administration is not supported on this platform",
            ),
        );
    }
    match token {
        Err(error) => Err(
            ErrorBody::new(
                "terminal_parked_admin_unavailable",
                presentations::joined(
                    "could not load the local parked-terminal admin token: ",
                    error.as_str(),
                ).as_str(),
            ),
        ),
        Ok(matches) => if *matches {
            Ok(())
        } else {
            Err(
                ErrorBody::new(
                    "terminal_parked_admin_unauthorized",
                    "local parked-terminal admin token does not match",
                ),
            )
        },
    }
}

} // verus!
