//! Requests about remote terminals that are being got back.

use vstd::prelude::*;
use vstd::string::*;

use crate::api::schema::common::ErrorBody;
use crate::api::schema::recovery::{TerminalRecoveryInfo, TerminalRecoveryTarget};
use crate::app::remote_presentations::{self as presentations, Refusal};

verus! {

pub open spec fn no_recovery(remote_terminal_id: Seq<char>) -> Refusal {
    (
        "terminal_recovery_not_found"@,
        "terminal recovery "@ + remote_terminal_id + " was not found"@,
    )
}

pub open spec fn unsupported() -> Refusal {
    (
        "unsupported_platform"@,
        "terminal recovery is only supported on Unix platforms"@,
    )
}

fn recovery_not_found(remote_terminal_id: &str) -> (e: ErrorBody)
    ensures
        e@ == no_recovery(remote_terminal_id@),
{
    let mut message = presentations::joined("terminal recovery ", remote_terminal_id);
    message.append(" was not found");
    ErrorBody::new("terminal_recovery_not_found", message.as_str())
}

fn recovery_unsupported() -> (e: ErrorBody)
    ensures
        e@ == unsupported(),
{
    ErrorBody::new(
        "unsupported_platform",
        "terminal recovery is only supported on Unix platforms",
    )
}

/// The list of recoveries, where the platform has them.
pub fn handle_terminal_recovery_list(
    unix: bool,
    recoveries: Vec<TerminalRecoveryInfo>,
) -> (r: Result<Vec<TerminalRecoveryInfo>, ErrorBody>)
    ensures
        if unix {
            r == Ok::<Vec<TerminalRecoveryInfo>, ErrorBody>(recoveries)
        } else {
            r matches Err(e) && e@ == unsupported()
        },
{
    if unix {
        Ok(recoveries)
    } else {
        Err(recovery_unsupported())
    }
}

/// How far a recovery has come.
pub fn handle_terminal_recovery_status(
    unix: bool,
    target: &TerminalRecoveryTarget,
    found: Option<TerminalRecoveryInfo>,
) -> (r: Result<TerminalRecoveryInfo, ErrorBody>)
    ensures
        match (unix, found) {
            (false, _) => r matches Err(e) && e@ == unsupported(),
            (true, Some(recovery)) => r == Ok::<TerminalRecoveryInfo, ErrorBody>(recovery),
            (true, None) => r matches Err(e) && e@ == no_recovery(target.remote_terminal_id@),
        },
{
    if !unix {
        return Err(recovery_unsupported());
    }
    match found {
        Some(recovery) => Ok(recovery),
        None => Err(recovery_not_found(target.remote_terminal_id.as_str())),
    }
}

/// What became of a recovery that was to be tried again.
pub fn handle_terminal_recovery_retry(
    unix: bool,
    retried: Result<TerminalRecoveryInfo, ErrorBody>,
) -> (r: Result<TerminalRecoveryInfo, ErrorBody>)
    ensures
        if unix {
            r == retried
        } else {
            r matches Err(e) && e@ == unsupported()
        },
{
    if unix {
        retried
    } else {
        Err(recovery_unsupported())
    }
}

/// What became of a recovery that was to be given up.
pub fn handle_terminal_recovery_discard(unix: bool, discarded: Result<(), ErrorBody>) -> (r: Result<
    (),
    ErrorBody,
>)
    ensures
        if unix {
            r == discarded
        } else {
            r matches Err(e) && e@ == unsupported()
        },
{
    if unix {
        discarded
    } else {
        Err(recovery_unsupported())
    }
}

} // verus!
