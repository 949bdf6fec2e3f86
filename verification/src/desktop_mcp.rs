//! The bridge that lets desktop coding agents drive Herdr.
//!
//! The bridge stays on the local API boundary: it validates what a tool call
//! asks for, decides which API and queue operations to perform next, and turns
//! what came back into the tool's answer. Performing the operations is left to
//! the caller.

pub mod admission;
pub mod driving;
pub mod flows;
pub mod launch;
pub mod params;
pub mod read;
pub mod results;
pub mod showing;
pub mod tools;
pub mod validate;

use vstd::prelude::*;
use vstd::string::*;

use crate::api::schema::common::ControlClientAccessMode;
use crate::desktop_queue::{QueueError, QueueErrorKind};
use crate::random;
use crate::text;

verus! {

pub const REQUIRED_PROTOCOL: u32 = 17;

pub const SNAPSHOT_MAX_BYTES: usize = 2_097_152;

pub const PANE_READ_MAX_BYTES: usize = 262_144;

pub const PANE_READ_DEFAULT_BYTES: usize = 65_536;

pub const QUEUE_DRAIN_MAX_BYTES: usize = 1_048_576;

pub const CONTROL_ARGUMENT_MAX_BYTES: usize = 1_048_576;

pub const CONTROL_RESULT_MAX_BYTES: usize = 2_097_152;

pub const DEFAULT_READ_LINES: u32 = 200;

pub const DEFAULT_DRAIN_LIMIT: usize = 20;

pub const MAX_DRAIN_LIMIT: usize = 100;

/// How much of the tool set a bridge offers.
#[derive(Debug, Clone, Copy, PartialEq, Eq, Structural)]
pub enum AccessMode {
    Restricted,
    FullControl,
}

pub open spec fn restricted_tool(name: Seq<char>) -> bool {
    ||| name == "herdr_ack_messages"@
    ||| name == "herdr_drain_messages"@
    ||| name == "herdr_health"@
    ||| name == "herdr_interrupt_cli"@
    ||| name == "herdr_launch_cli"@
    ||| name == "herdr_pane_process_info"@
    ||| name == "herdr_read_pane"@
    ||| name == "herdr_send_input"@
    ||| name == "herdr_snapshot"@
    ||| name == "herdr_stop_cli"@
}

pub open spec fn full_control_tool(name: Seq<char>) -> bool {
    ||| name == "herdr_agent_control"@
    ||| name == "herdr_destructive_action"@
    ||| name == "herdr_inspect"@
    ||| name == "herdr_layout_control"@
    ||| name == "herdr_pane_control"@
    ||| name == "herdr_peer_control"@
    ||| name == "herdr_recovery_control"@
    ||| name == "herdr_tab_control"@
    ||| name == "herdr_wait"@
    ||| name == "herdr_workspace_control"@
    ||| name == "herdr_worktree_control"@
}

pub open spec fn allowed(mode: AccessMode, name: Seq<char>) -> bool {
    restricted_tool(name) || (mode == AccessMode::FullControl && full_control_tool(name))
}

/// The tool is part of every bridge.
pub fn is_restricted_tool(name: &str) -> (r: bool)
    ensures
        r == restricted_tool(name@),
{
    text::str_eq(name, "herdr_ack_messages") || text::str_eq(name, "herdr_drain_messages")
        || text::str_eq(name, "herdr_health") || text::str_eq(name, "herdr_interrupt_cli")
        || text::str_eq(name, "herdr_launch_cli") || text::str_eq(name, "herdr_pane_process_info")
        || text::str_eq(name, "herdr_read_pane") || text::str_eq(name, "herdr_send_input")
        || text::str_eq(name, "herdr_snapshot") || text::str_eq(name, "herdr_stop_cli")
}

/// The tool needs a bridge that was granted full control.
pub fn is_full_control_tool(name: &str) -> (r: bool)
    ensures
        r == full_control_tool(name@),
{
    text::str_eq(name, "herdr_agent_control") || text::str_eq(name, "herdr_destructive_action")
        || text::str_eq(name, "herdr_inspect") || text::str_eq(name, "herdr_layout_control")
        || text::str_eq(name, "herdr_pane_control") || text::str_eq(name, "herdr_peer_control")
        || text::str_eq(name, "herdr_recovery_control") || text::str_eq(name, "herdr_tab_control")
        || text::str_eq(name, "herdr_wait") || text::str_eq(name, "herdr_workspace_control")
        || text::str_eq(name, "herdr_worktree_control")
}

impl AccessMode {
    pub fn wire_name(self) -> (r: &'static str)
        ensures
            r@ == match self {
                AccessMode::Restricted => "restricted"@,
                AccessMode::FullControl => "full_control"@,
            },
    {
        match self {
            AccessMode::Restricted => "restricted",
            AccessMode::FullControl => "full_control",
        }
    }

    pub fn schema_value(self) -> (r: ControlClientAccessMode)
        ensures
            r == match self {
                AccessMode::Restricted => ControlClientAccessMode::Restricted,
                AccessMode::FullControl => ControlClientAccessMode::FullControl,
            },
    {
        match self {
            AccessMode::Restricted => ControlClientAccessMode::Restricted,
            AccessMode::FullControl => ControlClientAccessMode::FullControl,
        }
    }

    pub fn allows_tool(self, name: &str) -> (r: bool)
        ensures
            r == allowed(self, name@),
    {
        match self {
            AccessMode::Restricted => is_restricted_tool(name),
            AccessMode::FullControl => is_restricted_tool(name) || is_full_control_tool(name),
        }
    }
}

/// Full control adds tools and takes none away.
pub proof fn lemma_full_control_extends_restricted(name: Seq<char>)
    ensures
        allowed(AccessMode::Restricted, name) ==> allowed(AccessMode::FullControl, name),
{
}

/// What an error says beyond its message.
#[derive(Debug)]
pub enum Details {
    QueueKind(QueueErrorKind),
    IoKind(String),
    Incompatible { actual_protocol: u32, herdr_version: String },
    Upstream { code: String, details: Option<Box<Details>> },
    Reconciliation { cli_id: String, confirmed_absent: bool },
    ForeignPane { cli_id: String, pane_id: String },
    Size { actual_bytes: usize, max_bytes: usize },
    LaunchUnknown {
        cli_id: String,
        upstream_code: String,
        upstream_details: Option<Box<Details>>,
        code: String,
        message: String,
        retryable: bool,
    },
}

#[derive(Debug)]
pub struct BridgeError {
    pub code: String,
    pub message: String,
    pub retryable: bool,
    pub details: Option<Details>,
}

pub open spec fn is_bridge_error(
    e: BridgeError,
    code: Seq<char>,
    message: Seq<char>,
    retryable: bool,
) -> bool {
    e.code@ == code && e.message@ == message && e.retryable == retryable
}

/// The CLI is known not to be running.
pub open spec fn confirmed_absent(e: BridgeError) -> bool {
    e.code@ == "cli_not_running"@ && (e.details matches Some(
        Details::Reconciliation { cli_id, confirmed_absent },
    ) && confirmed_absent)
}

impl BridgeError {
    pub fn new(code: &str, message: &str, retryable: bool) -> (e: BridgeError)
        ensures
            is_bridge_error(e, code@, message@, retryable),
            e.details is None,
    {
        BridgeError { code: code.to_string(), message: message.to_string(), retryable, details: None }
    }

    pub fn with_details(self, details: Details) -> (e: BridgeError)
        ensures
            e == (BridgeError { details: Some(details), ..self }),
    {
        BridgeError { details: Some(details), ..self }
    }

    pub fn is_confirmed_absent(&self) -> (r: bool)
        ensures
            r == confirmed_absent(*self),
    {
        text::str_eq(self.code.as_str(), "cli_not_running") && match &self.details {
            Some(Details::Reconciliation { cli_id: _, confirmed_absent }) => *confirmed_absent,
            _ => false,
        }
    }
}

pub open spec fn queue_error_code(kind: QueueErrorKind) -> Seq<char> {
    match kind {
        QueueErrorKind::PermissionDenied => "queue_permission_denied"@,
        QueueErrorKind::Full => "queue_full"@,
        QueueErrorKind::Corrupt => "queue_corrupt"@,
        QueueErrorKind::CliNotFound => "cli_not_found"@,
        QueueErrorKind::LeaseNotFound => "lease_not_found"@,
        QueueErrorKind::Closed => "cli_not_running"@,
        QueueErrorKind::LeaseExpired => "lease_expired"@,
        QueueErrorKind::Io | QueueErrorKind::NotFound | QueueErrorKind::Invalid =>
            "queue_unavailable"@,
    }
}

pub open spec fn queue_error_retryable(kind: QueueErrorKind) -> bool {
    kind == QueueErrorKind::Full || kind == QueueErrorKind::Io || kind == QueueErrorKind::NotFound
}

/// How a queue error is answered.
pub fn queue_error(err: QueueError) -> (e: BridgeError)
    ensures
        is_bridge_error(
            e,
            queue_error_code(err.kind),
            err.message@,
            queue_error_retryable(err.kind),
        ),
        e.details == Some(Details::QueueKind(err.kind)),
{
    let kind = err.kind();
    let (code, retryable) = match kind {
        QueueErrorKind::PermissionDenied => ("queue_permission_denied", false),
        QueueErrorKind::Full => ("queue_full", true),
        QueueErrorKind::Corrupt => ("queue_corrupt", false),
        QueueErrorKind::CliNotFound => ("cli_not_found", false),
        QueueErrorKind::LeaseNotFound => ("lease_not_found", false),
        QueueErrorKind::Closed => ("cli_not_running", false),
        QueueErrorKind::LeaseExpired => ("lease_expired", false),
        QueueErrorKind::Io | QueueErrorKind::NotFound => ("queue_unavailable", true),
        QueueErrorKind::Invalid => ("queue_unavailable", false),
    };
    BridgeError::new(code, err.message.as_str(), retryable).with_details(Details::QueueKind(kind))
}

/// What went wrong between the bridge and the server.
pub enum ClientError {
    /// The server is not there: nothing listens, or the connection broke.
    Unreachable,
    TimedOut,
    /// Any other I/O error: its kind and its text.
    Io { kind: String, text: String },
    ErrorResponse { code: String, message: String },
    Json(String),
    EmptyResponse,
    UnexpectedResult(String),
}

fn joined(head: &str, tail: &str) -> (r: String)
    ensures
        r@ == head@ + tail@,
{
    let mut s = head.to_string();
    s.append(tail);
    s
}

/// How a failed API call is answered.
pub fn api_error(err: ClientError) -> (e: BridgeError)
    ensures
        match err {
            ClientError::Unreachable => is_bridge_error(
                e,
                "server_unavailable"@,
                "the selected Herdr session is not running"@,
                true,
            ) && e.details is None,
            ClientError::TimedOut => is_bridge_error(
                e,
                "server_timeout"@,
                "the selected Herdr session did not respond in time"@,
                true,
            ) && e.details is None,
            ClientError::Io { kind, text } => is_bridge_error(
                e,
                "server_unavailable"@,
                text@,
                true,
            ) && e.details == Some(Details::IoKind(kind)),
            ClientError::ErrorResponse { code, message } => is_bridge_error(
                e,
                code@,
                message@,
                false,
            ) && e.details is None,
            ClientError::Json(text) => is_bridge_error(
                e,
                "server_protocol_error"@,
                "invalid response from Herdr: "@ + text@,
                false,
            ) && e.details is None,
            ClientError::EmptyResponse => is_bridge_error(
                e,
                "server_protocol_error"@,
                "Herdr returned an empty response"@,
                false,
            ) && e.details is None,
            ClientError::UnexpectedResult(text) => is_bridge_error(
                e,
                "server_protocol_error"@,
                "Herdr returned an unexpected result: "@ + text@,
                false,
            ) && e.details is None,
        },
{
    match err {
        ClientError::Unreachable => BridgeError::new(
            "server_unavailable",
            "the selected Herdr session is not running",
            true,
        ),
        ClientError::TimedOut => BridgeError::new(
            "server_timeout",
            "the selected Herdr session did not respond in time",
            true,
        ),
        ClientError::Io { kind, text } => BridgeError::new(
            "server_unavailable",
            text.as_str(),
            true,
        ).with_details(Details::IoKind(kind)),
        ClientError::ErrorResponse { code, message } => BridgeError::new(
            code.as_str(),
            message.as_str(),
            false,
        ),
        ClientError::Json(text) => BridgeError::new(
            "server_protocol_error",
            joined("invalid response from Herdr: ", text.as_str()).as_str(),
            false,
        ),
        ClientError::EmptyResponse => BridgeError::new(
            "server_protocol_error",
            "Herdr returned an empty response",
            false,
        ),
        ClientError::UnexpectedResult(text) => BridgeError::new(
            "server_protocol_error",
            joined("Herdr returned an unexpected result: ", text.as_str()).as_str(),
            false,
        ),
    }
}

/// The error says that the bridge and the server do not understand each other,
/// or cannot reach each other.
pub open spec fn bridge_level(code: Seq<char>) -> bool {
    code == "server_unavailable"@ || code == "server_timeout"@ || code == "server_protocol_error"@
        || code == "server_incompatible"@ || code == "internal_error"@
}

pub open spec fn boxed(d: Option<Details>) -> Option<Box<Details>> {
    match d {
        Some(details) => Some(Box::new(details)),
        None => None,
    }
}

pub(crate) fn boxed_details(d: Option<Details>) -> (r: Option<Box<Details>>)
    ensures
        r == boxed(d),
{
    match d {
        Some(details) => Some(Box::new(details)),
        None => None,
    }
}

/// What a refusal by the server becomes: a bridge-level error stays what it is,
/// any other is reported under `code` with what the server said.
pub open spec fn remapped(err: BridgeError, code: Seq<char>, e: BridgeError) -> bool {
    if bridge_level(err.code@) {
        e == err
    } else {
        &&& is_bridge_error(e, code, err.message@, err.retryable)
        &&& e.details == Some(Details::Upstream { code: err.code, details: boxed(err.details) })
    }
}

pub fn remap_rejection(err: BridgeError, code: &str) -> (e: BridgeError)
    ensures
        remapped(err, code@, e),
{
    let c = err.code.as_str();
    if text::str_eq(c, "server_unavailable") || text::str_eq(c, "server_timeout") || text::str_eq(
        c,
        "server_protocol_error",
    ) || text::str_eq(c, "server_incompatible") || text::str_eq(c, "internal_error") {
        return err;
    }
    BridgeError::new(code, err.message.as_str(), err.retryable).with_details(
        Details::Upstream { code: err.code, details: boxed_details(err.details) },
    )
}

/// A result of a kind that the operation does not give.
pub fn unexpected_result(operation: &str, result: &str) -> (e: BridgeError)
    ensures
        is_unexpected(e, operation@, result@),
{
    let mut message = "unexpected Herdr result for ".to_string();
    message.append(operation);
    message.append(": ");
    message.append(result);
    BridgeError::new("server_protocol_error", message.as_str(), false)
}

pub open spec fn is_unexpected(e: BridgeError, operation: Seq<char>, result: Seq<char>) -> bool {
    &&& is_bridge_error(
        e,
        "server_protocol_error"@,
        "unexpected Herdr result for "@ + operation + ": "@ + result,
        false,
    )
    &&& e.details is None
}

/// A server of another protocol version is refused.
pub open spec fn incompatible(e: BridgeError, protocol: u32, version: String) -> bool {
    &&& is_bridge_error(
        e,
        "server_incompatible"@,
        "Herdr protocol "@ + text::dec(protocol as nat)
            + " is incompatible; protocol 17 is required"@,
        false,
    )
    &&& e.details == Some(Details::Incompatible { actual_protocol: protocol, herdr_version: version })
}

/// Accepts a server that speaks the bridge's protocol.
pub fn require_compatible(version: String, protocol: u32) -> (r: Result<(), BridgeError>)
    ensures
        r is Ok == (protocol == REQUIRED_PROTOCOL),
        r matches Err(e) ==> incompatible(e, protocol, version),
{
    if protocol != REQUIRED_PROTOCOL {
        let mut message = "Herdr protocol ".to_string();
        message.append(text::dec_string(protocol as u64).as_str());
        message.append(" is incompatible; protocol 17 is required");
        return Err(
            BridgeError::new("server_incompatible", message.as_str(), false).with_details(
                Details::Incompatible { actual_protocol: protocol, herdr_version: version },
            ),
        );
    }
    Ok(())
}

/// A fresh identifier for this bridge: `mcp_` and thirty-two hexadecimal
/// digits.
pub fn random_control_client_id() -> (r: Result<String, BridgeError>)
    ensures
        r matches Ok(id) ==> exists|b: Seq<u8>|
            b.len() == 16 && id@ == "mcp_"@ + #[trigger] text::hex_of(b),
        r matches Err(e) ==> e.code@ == "internal_error"@ && !e.retryable && e.details is None
            && text::has_prefix(e.message@, "failed to generate MCP client id: "@),
{
    match random::random_hex(16) {
        Ok(hex) => {
            let id = joined("mcp_", hex.as_str());
            proof {
                let b = choose|b: Seq<u8>| b.len() == 16 && hex@ == #[trigger] text::hex_of(b);
                assert(id@ == "mcp_"@ + text::hex_of(b));
            }
            Ok(id)
        },
        Err(text) => {
            let message = joined("failed to generate MCP client id: ", text.as_str());
            assert(message@.take("failed to generate MCP client id: "@.len() as int)
                =~= "failed to generate MCP client id: "@);
            Err(BridgeError::new("internal_error", message.as_str(), false))
        },
    }
}

/// A tool call that the access mode does not cover is answered with an error;
/// the others go on.
pub fn check_tool_access(mode: AccessMode, name: &str) -> (r: Result<(), BridgeError>)
    ensures
        r is Err == (!allowed(mode, name@) && full_control_tool(name@)),
        r matches Err(e) ==> is_bridge_error(
            e,
            "full_control_required"@,
            "restart the MCP bridge with --full-control to use this tool"@,
            false,
        ) && e.details is None,
{
    if !mode.allows_tool(name) && is_full_control_tool(name) {
        return Err(
            BridgeError::new(
                "full_control_required",
                "restart the MCP bridge with --full-control to use this tool",
                false,
            ),
        );
    }
    Ok(())
}

} // verus!
