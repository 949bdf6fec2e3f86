//! The form of a tool's answer.

use vstd::prelude::*;
use vstd::string::*;

use super::read;
use super::tools;
use super::validate::{self, InvalidParams};
use super::{
    BridgeError, Details, CONTROL_ARGUMENT_MAX_BYTES, QUEUE_DRAIN_MAX_BYTES, REQUIRED_PROTOCOL,
    SNAPSHOT_MAX_BYTES,
};
use crate::desktop_queue::{DrainResult, QueueErrorKind};
use crate::json::{self, Json, JsonView};
use crate::text;

verus! {

/// A tool's answer: a value, and whether it is an error.
#[derive(Debug)]
pub struct ToolResult {
    pub value: Json,
    pub is_error: bool,
}

pub open spec fn kind_name(kind: QueueErrorKind) -> Seq<char> {
    match kind {
        QueueErrorKind::Invalid => "Invalid"@,
        QueueErrorKind::PermissionDenied => "PermissionDenied"@,
        QueueErrorKind::Full => "Full"@,
        QueueErrorKind::Corrupt => "Corrupt"@,
        QueueErrorKind::NotFound => "NotFound"@,
        QueueErrorKind::CliNotFound => "CliNotFound"@,
        QueueErrorKind::LeaseNotFound => "LeaseNotFound"@,
        QueueErrorKind::Closed => "Closed"@,
        QueueErrorKind::LeaseExpired => "LeaseExpired"@,
        QueueErrorKind::Io => "Io"@,
    }
}

/// `rows` end with what the error behind this one said, where it said more.
pub open spec fn ends_with_upstream(
    rows: Seq<(String, Json)>,
    n: int,
    details: Option<Box<Details>>,
) -> bool
    decreases details,
{
    match details {
        Some(d) => rows.len() == n + 1 && rows[n].0@ == "upstream_details"@ && tells_details(
            rows[n].1,
            *d,
        ),
        None => rows.len() == n,
    }
}

pub open spec fn tells_outcome(v: Json, code: Seq<char>, message: Seq<char>, retryable: bool) -> bool {
    v matches Json::Object(o) && o@.len() == 3 && json::is_text_field(o@[0], "code"@, code)
        && json::is_text_field(o@[1], "message"@, message) && json::is_field(
        o@[2],
        "retryable"@,
        Json::Bool(retryable),
    )
}

/// The value says what the details hold.
pub open spec fn tells_details(v: Json, d: Details) -> bool
    decreases d,
{
    v matches Json::Object(o) && match d {
        Details::QueueKind(kind) => o@.len() == 1 && json::is_text_field(
            o@[0],
            "kind"@,
            kind_name(kind),
        ),
        Details::IoKind(kind) => o@.len() == 1 && json::is_text_field(o@[0], "io_kind"@, kind@),
        Details::Incompatible { actual_protocol, herdr_version } => o@.len() == 3
            && json::is_number_field(o@[0], "actual_protocol"@, actual_protocol as nat)
            && json::is_number_field(o@[1], "required_protocol"@, REQUIRED_PROTOCOL as nat)
            && json::is_text_field(o@[2], "herdr_version"@, herdr_version@),
        Details::Upstream { code, details } => o@.len() >= 1 && json::is_text_field(
            o@[0],
            "upstream_code"@,
            code@,
        ) && ends_with_upstream(o@, 1, details),
        Details::Reconciliation { cli_id, confirmed_absent } => o@.len() == 3
            && json::is_text_field(o@[0], "cli_id"@, cli_id@) && json::is_field(
            o@[1],
            "outcome_unknown"@,
            Json::Bool(!confirmed_absent),
        ) && json::is_field(o@[2], "confirmed_absent"@, Json::Bool(confirmed_absent)),
        Details::ForeignPane { cli_id, pane_id } => o@.len() == 2 && json::is_text_field(
            o@[0],
            "cli_id"@,
            cli_id@,
        ) && json::is_text_field(o@[1], "pane_id"@, pane_id@),
        Details::Size { actual_bytes, max_bytes } => o@.len() == 2 && json::is_number_field(
            o@[0],
            "actual_bytes"@,
            actual_bytes as nat,
        ) && json::is_number_field(o@[1], "max_bytes"@, max_bytes as nat),
        Details::LaunchUnknown {
            cli_id,
            upstream_code,
            upstream_details,
            code,
            message,
            retryable,
        } => o@.len() >= 4 && json::is_text_field(o@[0], "cli_id"@, cli_id@) && json::is_field(
            o@[1],
            "outcome_unknown"@,
            Json::Bool(true),
        ) && json::is_text_field(o@[2], "upstream_code"@, upstream_code@) && o@[3].0@
            == "reconciliation"@ && tells_outcome(o@[3].1, code@, message@, retryable)
            && ends_with_upstream(o@, 4, upstream_details),
    }
}

fn kind_text(kind: QueueErrorKind) -> (r: &'static str)
    ensures
        r@ == kind_name(kind),
{
    match kind {
        QueueErrorKind::Invalid => "Invalid",
        QueueErrorKind::PermissionDenied => "PermissionDenied",
        QueueErrorKind::Full => "Full",
        QueueErrorKind::Corrupt => "Corrupt",
        QueueErrorKind::NotFound => "NotFound",
        QueueErrorKind::CliNotFound => "CliNotFound",
        QueueErrorKind::LeaseNotFound => "LeaseNotFound",
        QueueErrorKind::Closed => "Closed",
        QueueErrorKind::LeaseExpired => "LeaseExpired",
        QueueErrorKind::Io => "Io",
    }
}

fn outcome_json(code: &str, message: &str, retryable: bool) -> (r: Json)
    ensures
        tells_outcome(r, code@, message@, retryable),
{
    let mut o: Vec<(String, Json)> = Vec::new();
    o.push(json::text_field("code", code));
    o.push(json::text_field("message", message));
    o.push(json::field_of("retryable", Json::Bool(retryable)));
    Json::Object(o)
}

fn details_json(d: &Details) -> (r: Json)
    ensures
        tells_details(r, *d),
    decreases *d,
{
    let mut o: Vec<(String, Json)> = Vec::new();
    match d {
        Details::QueueKind(kind) => {
            o.push(json::text_field("kind", kind_text(*kind)));
        },
        Details::IoKind(kind) => {
            o.push(json::text_field("io_kind", kind.as_str()));
        },
        Details::Incompatible { actual_protocol, herdr_version } => {
            o.push(json::number_field("actual_protocol", *actual_protocol as u64));
            o.push(json::number_field("required_protocol", REQUIRED_PROTOCOL as u64));
            o.push(json::text_field("herdr_version", herdr_version.as_str()));
        },
        Details::Upstream { code, details } => {
            o.push(json::text_field("upstream_code", code.as_str()));
            match details {
                Some(d) => {
                    o.push(json::field_of("upstream_details", details_json(&**d)));
                },
                None => {},
            }
        },
        Details::Reconciliation { cli_id, confirmed_absent } => {
            o.push(json::text_field("cli_id", cli_id.as_str()));
            o.push(json::field_of("outcome_unknown", Json::Bool(!*confirmed_absent)));
            o.push(json::field_of("confirmed_absent", Json::Bool(*confirmed_absent)));
        },
        Details::ForeignPane { cli_id, pane_id } => {
            o.push(json::text_field("cli_id", cli_id.as_str()));
            o.push(json::text_field("pane_id", pane_id.as_str()));
        },
        Details::Size { actual_bytes, max_bytes } => {
            o.push(json::number_field("actual_bytes", *actual_bytes as u64));
            o.push(json::number_field("max_bytes", *max_bytes as u64));
        },
        Details::LaunchUnknown {
            cli_id,
            upstream_code,
            upstream_details,
            code,
            message,
            retryable,
        } => {
            o.push(json::text_field("cli_id", cli_id.as_str()));
            o.push(json::field_of("outcome_unknown", Json::Bool(true)));
            o.push(json::text_field("upstream_code", upstream_code.as_str()));
            o.push(
                json::field_of(
                    "reconciliation",
                    outcome_json(code.as_str(), message.as_str(), *retryable),
                ),
            );
            match upstream_details {
                Some(d) => {
                    o.push(json::field_of("upstream_details", details_json(&**d)));
                },
                None => {},
            }
        },
    }
    Json::Object(o)
}

/// What an answer holds that carries `data`.
pub open spec fn success_view(data: JsonView) -> JsonView {
    JsonView::Object(seq![("ok"@, JsonView::Bool(true)), ("data"@, data)])
}

/// The answer that carries this value.
pub fn success(data: Json) -> (r: ToolResult)
    ensures
        !r.is_error,
        r.value matches Json::Object(o) && o@.len() == 2 && json::is_field(
            o@[0],
            "ok"@,
            Json::Bool(true),
        ) && json::is_field(o@[1], "data"@, data),
        json::json_view(r.value) == success_view(json::json_view(data)),
        forall|depth: nat| #[trigger]
            json::shallow(data, depth) ==> json::shallow(r.value, depth + 1),
{
    let mut o: Vec<(String, Json)> = Vec::new();
    o.push(json::field_of("ok", Json::Bool(true)));
    o.push(json::field_of("data", data));
    let value = Json::Object(o);
    proof {
        json::lemma_object_view(
            value,
            seq![("ok"@, JsonView::Bool(true)), ("data"@, json::json_view(data))],
        );
        assert forall|depth: nat| #[trigger] json::shallow(data, depth) implies json::shallow(
            value,
            depth + 1,
        ) by {
            assert(json::members_shallow(o@, depth));
        }
    }
    ToolResult { value, is_error: false }
}

/// A tool's answer, as far as its size is concerned: it was given, and this is what
/// it holds.
pub open spec fn answers(a: ToolResult, view: JsonView) -> bool {
    !a.is_error && json::json_view(a.value) == view
}

/// The body of an error answer.
pub open spec fn tells_bridge_error(v: Json, e: BridgeError) -> bool {
    v matches Json::Object(o) && o@.len() >= 3 && json::is_text_field(o@[0], "code"@, e.code@)
        && json::is_text_field(o@[1], "message"@, e.message@) && json::is_field(
        o@[2],
        "retryable"@,
        Json::Bool(e.retryable),
    ) && match e.details {
        Some(d) => o@.len() == 4 && o@[3].0@ == "details"@ && tells_details(o@[3].1, d),
        None => o@.len() == 3,
    }
}

impl BridgeError {
    /// The answer that reports this error.
    pub fn result(self) -> (r: ToolResult)
        ensures
            r.is_error,
            r.value matches Json::Object(o) && o@.len() == 2 && json::is_field(
                o@[0],
                "ok"@,
                Json::Bool(false),
            ) && o@[1].0@ == "error"@ && tells_bridge_error(o@[1].1, self),
    {
        let mut error: Vec<(String, Json)> = Vec::new();
        error.push(json::text_field("code", self.code.as_str()));
        error.push(json::text_field("message", self.message.as_str()));
        error.push(json::field_of("retryable", Json::Bool(self.retryable)));
        match &self.details {
            Some(d) => {
                error.push(json::field_of("details", details_json(d)));
            },
            None => {},
        }
        let mut o: Vec<(String, Json)> = Vec::new();
        o.push(json::field_of("ok", Json::Bool(false)));
        o.push(json::field_of("error", Json::Object(error)));
        ToolResult { value: Json::Object(o), is_error: true }
    }
}

pub open spec fn named_view(name: Seq<char>, value: JsonView) -> JsonView {
    JsonView::Object(seq![(name, value)])
}

/// A value under one name.
pub fn named_value(name: &str, value: Json) -> (r: Json)
    ensures
        r matches Json::Object(o) && o@.len() == 1 && json::is_field(o@[0], name@, value),
        json::json_view(r) == named_view(name@, json::json_view(value)),
        forall|depth: nat| #[trigger] json::shallow(value, depth) ==> json::shallow(r, depth + 1),
{
    let mut o: Vec<(String, Json)> = Vec::new();
    o.push(json::field_of(name, value));
    let r = Json::Object(o);
    proof {
        json::lemma_object_view(r, seq![(name@, json::json_view(value))]);
        assert forall|depth: nat| #[trigger] json::shallow(value, depth) implies json::shallow(
            r,
            depth + 1,
        ) by {
            assert(json::members_shallow(o@, depth));
        }
    }
    r
}

/// The answer of `herdr_send_input`: how much was sent.
pub fn input_tool_result(cli_id: &str, text: &Option<String>, keys: &Option<Vec<String>>) -> (r:
    Json)
    ensures
        r matches Json::Object(o) && o@.len() == 3 && json::is_text_field(
            o@[0],
            "cli_id"@,
            cli_id@,
        ) && json::is_number_field(
            o@[1],
            "text_bytes"@,
            match *text {
                Some(t) => text::utf8_len(t@),
                None => 0,
            },
        ) && json::is_number_field(
            o@[2],
            "key_count"@,
            match *keys {
                Some(k) => k@.len(),
                None => 0,
            },
        ),
{
    let text_bytes: usize = match text {
        Some(t) => text::byte_len(t.as_str()),
        None => 0,
    };
    let key_count: usize = match keys {
        Some(k) => k.len(),
        None => 0,
    };
    let mut o: Vec<(String, Json)> = Vec::new();
    o.push(json::text_field("cli_id", cli_id));
    o.push(json::number_field("text_bytes", text_bytes as u64));
    o.push(json::number_field("key_count", key_count as u64));
    Json::Object(o)
}

/// The answer of `herdr_interrupt_cli`.
pub fn interrupt_tool_result(cli_id: &str) -> (r: Json)
    ensures
        r matches Json::Object(o) && o@.len() == 2 && json::is_text_field(
            o@[0],
            "cli_id"@,
            cli_id@,
        ) && json::is_field(o@[1], "interrupted"@, Json::Bool(true)),
{
    let mut o: Vec<(String, Json)> = Vec::new();
    o.push(json::text_field("cli_id", cli_id));
    o.push(json::field_of("interrupted", Json::Bool(true)));
    Json::Object(o)
}

/// The answer of `herdr_stop_cli`.
pub fn stop_tool_result(cli_id: &str, already_stopped: bool) -> (r: Json)
    ensures
        r matches Json::Object(o) && o@.len() == 3 && json::is_text_field(
            o@[0],
            "cli_id"@,
            cli_id@,
        ) && json::is_field(o@[1], "stopped"@, Json::Bool(true)) && json::is_field(
            o@[2],
            "already_stopped"@,
            Json::Bool(already_stopped),
        ),
{
    let mut o: Vec<(String, Json)> = Vec::new();
    o.push(json::text_field("cli_id", cli_id));
    o.push(json::field_of("stopped", Json::Bool(true)));
    o.push(json::field_of("already_stopped", Json::Bool(already_stopped)));
    Json::Object(o)
}

/// Arguments of a control tool are read only where they are not too large, as
/// text.
pub fn parse_control_params(arguments: &Json) -> (r: Result<(), InvalidParams>)
    requires
        json::shallow(*arguments, json::MAX_WRITE_DEPTH as nat),
    ensures
        validate::complaint(r) == if text::utf8_len(
            json::json_text(json::json_view(*arguments)),
        ) > CONTROL_ARGUMENT_MAX_BYTES {
            Some("parameters must be at most 1048576 bytes"@)
        } else {
            None
        },
{
    check_argument_size(text::byte_len(json::write_json(arguments).as_str()))
}

/// Arguments of this size are read, or they are too large.
pub fn check_argument_size(encoded_len: usize) -> (r: Result<(), InvalidParams>)
    ensures
        validate::complaint(r) == if encoded_len > CONTROL_ARGUMENT_MAX_BYTES {
            Some("parameters must be at most 1048576 bytes"@)
        } else {
            None
        },
{
    if encoded_len > CONTROL_ARGUMENT_MAX_BYTES {
        return Err(validate::invalid_params("parameters must be at most 1048576 bytes"));
    }
    Ok(())
}

// ---------------------------------------------------------------------------
// How large an answer is

/// How many bytes the answer takes up that `rmcp` makes of a value, the value in it
/// and the same value as text, as `serde_json` writes it; or the error of that.
pub uninterp spec fn tool_result_size(value: JsonView, is_error: bool) -> Result<nat, Seq<char>>;

pub open spec fn size_view(r: Result<usize, String>) -> Result<nat, Seq<char>> {
    match r {
        Ok(n) => Ok(n as nat),
        Err(e) => Err(e@),
    }
}

/// `rmcp`'s `CallToolResult::structured` makes an answer of a value, and
/// `structured_error` one that is an error and otherwise the same;
/// `serde_json::to_vec` writes it. The contract names how long that is, or the text
/// of the error.
#[verifier::external_body]
fn encoded_len(result: &ToolResult) -> (r: Result<usize, String>)
    requires
        json::shallow(result.value, json::MAX_WRITE_DEPTH as nat),
    ensures
        size_view(r) == tool_result_size(json::json_view(result.value), result.is_error),
{
    let mut answer = rmcp::model::CallToolResult::structured(json::to_value(&result.value));
    answer.is_error = Some(result.is_error);
    match serde_json::to_vec(&answer) {
        Ok(encoded) => Ok(encoded.len()),
        Err(err) => Err(err.to_string()),
    }
}

pub open spec fn encoding_failed(e: BridgeError, cause: Seq<char>) -> bool {
    super::is_bridge_error(
        e,
        "internal_error"@,
        "failed to encode bridge result: "@ + cause,
        false,
    ) && e.details is None
}

/// `r` is a size, as a caller is told it.
pub open spec fn told_size(r: Result<usize, BridgeError>, size: Result<nat, Seq<char>>) -> bool {
    match size {
        Ok(n) => r matches Ok(m) && m == n,
        Err(cause) => r matches Err(e) && encoding_failed(e, cause),
    }
}

/// A size, with the error as a caller is told it.
pub fn result_len(size: Result<usize, String>) -> (r: Result<usize, BridgeError>)
    ensures
        told_size(r, size_view(size)),
{
    match size {
        Ok(n) => Ok(n),
        Err(cause) => {
            let mut message = "failed to encode bridge result: ".to_string();
            message.append(cause.as_str());
            Err(BridgeError::new("internal_error", message.as_str(), false))
        },
    }
}

/// How many bytes the whole answer takes up.
pub fn serialized_tool_result_len(result: &ToolResult) -> (r: Result<usize, BridgeError>)
    requires
        json::shallow(result.value, json::MAX_WRITE_DEPTH as nat),
    ensures
        told_size(r, tool_result_size(json::json_view(result.value), result.is_error)),
{
    result_len(encoded_len(result))
}

/// The answer that holds `view` is given where it takes up `max_bytes` at most, as a
/// whole; else it is refused with its size.
pub open spec fn given_within(
    r: Result<ToolResult, BridgeError>,
    view: JsonView,
    max_bytes: usize,
    message: Seq<char>,
) -> bool {
    match tool_result_size(view, false) {
        Err(cause) => r matches Err(e) && encoding_failed(e, cause),
        Ok(n) => if n <= max_bytes {
            r matches Ok(a) && answers(a, view)
        } else {
            r matches Err(e) && super::tools::too_large(e, message, n as usize, max_bytes)
        },
    }
}

fn give_within(answer: ToolResult, max_bytes: usize, message: &str) -> (r: Result<
    ToolResult,
    BridgeError,
>)
    requires
        json::shallow(answer.value, json::MAX_WRITE_DEPTH as nat),
        !answer.is_error,
    ensures
        given_within(r, json::json_view(answer.value), max_bytes, message@),
{
    let n: usize = match serialized_tool_result_len(&answer) {
        Ok(n) => n,
        Err(e) => return Err(e),
    };
    match read::check_result_size(n, max_bytes, message) {
        Ok(()) => Ok(answer),
        Err(e) => Err(e),
    }
}

/// The answer of `herdr_snapshot`.
pub fn herdr_snapshot(snapshot: Json) -> (r: Result<ToolResult, BridgeError>)
    requires
        json::shallow(snapshot, json::MAX_READ_DEPTH as nat),
    ensures
        given_within(
            r,
            success_view(named_view("snapshot"@, json::json_view(snapshot))),
            SNAPSHOT_MAX_BYTES,
            "the session snapshot exceeds the 2 MiB bridge limit"@,
        ),
{
    let data = named_value("snapshot", snapshot);
    let answer = success(data);
    proof {
        let depth = json::MAX_READ_DEPTH as nat;
        assert(json::shallow(data, depth + 1));
        json::lemma_shallower(answer.value, depth + 2, json::MAX_WRITE_DEPTH as nat);
    }
    give_within(
        answer,
        SNAPSHOT_MAX_BYTES,
        "the session snapshot exceeds the 2 MiB bridge limit",
    )
}

/// The answer to a control method; `limit` is what the method allows.
pub fn dispatch_control_method(limit: usize, result: Json) -> (r: Result<ToolResult, BridgeError>)
    requires
        json::shallow(result, json::MAX_READ_DEPTH as nat),
    ensures
        given_within(
            r,
            success_view(json::json_view(result)),
            limit,
            "the control result exceeds the MCP bridge limit"@,
        ),
{
    let answer = success(result);
    proof {
        let depth = json::MAX_READ_DEPTH as nat;
        json::lemma_shallower(answer.value, depth + 1, json::MAX_WRITE_DEPTH as nat);
    }
    give_within(answer, limit, "the control result exceeds the MCP bridge limit")
}

// ---------------------------------------------------------------------------
// Drained messages

/// A lease may grow while its whole answer can be written and stays within the
/// limit.
pub fn drain_fits(candidate: &DrainResult) -> (r: bool)
    ensures
        r == (tool_result_size(success_view(tools::drain_view(*candidate)), false) matches Ok(n)
            && n <= QUEUE_DRAIN_MAX_BYTES),
{
    let data = tools::drain_tool_result(candidate);
    let answer = success(data);
    proof {
        json::lemma_shallower(answer.value, 4, json::MAX_WRITE_DEPTH as nat);
    }
    match encoded_len(&answer) {
        Ok(n) => n <= QUEUE_DRAIN_MAX_BYTES,
        Err(_) => false,
    }
}

/// The answer of `herdr_drain_messages`. A lease whose answer cannot be given is to
/// be released.
pub fn herdr_drain_messages(drain: &DrainResult) -> (r: Result<ToolResult, BridgeError>)
    ensures
        given_within(
            r,
            success_view(tools::drain_view(*drain)),
            QUEUE_DRAIN_MAX_BYTES,
            "the drained message lease exceeds the 1 MiB bridge limit"@,
        ),
{
    let data = tools::drain_tool_result(drain);
    let answer = success(data);
    proof {
        json::lemma_shallower(answer.value, 4, json::MAX_WRITE_DEPTH as nat);
    }
    give_within(
        answer,
        QUEUE_DRAIN_MAX_BYTES,
        "the drained message lease exceeds the 1 MiB bridge limit",
    )
}

} // verus!
