//! What tools show: that it is all there, and that it fits.

use vstd::prelude::*;
use vstd::string::*;

use super::results::{self, ToolResult};
use super::tools::{self, BridgeFacts, ServerVersion};
use super::{AccessMode, BridgeError, Details};
use crate::api::schema::common::{PaneReadResult, ReadFormat};
use crate::desktop_queue::{DrainResult, QueueErrorKind, QueuedMessage};
use crate::json::{self, Json, JsonView};
use crate::text;

verus! {

/// The value has this member.
pub open spec fn holds(v: JsonView, name: Seq<char>, member: JsonView) -> bool {
    v is Object && (v->Object_0).contains((name, member))
}

/// The answer is no error, and this is what it carries.
pub open spec fn carries(a: ToolResult, data: JsonView) -> bool {
    !a.is_error && holds(json::json_view(a.value), "ok"@, JsonView::Bool(true)) && holds(
        json::json_view(a.value),
        "data"@,
        data,
    )
}

/// A value and what is under one of its names.
proof fn lemma_holds(rows: Seq<(Seq<char>, JsonView)>, i: int)
    requires
        0 <= i < rows.len(),
    ensures
        holds(JsonView::Object(rows), rows[i].0, rows[i].1),
{
}

proof fn lemma_carries(a: ToolResult, data: JsonView)
    requires
        results::answers(a, results::success_view(data)),
    ensures
        carries(a, data),
{
    let rows = seq![("ok"@, JsonView::Bool(true)), ("data"@, data)];
    lemma_holds(rows, 0);
    lemma_holds(rows, 1);
}

/// An answer takes up no more than it may, and carries what it was made of; one that would
/// take up more is refused and not cut.
pub proof fn lemma_answers_fit(
    r: Result<ToolResult, BridgeError>,
    data: JsonView,
    max_bytes: usize,
    message: Seq<char>,
)
    requires
        results::given_within(r, results::success_view(data), max_bytes, message),
    ensures
        r is Ok ==> carries(r->Ok_0, data),
        r is Ok ==> (results::tool_result_size(json::json_view((r->Ok_0).value), false) matches Ok(
            n,
        ) && n <= max_bytes),
        results::tool_result_size(results::success_view(data), false) is Ok
            && results::tool_result_size(results::success_view(data), false)->Ok_0 <= max_bytes
            ==> r is Ok,
        r is Err ==> (r->Err_0).code@ == "result_too_large"@ || (r->Err_0).code@
            == "internal_error"@,
{
    if r is Ok {
        lemma_carries(r->Ok_0, data);
    }
}

/// A lease is shown with its name and when it ends, and with every message in its order.
pub proof fn lemma_leases_are_shown_whole(d: DrainResult, i: int)
    requires
        0 <= i < d.messages@.len(),
    ensures
        holds(tools::drain_view(d), "lease_id"@, JsonView::Text(d.lease_id@)),
        holds(
            tools::drain_view(d),
            "lease_expires_at_unix_ms"@,
            JsonView::Number(text::dec(d.lease_expires_at_unix_ms as nat)),
        ),
        holds(tools::drain_view(d), "remaining"@, JsonView::Number(text::dec(d.remaining as nat))),
        exists|shown: Seq<JsonView>| #[trigger]
            holds(tools::drain_view(d), "messages"@, JsonView::Array(shown)) && shown.len()
                == d.messages@.len() && shows_message(shown[i], d.messages@[i]),
{
    let rows = tools::drain_view(d)->Object_0;
    lemma_holds(rows, 0);
    lemma_holds(rows, 1);
    lemma_holds(rows, 2);
    lemma_holds(rows, 3);
    let shown = tools::messages_view(d.messages@);
    assert(shown[i] == tools::message_view(d.messages@[i]));
    let members = tools::message_view(d.messages@[i])->Object_0;
    lemma_holds(members, 0);
    lemma_holds(members, 1);
    lemma_holds(members, 2);
    lemma_holds(members, 3);
    lemma_holds(members, 4);
    lemma_holds(members, 5);
    lemma_holds(members, 6);
    assert(holds(tools::drain_view(d), "messages"@, JsonView::Array(shown)));
}

/// The value shows all there is to the message.
pub open spec fn shows_message(v: JsonView, m: QueuedMessage) -> bool {
    &&& holds(v, "id"@, JsonView::Text(m.message_id@))
    &&& holds(v, "sequence"@, JsonView::Number(text::dec(m.sequence as nat)))
    &&& holds(v, "cli_id"@, JsonView::Text(m.cli_id@))
    &&& holds(v, "created_at_unix_ms"@, JsonView::Number(text::dec(m.created_at_unix_ms as nat)))
    &&& holds(v, "kind"@, JsonView::Text(m.kind@))
    &&& holds(v, "text"@, JsonView::Text(m.text@))
    &&& holds(
        v,
        "correlation_id"@,
        match m.correlation_id {
            Some(id) => JsonView::Text(id@),
            None => JsonView::Null,
        },
    )
}

/// The value shows this read, with this text.
pub open spec fn shows_read(v: JsonView, read: PaneReadResult, shown: Seq<char>, cut: bool) -> bool {
    &&& holds(v, "pane_id"@, JsonView::Text(read.pane_id@))
    &&& holds(v, "workspace_id"@, JsonView::Text(read.workspace_id@))
    &&& holds(v, "tab_id"@, JsonView::Text(read.tab_id@))
    &&& holds(v, "text"@, JsonView::Text(shown))
    &&& holds(v, "revision"@, JsonView::Number(text::dec(read.revision as nat)))
    &&& holds(v, "truncated"@, JsonView::Bool(cut))
}

proof fn lemma_shows_read(read: PaneReadResult, shown: Seq<char>, cut: bool)
    ensures
        shows_read(tools::read_view(read, shown, cut), read, shown, cut),
{
    let rows = tools::read_view(read, shown, cut)->Object_0;
    lemma_holds(rows, 0);
    lemma_holds(rows, 1);
    lemma_holds(rows, 2);
    lemma_holds(rows, 5);
    lemma_holds(rows, 6);
    lemma_holds(rows, 7);
}

/// What is shown of a pane fits, and is the end of what was read: all of it where that fits,
/// and else it is said that there is more. What holds escape sequences is never cut.
pub proof fn lemma_the_end_of_a_pane_is_shown(
    read: PaneReadResult,
    format: ReadFormat,
    max_bytes: usize,
    r: Result<ToolResult, BridgeError>,
)
    requires
        tools::pane_answered(read, format, max_bytes, r),
        r is Ok,
    ensures
        results::tool_result_size(json::json_view((r->Ok_0).value), false) matches Ok(n) && n
            <= max_bytes,
        exists|k: int|
            0 <= k <= read.text@.len() && #[trigger] shown_from(r->Ok_0, read, k) && (format
                == ReadFormat::Ansi ==> k == 0) && (k > 0 ==> tools::size_above(
                tools::read_size(read, read.text@.skip(k - 1), true),
                max_bytes,
            ) || text::utf8_len(read.text@.skip(k - 1)) > max_bytes),
        tools::size_within(tools::read_size(read, read.text@, read.truncated), max_bytes)
            ==> exists|v: JsonView| #[trigger]
            carries_read(r->Ok_0, v) && shows_read(v, read, read.text@, read.truncated),
{
    let a = r->Ok_0;
    let whole = tools::read_size(read, read.text@, read.truncated);
    assert(read.text@.skip(0) =~= read.text@);
    if whole->Ok_0 <= max_bytes {
        let v = tools::read_view(read, read.text@, read.truncated);
        lemma_carries(a, results::named_view("read"@, v));
        lemma_holds(seq![("read"@, v)], 0);
        lemma_shows_read(read, read.text@, read.truncated);
        assert(shows_read(v, read, read.text@.skip(0), read.truncated));
        assert(carries_read(a, v));
        assert(shown_from(a, read, 0));
    } else {
        let k = choose|k: int| #[trigger]
            tools::shows_end(a, read, true, k, max_bytes) && (k > 0 ==> tools::size_above(
                tools::read_size(read, super::read::tail(read.text@, k - 1), true),
                max_bytes,
            ) || text::utf8_len(super::read::tail(read.text@, k - 1)) > max_bytes);
        let end = super::read::tail(read.text@, k);
        assert(end =~= read.text@.skip(k));
        let v = tools::read_view(read, end, true);
        lemma_carries(a, results::named_view("read"@, v));
        lemma_holds(seq![("read"@, v)], 0);
        lemma_shows_read(read, end, true);
        assert(shows_read(v, read, read.text@.skip(k), true));
        assert(carries_read(a, v));
        assert(shown_from(a, read, k));
        if k > 0 {
            assert(super::read::tail(read.text@, k - 1) =~= read.text@.skip(k - 1));
        }
    }
}

/// The answer carries this as what was read.
pub open spec fn carries_read(a: ToolResult, v: JsonView) -> bool {
    carries(a, JsonView::Object(seq![("read"@, v)]))
}

/// The answer shows what was read from this place on, and says so where that is not all.
pub open spec fn shown_from(a: ToolResult, read: PaneReadResult, k: int) -> bool {
    exists|v: JsonView| #[trigger]
        carries_read(a, v) && (shows_read(v, read, read.text@.skip(k), true) || (k == 0
            && shows_read(v, read, read.text@, read.truncated)))
}

/// The bridge says that the server is there exactly if it answered, and that the two
/// understand each other exactly if it speaks the seventeenth protocol.
pub proof fn lemma_health_is_told(v: Json, b: BridgeFacts, ping: Result<ServerVersion, BridgeError>)
    requires
        tools::tells_health(v, b, ping),
    ensures
        holds(json::json_view(v), "herdr_available"@, JsonView::Bool(ping is Ok)),
        ping is Ok ==> holds(
            json::json_view(v),
            "herdr_status"@,
            JsonView::Text(
                if (ping->Ok_0).protocol == 17 {
                    "available"@
                } else {
                    "incompatible"@
                },
            ),
        ),
        ping is Ok ==> holds(
            json::json_view(v),
            "herdr_version"@,
            JsonView::Text((ping->Ok_0).version@),
        ),
        ping is Err ==> holds(json::json_view(v), "herdr_status"@, JsonView::Text("unavailable"@)),
        holds(json::json_view(v), "selected_session"@, JsonView::Text(b.session@)),
        holds(
            json::json_view(v),
            "access_mode"@,
            JsonView::Text(
                if b.access_mode == AccessMode::FullControl {
                    "full_control"@
                } else {
                    "restricted"@
                },
            ),
        ),
        holds(
            json::json_view(v),
            "binary_version"@,
            JsonView::Text(b.binary_version@),
        ),
{
    let o = (v->Object_0)@;
    let rows = json::json_view(v)->Object_0;
    assert(rows.len() == o.len());
    assert forall|i: int| 0 <= i < o.len() implies #[trigger] rows[i] == json::row_view(o[i]) by {}
    lemma_holds(rows, 2);
    lemma_holds(rows, 3);
    lemma_holds(rows, 4);
    lemma_holds(rows, 6);
    lemma_holds(rows, 7);
    if ping is Ok {
        lemma_holds(rows, 8);
    }
}

/// An error is told with its code, its message and whether to try again; what else it says is
/// told exactly where it says more.
pub proof fn lemma_errors_are_told(v: Json, e: BridgeError)
    requires
        results::tells_bridge_error(v, e),
    ensures
        holds(json::json_view(v), "code"@, JsonView::Text(e.code@)),
        holds(json::json_view(v), "message"@, JsonView::Text(e.message@)),
        holds(json::json_view(v), "retryable"@, JsonView::Bool(e.retryable)),
        (json::json_view(v)->Object_0).len() == if e.details is Some {
            4nat
        } else {
            3
        },
{
    let o = (v->Object_0)@;
    let rows = json::json_view(v)->Object_0;
    assert(rows.len() == o.len());
    assert forall|i: int| 0 <= i < o.len() implies #[trigger] rows[i] == json::row_view(o[i]) by {}
    lemma_holds(rows, 0);
    lemma_holds(rows, 1);
    lemma_holds(rows, 2);
}

/// No two kinds of queue errors are told by one name.
pub proof fn lemma_kinds_of_errors_are_told_apart(a: QueueErrorKind, b: QueueErrorKind)
    ensures
        results::kind_name(a) == results::kind_name(b) <==> a == b,
        results::kind_name(QueueErrorKind::Full) == "Full"@,
        results::kind_name(QueueErrorKind::LeaseExpired) == "LeaseExpired"@,
        results::kind_name(QueueErrorKind::LeaseNotFound) == "LeaseNotFound"@,
        results::kind_name(QueueErrorKind::CliNotFound) == "CliNotFound"@,
        results::kind_name(QueueErrorKind::PermissionDenied) == "PermissionDenied"@,
{
    reveal_strlit("Invalid");
    reveal_strlit("PermissionDenied");
    reveal_strlit("Full");
    reveal_strlit("Corrupt");
    reveal_strlit("NotFound");
    reveal_strlit("CliNotFound");
    reveal_strlit("LeaseNotFound");
    reveal_strlit("Closed");
    reveal_strlit("LeaseExpired");
    reveal_strlit("Io");
    assert("Invalid"@.len() == 7 && "Invalid"@[0] == 'I');
    assert("PermissionDenied"@.len() == 16);
    assert("Full"@.len() == 4);
    assert("Corrupt"@.len() == 7 && "Corrupt"@[0] == 'C');
    assert("NotFound"@.len() == 8);
    assert("CliNotFound"@.len() == 11);
    assert("LeaseNotFound"@.len() == 13);
    assert("Closed"@.len() == 6);
    assert("LeaseExpired"@.len() == 12);
    assert("Io"@.len() == 2);
}

/// A launch whose outcome is in doubt is told as unknown exactly if it is not known to be
/// absent; both protocols are told where they differ, and both sizes where one is too large.
pub proof fn lemma_details_are_told(v: Json, d: Details)
    requires
        results::tells_details(v, d),
    ensures
        v is Object,
        d matches Details::Reconciliation { cli_id, confirmed_absent } ==> ({
            let rows = (v->Object_0)@;
            &&& rows.len() == 3
            &&& rows[0].0@ == "cli_id"@ && json::as_text(rows[0].1) == Some(cli_id@)
            &&& rows[1].0@ == "outcome_unknown"@ && (rows[1].1 == Json::Bool(true)
                <==> !confirmed_absent)
            &&& rows[2].0@ == "confirmed_absent"@ && (rows[2].1 == Json::Bool(true)
                <==> confirmed_absent)
        }),
        d matches Details::QueueKind(kind) ==> json::as_text((v->Object_0)@[0].1) == Some(
            results::kind_name(kind),
        ),
        d matches Details::Incompatible { actual_protocol, herdr_version } ==> ({
            let rows = (v->Object_0)@;
            &&& rows[0].0@ == "actual_protocol"@ && json::is_number(
                rows[0].1,
                actual_protocol as nat,
            )
            &&& rows[1].0@ == "required_protocol"@ && json::is_number(rows[1].1, 17)
            &&& rows[2].0@ == "herdr_version"@ && json::as_text(rows[2].1) == Some(herdr_version@)
        }),
        d matches Details::ForeignPane { cli_id, pane_id } ==> json::as_text((v->Object_0)@[0].1)
            == Some(cli_id@) && json::as_text((v->Object_0)@[1].1) == Some(pane_id@),
        d matches Details::Size { actual_bytes, max_bytes } ==> json::is_number(
            (v->Object_0)@[0].1,
            actual_bytes as nat,
        ) && json::is_number((v->Object_0)@[1].1, max_bytes as nat),
{
}

} // verus!
