//! What the tools ask for and answer.

use vstd::prelude::*;
use vstd::string::*;

use super::read;
use super::results::{self, ToolResult};
use super::validate::{self, InvalidParams};
use super::{AccessMode, BridgeError, Details, REQUIRED_PROTOCOL};
use crate::api::schema::common::{self, PaneReadParams, PaneReadResult, ReadFormat, ReadSource};
use crate::desktop_queue::{AckResult, CliIdentity, DrainResult, QueuedMessage};
use crate::json::{self, Json, JsonView};
use crate::text;

verus! {

// ---------------------------------------------------------------------------
// Reading panes

/// The parameters of `herdr_read_pane`.
#[derive(Debug)]
pub struct ReadPaneParams {
    pub pane_id: String,
    pub source: ReadSource,
    pub lines: u32,
    pub format: ReadFormat,
    pub max_bytes: usize,
}

pub open spec fn read_pane_complaint(p: ReadPaneParams) -> Option<Seq<char>> {
    if validate::read_complaint("pane_id"@, p.pane_id@, Some(p.lines)) is Some {
        validate::read_complaint("pane_id"@, p.pane_id@, Some(p.lines))
    } else if !(1 <= p.max_bytes <= super::PANE_READ_MAX_BYTES) {
        Some("max_bytes must be between 1 and 262144"@)
    } else {
        None
    }
}

/// What the server is asked for; plain text comes without escape sequences.
pub fn herdr_read_pane(params: &ReadPaneParams) -> (r: Result<PaneReadParams, InvalidParams>)
    ensures
        validate::complaint(r) == read_pane_complaint(*params),
        r matches Ok(p) ==> p.pane_id@ == params.pane_id@ && p.source == params.source && p.lines
            == Some(params.lines) && p.format == params.format && p.strip_ansi == (params.format
            == ReadFormat::Text),
{
    match validate::validate_read_pane(params.pane_id.as_str(), params.lines, params.max_bytes) {
        Ok(()) => {},
        Err(e) => return Err(e),
    }
    Ok(
        PaneReadParams {
            pane_id: params.pane_id.clone(),
            source: params.source,
            lines: Some(params.lines),
            format: params.format,
            strip_ansi: params.format == ReadFormat::Text,
        },
    )
}

pub open spec fn too_large(e: BridgeError, message: Seq<char>, actual: usize, max: usize) -> bool {
    super::is_bridge_error(e, "result_too_large"@, message, false) && e.details == Some(
        Details::Size { actual_bytes: actual, max_bytes: max },
    )
}

/// The answer is at least as large as the text in it.
pub open spec fn holds_whole_text(size: spec_fn(Seq<char>) -> nat) -> bool {
    forall|t: Seq<char>| #[trigger] size(t) >= text::utf8_len(t)
}

fn refuse_size(message: &str, actual_bytes: usize, max_bytes: usize) -> (e: BridgeError)
    ensures
        too_large(e, message@, actual_bytes, max_bytes),
{
    BridgeError::new("result_too_large", message, false).with_details(
        Details::Size { actual_bytes, max_bytes },
    )
}

/// The text that fits: the whole (none) where it does, else the longest end of it
/// for which the answer does. `format` is what was asked for: ANSI text is not cut.
/// `initial_len` is the size of the whole answer; `measure` gives the size of the
/// answer with other text, marked as cut short.
pub fn bounded_read<F: Fn(&str) -> Result<usize, BridgeError>>(
    text: &str,
    format: ReadFormat,
    initial_len: usize,
    max_bytes: usize,
    measure: F,
) -> (r: Result<Option<String>, BridgeError>)
    requires
        forall|t: &str| #[trigger] call_requires(measure, (t,)),
    ensures
        initial_len <= max_bytes ==> r == Ok::<Option<String>, BridgeError>(None),
        initial_len > max_bytes && format == ReadFormat::Ansi ==> (r matches Err(e) && too_large(
            e,
            "ANSI pane output exceeds max_bytes and cannot be safely truncated"@,
            initial_len,
            max_bytes,
        )),
        initial_len > max_bytes && format == ReadFormat::Text ==> match r {
            Ok(shown) => shown matches Some(best) && exists|k: int|
                0 <= k <= text@.len() && best@ == #[trigger] read::tail(text@, k) && read::fits(
                    measure,
                    read::tail(text@, k),
                    max_bytes,
                    true,
                ) && (k > 0 ==> read::fits(measure, read::tail(text@, k - 1), max_bytes, false)
                    || text::utf8_len(read::tail(text@, k - 1)) > max_bytes),
            Err(e) => too_large(
                e,
                "the pane result metadata alone exceeds max_bytes"@,
                initial_len,
                max_bytes,
            ) && read::fits(measure, read::tail(text@, text@.len() as int), max_bytes, false)
                || exists|t: &str| #[trigger] call_ensures(measure, (t,), Err(e)),
        },
        initial_len > max_bytes && format == ReadFormat::Text ==> forall|
            size: spec_fn(Seq<char>) -> nat,
        |
            #![trigger read::measures(measure, size, text@)]
            read::measures(measure, size, text@) && holds_whole_text(size) ==> match r {
                Ok(shown) => shown matches Some(best) && exists|k: int|
                    0 <= k <= text@.len() && best@ == #[trigger] read::tail(text@, k) && size(
                        read::tail(text@, k),
                    ) <= max_bytes && (k > 0 ==> size(read::tail(text@, k - 1)) > max_bytes),
                Err(_) => size(read::tail(text@, text@.len() as int)) > max_bytes,
            },
{
    if initial_len <= max_bytes {
        return Ok(None);
    }
    if format == ReadFormat::Ansi {
        return Err(
            refuse_size(
                "ANSI pane output exceeds max_bytes and cannot be safely truncated",
                initial_len,
                max_bytes,
            ),
        );
    }
    let ghost whole = text@;
    let mut end = text.to_string();
    let _ = read::truncate_utf8_tail(&mut end, max_bytes);
    let ghost cut = end@;
    let ghost k0 = whole.len() - cut.len();
    let fitting = read::longest_fitting_tail(end.as_str(), max_bytes, measure);
    proof {
        assert(read::tail(whole, 0) =~= whole);
        assert(cut == read::tail(whole, k0));
        lemma_tails(whole, cut, k0);
        assert forall|size: spec_fn(Seq<char>) -> nat|
            #![trigger read::measures(measure, size, whole)]
            read::measures(measure, size, whole) implies read::measures(measure, size, cut) by {
            lemma_measures_tail(measure, size, whole, cut, k0);
        }
    }
    match fitting {
        Ok(Some(best)) => {
            proof {
                let k1 = choose|k: int|
                    0 <= k <= cut.len() && best@ == #[trigger] read::tail(cut, k) && read::fits(
                        measure,
                        read::tail(cut, k),
                        max_bytes,
                        true,
                    ) && (k > 0 ==> read::fits(measure, read::tail(cut, k - 1), max_bytes, false));
                assert(read::tail(cut, k1) == read::tail(whole, k0 + k1));
                if k1 > 0 {
                    assert(read::tail(cut, k1 - 1) == read::tail(whole, k0 + k1 - 1));
                }
                assert(best@ == read::tail(whole, k0 + k1));
                assert forall|size: spec_fn(Seq<char>) -> nat|
                    #![trigger read::measures(measure, size, whole)]
                    read::measures(measure, size, whole) && holds_whole_text(size) implies exists|
                    k: int,
                |
                    0 <= k <= whole.len() && best@ == #[trigger] read::tail(whole, k) && size(
                        read::tail(whole, k),
                    ) <= max_bytes && (k > 0 ==> size(read::tail(whole, k - 1)) > max_bytes) by {
                    assert(read::measures(measure, size, cut));
                    let k2 = choose|k: int|
                        0 <= k <= cut.len() && best@ == #[trigger] read::tail(cut, k) && size(
                            read::tail(cut, k),
                        ) <= max_bytes && (k > 0 ==> size(read::tail(cut, k - 1)) > max_bytes);
                    assert(read::tail(cut, k2) == read::tail(whole, k0 + k2));
                    if k2 > 0 {
                        assert(read::tail(cut, k2 - 1) == read::tail(whole, k0 + k2 - 1));
                    } else if k0 > 0 {
                        assert(size(read::tail(whole, k0 - 1)) >= text::utf8_len(
                            read::tail(whole, k0 - 1),
                        ));
                    }
                    let k = k0 + k2;
                    assert(best@ == read::tail(whole, k));
                }
            }
            Ok(Some(best))
        },
        Ok(None) => {
            assert(read::tail(cut, cut.len() as int) == read::tail(whole, whole.len() as int));
            Err(
                refuse_size(
                    "the pane result metadata alone exceeds max_bytes",
                    initial_len,
                    max_bytes,
                ),
            )
        },
        Err(e) => Err(e),
    }
}

/// What a read holds, with this text.
pub open spec fn read_view(read: PaneReadResult, text: Seq<char>, truncated: bool) -> JsonView {
    JsonView::Object(
        seq![
            ("pane_id"@, JsonView::Text(read.pane_id@)),
            ("workspace_id"@, JsonView::Text(read.workspace_id@)),
            ("tab_id"@, JsonView::Text(read.tab_id@)),
            ("source"@, JsonView::Text(common::source_name(read.source))),
            ("format"@, JsonView::Text(common::format_name(read.format))),
            ("text"@, JsonView::Text(text)),
            ("revision"@, JsonView::Number(text::dec(read.revision as nat))),
            ("truncated"@, JsonView::Bool(truncated)),
        ],
    )
}

/// What the answer holds that shows a read with this text.
pub open spec fn read_answer_view(
    read: PaneReadResult,
    text: Seq<char>,
    truncated: bool,
) -> JsonView {
    results::success_view(results::named_view("read"@, read_view(read, text, truncated)))
}

/// How large that answer is.
pub open spec fn read_size(read: PaneReadResult, text: Seq<char>, truncated: bool) -> Result<
    nat,
    Seq<char>,
> {
    results::tool_result_size(read_answer_view(read, text, truncated), false)
}

fn read_json(read: &PaneReadResult, text: &str, truncated: bool) -> (r: Json)
    ensures
        json::json_view(r) == read_view(*read, text@, truncated),
        json::shallow(r, 1),
{
    let mut o: Vec<(String, Json)> = Vec::new();
    o.push(json::text_field("pane_id", read.pane_id.as_str()));
    o.push(json::text_field("workspace_id", read.workspace_id.as_str()));
    o.push(json::text_field("tab_id", read.tab_id.as_str()));
    o.push(json::text_field("source", read.source.wire_name()));
    o.push(json::text_field("format", read.format.wire_name()));
    o.push(json::text_field("text", text));
    o.push(json::number_field("revision", read.revision));
    o.push(json::field_of("truncated", Json::Bool(truncated)));
    let r = Json::Object(o);
    proof {
        json::lemma_object_view(r, read_view(*read, text@, truncated)->Object_0);
        assert(json::members_shallow(o@, 0));
    }
    r
}

fn read_answer(read: &PaneReadResult, text: &str, truncated: bool) -> (r: ToolResult)
    ensures
        results::answers(r, read_answer_view(*read, text@, truncated)),
        json::shallow(r.value, json::MAX_WRITE_DEPTH as nat),
{
    let shown = read_json(read, text, truncated);
    let data = results::named_value("read", shown);
    let answer = results::success(data);
    proof {
        assert(json::shallow(data, 2));
        json::lemma_shallower(answer.value, 3, json::MAX_WRITE_DEPTH as nat);
    }
    answer
}

/// The answer that shows a read.
pub fn pane_read_tool_result(read: &PaneReadResult) -> (r: ToolResult)
    ensures
        results::answers(r, read_answer_view(*read, read.text@, read.truncated)),
        json::shallow(r.value, json::MAX_WRITE_DEPTH as nat),
{
    read_answer(read, read.text.as_str(), read.truncated)
}

pub open spec fn size_within(size: Result<nat, Seq<char>>, max_bytes: usize) -> bool {
    size matches Ok(n) && n <= max_bytes
}

pub open spec fn size_above(size: Result<nat, Seq<char>>, max_bytes: usize) -> bool {
    size matches Ok(n) && n > max_bytes
}

/// `a` shows the end of a read's text that begins at `k`, and is small enough as a
/// whole.
pub open spec fn shows_end(
    a: ToolResult,
    read: PaneReadResult,
    truncated: bool,
    k: int,
    max_bytes: usize,
) -> bool {
    let end = read::tail(read.text@, k);
    &&& 0 <= k <= read.text@.len()
    &&& results::answers(a, read_answer_view(read, end, truncated))
    &&& size_within(read_size(read, end, truncated), max_bytes)
}

/// The answer with a shorter text is no larger, and can be written.
pub open spec fn shrinks(read: PaneReadResult, truncated: bool) -> bool {
    &&& forall|k: int|
        0 <= k <= read.text@.len() ==> read_size(
            read,
            #[trigger] read::tail(read.text@, k),
            truncated,
        ) is Ok
    &&& forall|i: int, j: int|
        0 <= i <= j <= read.text@.len() ==> read_size(
            read,
            #[trigger] read::tail(read.text@, j),
            truncated,
        )->Ok_0 <= read_size(read, #[trigger] read::tail(read.text@, i), truncated)->Ok_0
}

/// The answer with the longest end of the text for which the whole answer fits into
/// `max_bytes`; none where that with no text at all is too large.
pub fn bounded_text_read_result(read: &PaneReadResult, max_bytes: usize) -> (r: Result<
    Option<ToolResult>,
    BridgeError,
>)
    ensures
        match r {
            Ok(Some(a)) => exists|k: int| #[trigger]
                shows_end(a, *read, read.truncated, k, max_bytes) && (k > 0 ==> size_above(
                    read_size(*read, read::tail(read.text@, k - 1), read.truncated),
                    max_bytes,
                )),
            Ok(None) => size_above(
                read_size(
                    *read,
                    read::tail(read.text@, read.text@.len() as int),
                    read.truncated,
                ),
                max_bytes,
            ),
            Err(e) => exists|t: Seq<char>| #[trigger]
                read_size(*read, t, read.truncated) matches Err(cause) && results::encoding_failed(
                    e,
                    cause,
                ),
        },
{
    let truncated = read.truncated;
    let measure = |t: &str| -> (size: Result<usize, BridgeError>)
        ensures
            results::told_size(size, read_size(*read, t@, truncated)),
        {
            let answer = read_answer(read, t, truncated);
            results::serialized_tool_result_len(&answer)
        };
    match read::longest_fitting_tail(read.text.as_str(), max_bytes, measure) {
        Ok(Some(best)) => {
            let answer = read_answer(read, best.as_str(), truncated);
            proof {
                let whole = read.text@;
                let k = choose|k: int|
                    0 <= k <= whole.len() && best@ == #[trigger] read::tail(whole, k)
                        && read::fits(measure, read::tail(whole, k), max_bytes, true) && (k > 0
                        ==> read::fits(measure, read::tail(whole, k - 1), max_bytes, false));
                assert(shows_end(answer, *read, truncated, k, max_bytes));
            }
            Ok(Some(answer))
        },
        Ok(None) => Ok(None),
        Err(e) => {
            proof {
                let t = choose|t: &str| #[trigger] call_ensures(measure, (t,), Err(e));
                assert(read_size(*read, t@, truncated) is Err);
            }
            Err(e)
        },
    }
}

/// What `herdr_read_pane` answers when it asked for `format` and this was read.
pub open spec fn pane_answered(
    read: PaneReadResult,
    format: ReadFormat,
    max_bytes: usize,
    r: Result<ToolResult, BridgeError>,
) -> bool {
    match read_size(read, read.text@, read.truncated) {
        Err(cause) => r matches Err(e) && results::encoding_failed(e, cause),
        Ok(n) => if n <= max_bytes {
            r matches Ok(a) && results::answers(
                a,
                read_answer_view(read, read.text@, read.truncated),
            )
        } else if format == ReadFormat::Ansi {
            r matches Err(e) && too_large(
                e,
                "ANSI pane output exceeds max_bytes and cannot be safely truncated"@,
                n as usize,
                max_bytes,
            )
        } else {
            match r {
                Ok(a) => exists|k: int| #[trigger]
                    shows_end(a, read, true, k, max_bytes) && (k > 0 ==> size_above(
                        read_size(read, read::tail(read.text@, k - 1), true),
                        max_bytes,
                    ) || text::utf8_len(read::tail(read.text@, k - 1)) > max_bytes),
                Err(e) => too_large(
                    e,
                    "the pane result metadata alone exceeds max_bytes"@,
                    n as usize,
                    max_bytes,
                ) && size_above(
                    read_size(read, read::tail(read.text@, read.text@.len() as int), true),
                    max_bytes,
                ) || exists|t: Seq<char>| #[trigger]
                    read_size(read, t, true) matches Err(cause) && results::encoding_failed(
                        e,
                        cause,
                    ),
            }
        },
    }
}

/// The answer of `herdr_read_pane`: the read, whole where the answer fits into
/// `max_bytes`, else with the longest end of its text for which it does.
pub fn bounded_pane_answer(read: &PaneReadResult, format: ReadFormat, max_bytes: usize) -> (r:
    Result<ToolResult, BridgeError>)
    ensures
        pane_answered(*read, format, max_bytes, r),
{
    let initial = pane_read_tool_result(read);
    let initial_len: usize = match results::serialized_tool_result_len(&initial) {
        Ok(n) => n,
        Err(e) => return Err(e),
    };
    let measure = |t: &str| -> (size: Result<usize, BridgeError>)
        ensures
            results::told_size(size, read_size(*read, t@, true)),
        {
            let answer = read_answer(read, t, true);
            results::serialized_tool_result_len(&answer)
        };
    match bounded_read(read.text.as_str(), format, initial_len, max_bytes, measure) {
        Ok(None) => Ok(initial),
        Ok(Some(best)) => {
            let answer = read_answer(read, best.as_str(), true);
            proof {
                let whole = read.text@;
                let k = choose|k: int|
                    0 <= k <= whole.len() && best@ == #[trigger] read::tail(whole, k)
                        && read::fits(measure, read::tail(whole, k), max_bytes, true) && (k > 0
                        ==> read::fits(measure, read::tail(whole, k - 1), max_bytes, false)
                        || text::utf8_len(read::tail(whole, k - 1)) > max_bytes);
                assert(shows_end(answer, *read, true, k, max_bytes));
            }
            Ok(answer)
        },
        Err(e) => {
            proof {
                if exists|t: &str| #[trigger] call_ensures(measure, (t,), Err(e)) {
                    let t = choose|t: &str| #[trigger] call_ensures(measure, (t,), Err(e));
                    assert(read_size(*read, t@, true) is Err);
                }
            }
            Err(e)
        },
    }
}

/// Where an answer is no larger for a shorter text, the end that is shown is the
/// longest for which the whole answer fits.
pub proof fn lemma_longest_end_is_shown(
    a: ToolResult,
    read: PaneReadResult,
    truncated: bool,
    k: int,
    j: int,
    max_bytes: usize,
)
    requires
        shrinks(read, truncated),
        shows_end(a, read, truncated, k, max_bytes),
        k > 0 ==> size_above(
            read_size(read, read::tail(read.text@, k - 1), truncated),
            max_bytes,
        ),
        0 <= j < k,
    ensures
        size_above(read_size(read, read::tail(read.text@, j), truncated), max_bytes),
{
    let shorter = read::tail(read.text@, k - 1);
    let longer = read::tail(read.text@, j);
    assert(read_size(read, shorter, truncated)->Ok_0 <= read_size(read, longer, truncated)->Ok_0);
}

proof fn lemma_tails(whole: Seq<char>, cut: Seq<char>, k0: int)
    requires
        0 <= k0 <= whole.len(),
        cut == read::tail(whole, k0),
    ensures
        forall|k: int|
            0 <= k <= cut.len() ==> #[trigger] read::tail(cut, k) == read::tail(whole, k0 + k),
{
    assert forall|k: int| 0 <= k <= cut.len() implies #[trigger] read::tail(cut, k) == read::tail(
        whole,
        k0 + k,
    ) by {
        assert(read::tail(cut, k) =~= read::tail(whole, k0 + k));
    }
}

proof fn lemma_measures_tail<F: Fn(&str) -> Result<usize, BridgeError>>(
    measure: F,
    size: spec_fn(Seq<char>) -> nat,
    whole: Seq<char>,
    cut: Seq<char>,
    k0: int,
)
    requires
        0 <= k0 <= whole.len(),
        cut == read::tail(whole, k0),
        read::measures(measure, size, whole),
    ensures
        read::measures(measure, size, cut),
{
    lemma_tails(whole, cut, k0);
    assert forall|i: int, j: int| 0 <= i <= j <= cut.len() implies size(
        #[trigger] read::tail(cut, j),
    ) <= size(#[trigger] read::tail(cut, i)) by {
        assert(size(read::tail(whole, k0 + j)) <= size(read::tail(whole, k0 + i)));
    }
}

// ---------------------------------------------------------------------------
// Messages

/// A message as a tool shows it.
pub open spec fn message_view(m: QueuedMessage) -> JsonView {
    JsonView::Object(
        seq![
            ("id"@, JsonView::Text(m.message_id@)),
            ("sequence"@, JsonView::Number(text::dec(m.sequence as nat))),
            ("cli_id"@, JsonView::Text(m.cli_id@)),
            ("created_at_unix_ms"@, JsonView::Number(text::dec(m.created_at_unix_ms as nat))),
            ("kind"@, JsonView::Text(m.kind@)),
            ("correlation_id"@, json::opt_text_view(text::opt_view(m.correlation_id))),
            ("text"@, JsonView::Text(m.text@)),
        ],
    )
}

pub open spec fn messages_view(messages: Seq<QueuedMessage>) -> Seq<JsonView> {
    messages.map_values(|m: QueuedMessage| message_view(m))
}

/// A lease with its messages, as a tool shows it.
pub open spec fn drain_view(d: DrainResult) -> JsonView {
    JsonView::Object(
        seq![
            ("lease_id"@, JsonView::Text(d.lease_id@)),
            (
                "lease_expires_at_unix_ms"@,
                JsonView::Number(text::dec(d.lease_expires_at_unix_ms as nat)),
            ),
            ("messages"@, JsonView::Array(messages_view(d.messages@))),
            ("remaining"@, JsonView::Number(text::dec(d.remaining as nat))),
            ("quarantined"@, JsonView::Number(text::dec(d.quarantined as nat))),
        ],
    )
}

fn message_json(m: &QueuedMessage) -> (r: Json)
    ensures
        json::json_view(r) == message_view(*m),
        json::shallow(r, 1),
{
    let mut o: Vec<(String, Json)> = Vec::new();
    o.push(json::text_field("id", m.message_id.as_str()));
    o.push(json::number_field("sequence", m.sequence));
    o.push(json::text_field("cli_id", m.cli_id.as_str()));
    o.push(json::number_field("created_at_unix_ms", m.created_at_unix_ms));
    o.push(json::text_field("kind", m.kind.as_str()));
    o.push(json::opt_text_field("correlation_id", &m.correlation_id));
    o.push(json::text_field("text", m.text.as_str()));
    let r = Json::Object(o);
    proof {
        json::lemma_object_view(r, message_view(*m)->Object_0);
        assert(json::members_shallow(o@, 0));
    }
    r
}

fn messages_json(messages: &Vec<QueuedMessage>) -> (r: Json)
    ensures
        json::json_view(r) == JsonView::Array(messages_view(messages@)),
        json::shallow(r, 2),
{
    let mut a: Vec<Json> = Vec::new();
    let mut i: usize = 0;
    while i < messages.len()
        invariant
            i <= messages@.len(),
            a@.len() == i,
            forall|k: int|
                0 <= k < i ==> json::json_view(#[trigger] a@[k]) == message_view(messages@[k])
                    && json::shallow(a@[k], 1),
        decreases messages@.len() - i,
    {
        a.push(message_json(&messages[i]));
        i += 1;
    }
    let r = Json::Array(a);
    proof {
        json::lemma_array_view(r, messages_view(messages@));
    }
    r
}

/// The answer of `herdr_drain_messages`.
pub fn drain_tool_result(drain: &DrainResult) -> (r: Json)
    ensures
        json::json_view(r) == drain_view(*drain),
        json::shallow(r, 3),
{
    let mut o: Vec<(String, Json)> = Vec::new();
    o.push(json::text_field("lease_id", drain.lease_id.as_str()));
    o.push(json::number_field("lease_expires_at_unix_ms", drain.lease_expires_at_unix_ms));
    o.push(json::field_of("messages", messages_json(&drain.messages)));
    o.push(json::number_field("remaining", drain.remaining as u64));
    o.push(json::number_field("quarantined", drain.quarantined as u64));
    let r = Json::Object(o);
    proof {
        json::lemma_object_view(r, drain_view(*drain)->Object_0);
        assert(json::members_shallow(o@, 2));
    }
    r
}

/// The answer of `herdr_ack_messages`.
pub fn ack_tool_result(ack: &AckResult) -> (r: Json)
    ensures
        r matches Json::Object(o) && o@.len() == 3 && json::is_text_field(
            o@[0],
            "lease_id"@,
            ack.lease_id@,
        ) && json::is_field(o@[1], "already_acked"@, Json::Bool(ack.already_acked))
            && json::is_number_field(o@[2], "deleted"@, ack.deleted as nat),
{
    let mut o: Vec<(String, Json)> = Vec::new();
    o.push(json::text_field("lease_id", ack.lease_id.as_str()));
    o.push(json::field_of("already_acked", Json::Bool(ack.already_acked)));
    o.push(json::number_field("deleted", ack.deleted as u64));
    Json::Object(o)
}

// ---------------------------------------------------------------------------
// CLIs and health

/// The answer of `herdr_launch_cli`.
pub fn launch_tool_result(identity: &CliIdentity) -> (r: Json)
    ensures
        r matches Json::Object(o) && o@.len() == 7 && json::is_text_field(
            o@[0],
            "cli_id"@,
            identity.cli_id@,
        ) && json::is_text_field(o@[1], "pane_id"@, identity.pane_id@) && json::is_text_field(
            o@[2],
            "terminal_id"@,
            identity.terminal_id@,
        ) && json::is_text_field(o@[3], "workspace_id"@, identity.workspace_id@)
            && json::is_text_field(o@[4], "tab_id"@, identity.tab_id@) && json::is_text_field(
            o@[5],
            "name"@,
            identity.name@,
        ) && json::is_text_field(o@[6], "cwd"@, identity.cwd@),
{
    let mut o: Vec<(String, Json)> = Vec::new();
    o.push(json::text_field("cli_id", identity.cli_id.as_str()));
    o.push(json::text_field("pane_id", identity.pane_id.as_str()));
    o.push(json::text_field("terminal_id", identity.terminal_id.as_str()));
    o.push(json::text_field("workspace_id", identity.workspace_id.as_str()));
    o.push(json::text_field("tab_id", identity.tab_id.as_str()));
    o.push(json::text_field("name", identity.name.as_str()));
    o.push(json::text_field("cwd", identity.cwd.as_str()));
    Json::Object(o)
}

/// What the bridge is.
pub struct BridgeFacts {
    pub mcp_version: String,
    pub queue_schema: u32,
    pub session: String,
    pub access_mode: AccessMode,
    pub binary_version: String,
}

/// The server that answered a ping.
pub struct ServerVersion {
    pub version: String,
    pub protocol: u32,
}

pub open spec fn access_name(mode: AccessMode) -> Seq<char> {
    match mode {
        AccessMode::Restricted => "restricted"@,
        AccessMode::FullControl => "full_control"@,
    }
}

pub open spec fn tells_facts(o: Seq<(String, Json)>, b: BridgeFacts) -> bool {
    json::is_text_field(o[0], "mcp_version"@, b.mcp_version@) && json::is_number_field(
        o[1],
        "queue_schema"@,
        b.queue_schema as nat,
    ) && json::is_text_field(o[2], "selected_session"@, b.session@) && json::is_text_field(
        o[3],
        "access_mode"@,
        access_name(b.access_mode),
    ) && json::is_text_field(o[4], "binary_version"@, b.binary_version@) && json::is_number_field(
        o[5],
        "required_protocol"@,
        REQUIRED_PROTOCOL as nat,
    )
}

pub open spec fn tells_error(v: Json, e: BridgeError) -> bool {
    v matches Json::Object(o) && o@.len() == 3 && json::is_text_field(o@[0], "code"@, e.code@)
        && json::is_text_field(o@[1], "message"@, e.message@) && json::is_field(
        o@[2],
        "retryable"@,
        Json::Bool(e.retryable),
    )
}

/// The answer of `herdr_health`: what the bridge is, and whether the server is
/// there and speaks the same protocol.
pub open spec fn tells_health(
    v: Json,
    b: BridgeFacts,
    ping: Result<ServerVersion, BridgeError>,
) -> bool {
    v matches Json::Object(o) && tells_facts(o@, b) && match ping {
        Ok(status) => o@.len() == 10 && json::is_field(o@[6], "herdr_available"@, Json::Bool(true))
            && json::is_text_field(
            o@[7],
            "herdr_status"@,
            if status.protocol == REQUIRED_PROTOCOL {
                "available"@
            } else {
                "incompatible"@
            },
        ) && json::is_text_field(o@[8], "herdr_version"@, status.version@)
            && json::is_number_field(o@[9], "herdr_protocol"@, status.protocol as nat),
        Err(err) => o@.len() == 9 && json::is_field(
            o@[6],
            "herdr_available"@,
            Json::Bool(false),
        ) && json::is_text_field(o@[7], "herdr_status"@, "unavailable"@) && o@[8].0@
            == "availability_error"@ && tells_error(o@[8].1, err),
    }
}

fn error_json(e: &BridgeError) -> (r: Json)
    ensures
        tells_error(r, *e),
{
    let mut o: Vec<(String, Json)> = Vec::new();
    o.push(json::text_field("code", e.code.as_str()));
    o.push(json::text_field("message", e.message.as_str()));
    o.push(json::field_of("retryable", Json::Bool(e.retryable)));
    Json::Object(o)
}

pub fn herdr_health(bridge: &BridgeFacts, ping: &Result<ServerVersion, BridgeError>) -> (r: Json)
    ensures
        tells_health(r, *bridge, *ping),
{
    let mut o: Vec<(String, Json)> = Vec::new();
    o.push(json::text_field("mcp_version", bridge.mcp_version.as_str()));
    o.push(json::number_field("queue_schema", bridge.queue_schema as u64));
    o.push(json::text_field("selected_session", bridge.session.as_str()));
    o.push(json::text_field("access_mode", bridge.access_mode.wire_name()));
    o.push(json::text_field("binary_version", bridge.binary_version.as_str()));
    o.push(json::number_field("required_protocol", REQUIRED_PROTOCOL as u64));
    match ping {
        Ok(status) => {
            o.push(json::field_of("herdr_available", Json::Bool(true)));
            let word = if status.protocol == REQUIRED_PROTOCOL {
                "available"
            } else {
                "incompatible"
            };
            o.push(json::text_field("herdr_status", word));
            o.push(json::text_field("herdr_version", status.version.as_str()));
            o.push(json::number_field("herdr_protocol", status.protocol as u64));
        },
        Err(err) => {
            o.push(json::field_of("herdr_available", Json::Bool(false)));
            o.push(json::text_field("herdr_status", "unavailable"));
            o.push(json::field_of("availability_error", error_json(err)));
        },
    }
    Json::Object(o)
}

} // verus!
