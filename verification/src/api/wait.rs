//! Waiting for output and for events.

use vstd::prelude::*;
use vstd::string::*;

use super::schema::common::{
    AgentStatus, ErrorResponse, EventMatch, OutputMatch, PaneReadParams, PaneReadResult,
    PaneWaitForOutputParams, ReadFormat, ReadSource, Subscription,
};
use crate::json::{self, Json};
use crate::text;

verus! {

pub const MAX_EVENT_WAIT_AGENT_STATUSES: usize = 5;

/// Why a regular expression does not compile, if it does not.
pub uninterp spec fn regex_error(pattern: Seq<char>) -> Option<Seq<char>>;

/// Whether a regular expression matches somewhere in a text.
pub uninterp spec fn regex_found(pattern: Seq<char>, text: Seq<char>) -> bool;

/// `regex::Regex::new` compiles a pattern. The contract names the text of its
/// error.
#[verifier::external_body]
pub(crate) fn pattern_error(pattern: &str) -> (r: Option<String>)
    ensures
        text::opt_view(r) == regex_error(pattern@),
{
    match regex::Regex::new(pattern) {
        Ok(_) => None,
        Err(err) => Some(err.to_string()),
    }
}

/// `regex::Regex::is_match` looks for a match anywhere in a text. The contract
/// names its result, for a pattern that compiles.
#[verifier::external_body]
pub(crate) fn is_match(pattern: &str, text: &str) -> (r: bool)
    requires
        regex_error(pattern@) is None,
    ensures
        r == regex_found(pattern@, text@),
{
    match regex::Regex::new(pattern) {
        Ok(regex) => regex.is_match(text),
        Err(_) => false,
    }
}

pub open spec fn compiles(m: OutputMatch) -> bool {
    m matches OutputMatch::Regex { value } ==> regex_error(value@) is None
}

/// The line satisfies the match.
pub open spec fn line_matches(m: OutputMatch, line: Seq<char>) -> bool {
    match m {
        OutputMatch::Substring { value } => text::has_substring(line, value@),
        OutputMatch::Regex { value } => regex_found(value@, line),
    }
}

/// `s` holds no line break.
pub open spec fn unbroken(s: Seq<char>) -> bool {
    forall|i: int| 0 <= i < s.len() ==> #[trigger] s[i] != '\n'
}

/// A line without the carriage return before its line break.
pub open spec fn line_text(s: Seq<char>) -> Seq<char> {
    if s.len() > 0 && s.last() == '\r' {
        s.drop_last()
    } else {
        s
    }
}

/// The lines of a text, as they stand between line breaks. A line break at the
/// very end begins no line.
pub open spec fn lines_of(s: Seq<char>) -> Seq<Seq<char>>
    decreases s.len(),
{
    if s.len() == 0 {
        Seq::empty()
    } else if exists|i: int| is_first_break(s, i) {
        let i = choose|i: int| is_first_break(s, i);
        if 0 <= i < s.len() {
            seq![line_text(s.take(i))] + lines_of(s.skip(i + 1))
        } else {
            Seq::empty()
        }
    } else {
        seq![s]
    }
}

pub open spec fn is_first_break(s: Seq<char>, i: int) -> bool {
    0 <= i < s.len() && s[i] == '\n' && unbroken(s.take(i))
}

/// The first line that satisfies the match.
pub open spec fn is_first_match(lines: Seq<Seq<char>>, m: OutputMatch, k: int) -> bool {
    0 <= k < lines.len() && line_matches(m, lines[k]) && forall|j: int|
        0 <= j < k ==> !line_matches(m, #[trigger] lines[j])
}

fn matches_line(m: &OutputMatch, line: &str) -> (r: bool)
    requires
        compiles(*m),
    ensures
        r == line_matches(*m, line@),
{
    match m {
        OutputMatch::Substring { value } => text::contains_str(line, value.as_str()),
        OutputMatch::Regex { value } => is_match(value.as_str(), line),
    }
}

fn next_break(v: &Vec<char>, from: usize) -> (r: Option<usize>)
    requires
        from <= v@.len(),
    ensures
        match r {
            Some(i) => from <= i < v@.len() && is_first_break(v@.skip(from as int), i - from),
            None => unbroken(v@.skip(from as int)),
        },
{
    let mut i: usize = from;
    while i < v.len()
        invariant
            from <= i <= v@.len(),
            forall|j: int| from <= j < i ==> v@[j] != '\n',
        decreases v@.len() - i,
    {
        if v[i] == '\n' {
            assert(unbroken(v@.skip(from as int).take(i - from)));
            return Some(i);
        }
        i += 1;
    }
    None
}

proof fn lemma_break_unique(s: Seq<char>, i: int, j: int)
    requires
        is_first_break(s, i),
        is_first_break(s, j),
    ensures
        i == j,
{
    if i < j {
        assert(s.take(j)[i] == '\n');
    } else if j < i {
        assert(s.take(i)[j] == '\n');
    }
}

/// The first line of `text` that satisfies the match.
pub fn match_output(text: &str, m: &OutputMatch) -> (r: Option<String>)
    requires
        compiles(*m),
    ensures
        match r {
            Some(line) => exists|k: int|
                #[trigger] is_first_match(lines_of(text@), *m, k) && lines_of(text@)[k] == line@,
            None => forall|k: int|
                0 <= k < lines_of(text@).len() ==> !line_matches(
                    *m,
                    #[trigger] lines_of(text@)[k],
                ),
        },
{
    let v = text::chars_of(text);
    let n: usize = v.len();
    let ghost all = lines_of(text@);
    let ghost mut seen: int = 0;
    let mut from: usize = 0;
    assert(text@.skip(0) =~= text@);
    assert(all.skip(0) =~= all);
    while from < n
        invariant
            from <= n == v@.len(),
            v@ == text@,
            compiles(*m),
            all == lines_of(text@),
            0 <= seen <= all.len(),
            all.skip(seen) == lines_of(text@.skip(from as int)),
            forall|k: int| 0 <= k < seen ==> !line_matches(*m, #[trigger] all[k]),
        decreases n - from,
    {
        let ghost rest = text@.skip(from as int);
        let found = next_break(&v, from);
        let end: usize = match found {
            Some(i) => i,
            None => n,
        };
        let mut stop: usize = end;
        if found.is_some() && end > from && v[end - 1] == '\r' {
            stop = end - 1;
        }
        let line = text::string_of(&v, from, stop);
        proof {
            match found {
                Some(i) => {
                    let k = choose|k: int| is_first_break(rest, k);
                    assert(is_first_break(rest, i - from));
                    lemma_break_unique(rest, k, i - from);
                    assert(line@ =~= line_text(rest.take(i - from)));
                    assert(rest.skip(i - from + 1) =~= text@.skip(i + 1));
                    assert(all.skip(seen) == seq![line@] + lines_of(text@.skip(i + 1)));
                    assert(all.skip(seen + 1) =~= all.skip(seen).skip(1));
                    assert(all.skip(seen + 1) =~= lines_of(text@.skip(i + 1)));
                },
                None => {
                    assert forall|k: int| !is_first_break(rest, k) by {}
                    assert(line@ =~= rest);
                    assert(all.skip(seen) == seq![line@]);
                },
            }
            assert(all.skip(seen)[0] == all[seen]);
            assert(all[seen] == line@);
        }
        if matches_line(m, line.as_str()) {
            assert(is_first_match(all, *m, seen));
            return Some(line);
        }
        proof {
            seen = seen + 1;
        }
        match found {
            Some(i) => {
                from = i + 1;
            },
            None => {
                assert(all.skip(seen - 1).len() == 1);
                return None;
            },
        }
    }
    assert(text@.skip(n as int) =~= Seq::<char>::empty());
    assert(all.skip(seen).len() == 0);
    None
}

/// How one look at the pane ends.
pub enum OutputWait {
    /// The match was found.
    Matched { read: PaneReadResult, matched_line: String },
    /// The wait is over without a match.
    Failed(ErrorResponse),
    /// The reply is the answer, as it came.
    Passed(String),
    /// The error reply is the answer, under the waiter's own request, once it is
    /// written.
    Refused(Json),
    /// Nothing yet; look again after a pause.
    Pending,
}

/// What came back when the pane was to be read.
pub enum PaneReply {
    /// Something that is not JSON.
    Text(String),
    /// JSON, with the read at `result.read` where there is one that can be
    /// decoded.
    Value { value: Json, read: Option<PaneReadResult> },
}

/// `after` is `before` with a text as its member `id`, and otherwise the same.
pub open spec fn readdressed(before: Json, after: Json, id: Seq<char>) -> bool {
    &&& after is Object
    &&& json::member_at(after, "id"@) matches Some(v) && json::as_text(v) == Some(id)
    &&& forall|name: Seq<char>|
        name != "id"@ ==> #[trigger] json::member_at(after, name) == json::member_at(before, name)
}

/// Puts an id into a value that has members.
fn readdress(value: Json, id: &str) -> (r: Json)
    requires
        value is Object,
    ensures
        readdressed(value, r, id@),
        forall|depth: nat| #[trigger] json::shallow(value, depth) ==> json::shallow(r, depth),
{
    match value {
        Json::Object(members) => {
            let mut members = members;
            let ghost before = members@;
            json::put_member(&mut members, "id".to_string(), Json::Text(id.to_string()));
            assert forall|depth: nat| #[trigger] json::shallow(value, depth) implies json::shallow(
                Json::Object(members),
                depth,
            ) by {
                assert(json::members_shallow(before, (depth - 1) as nat));
            }
            Json::Object(members)
        },
        other => other,
    }
}

/// What is wrong with a wait before it begins.
pub fn begin_output_wait(request_id: &str, params: &PaneWaitForOutputParams) -> (r: Result<
    (),
    ErrorResponse,
>)
    ensures
        r is Ok == compiles(params.matcher),
        r matches Err(e) ==> params.matcher matches OutputMatch::Regex { value }
            && super::schema::common::is_error(
            e,
            request_id@,
            "invalid_regex"@,
            regex_error(value@)->0,
        ),
{
    match &params.matcher {
        OutputMatch::Regex { value } => match pattern_error(value.as_str()) {
            Some(message) => Err(
                ErrorResponse::new(request_id, "invalid_regex", message.as_str()),
            ),
            None => Ok(()),
        },
        OutputMatch::Substring { value: _ } => Ok(()),
    }
}

/// The read that a wait repeats: as text, from where matches are looked for.
pub fn output_wait_read(params: &PaneWaitForOutputParams, source: ReadSource) -> (r: PaneReadParams)
    ensures
        r == (PaneReadParams {
            pane_id: params.pane_id,
            source,
            lines: params.lines,
            format: ReadFormat::Text,
            strip_ansi: params.strip_ansi,
        }),
{
    PaneReadParams {
        pane_id: params.pane_id.clone(),
        source,
        lines: params.lines,
        format: ReadFormat::Text,
        strip_ansi: params.strip_ansi,
    }
}

pub open spec fn expired(deadline_ms: Option<u64>, now_ms: u64) -> bool {
    deadline_ms matches Some(d) && now_ms >= d
}

/// No line of the read satisfies the match.
pub open spec fn no_line_matches(text: Seq<char>, m: OutputMatch) -> bool {
    forall|k: int| 0 <= k < lines_of(text).len() ==> !line_matches(m, #[trigger] lines_of(text)[k])
}

/// What a read of the pane makes of the wait.
pub open spec fn looked_at(
    request_id: Seq<char>,
    m: OutputMatch,
    read: PaneReadResult,
    deadline_ms: Option<u64>,
    now_ms: u64,
    next: OutputWait,
) -> bool {
    if no_line_matches(read.text@, m) {
        if expired(deadline_ms, now_ms) {
            next matches OutputWait::Failed(e) && super::schema::common::is_error(
                e,
                request_id,
                "timeout"@,
                "timed out waiting for output match"@,
            )
        } else {
            next is Pending
        }
    } else {
        next matches OutputWait::Matched { read: shown, matched_line } && shown == read && exists|
            k: int,
        | #[trigger]
            is_first_match(lines_of(read.text@), m, k) && lines_of(read.text@)[k] == matched_line@
    }
}

/// What a reply that was read makes of the wait: a pattern that does not compile ends
/// it, and so does a reply that is not JSON, as it came. An error reply ends it as it
/// is but for the id, which is the waiter's own; a match ends it with the line; a
/// passed deadline ends it without.
pub fn look_at_reply(
    request_id: &str,
    params: &PaneWaitForOutputParams,
    reply: PaneReply,
    deadline_ms: Option<u64>,
    now_ms: u64,
) -> (next: OutputWait)
    ensures
        !compiles(params.matcher) ==> (next matches OutputWait::Failed(e)
            && super::schema::common::is_error(
            e,
            request_id@,
            "invalid_regex"@,
            regex_error(params.matcher->Regex_value@)->0,
        )),
        compiles(params.matcher) ==> match reply {
            PaneReply::Text(text) => next == OutputWait::Passed(text),
            PaneReply::Value { value, read } => if json::has(value, "error"@) {
                next matches OutputWait::Refused(v) && readdressed(value, v, request_id@)
            } else {
                match read {
                    None => next matches OutputWait::Failed(e) && super::schema::common::is_error(
                        e,
                        request_id@,
                        "internal_error"@,
                        "failed to decode pane read result"@,
                    ),
                    Some(read) => looked_at(
                        request_id@,
                        params.matcher,
                        read,
                        deadline_ms,
                        now_ms,
                        next,
                    ),
                }
            },
        },
        next matches OutputWait::Refused(v) ==> (reply matches PaneReply::Value { value, .. }
            && forall|depth: nat| #[trigger]
            json::shallow(value, depth) ==> json::shallow(v, depth)),
{
    match begin_output_wait(request_id, params) {
        Ok(()) => {},
        Err(e) => return OutputWait::Failed(e),
    }
    let (value, read) = match reply {
        PaneReply::Text(text) => return OutputWait::Passed(text),
        PaneReply::Value { value, read } => (value, read),
    };
    if value.get("error").is_some() {
        return OutputWait::Refused(readdress(value, request_id));
    }
    let read = match read {
        Some(read) => read,
        None => {
            return OutputWait::Failed(
                ErrorResponse::new(
                    request_id,
                    "internal_error",
                    "failed to decode pane read result",
                ),
            );
        },
    };
    match match_output(read.text.as_str(), &params.matcher) {
        Some(matched_line) => OutputWait::Matched { read, matched_line },
        None => {
            let over = match deadline_ms {
                Some(d) => now_ms >= d,
                None => false,
            };
            if over {
                OutputWait::Failed(
                    ErrorResponse::new(
                        request_id,
                        "timeout",
                        "timed out waiting for output match",
                    ),
                )
            } else {
                OutputWait::Pending
            }
        },
    }
}

/// One look at the pane. `reply` is the text that came back, and `read` what its
/// `result.read` decodes to, where it does. A reply that is not JSON ends the wait as
/// it came; an error reply ends it too, written anew under the waiter's own id.
pub fn wait_for_output(
    request_id: &str,
    params: &PaneWaitForOutputParams,
    reply: String,
    read: Option<PaneReadResult>,
    deadline_ms: Option<u64>,
    now_ms: u64,
) -> (next: OutputWait)
    ensures
        !compiles(params.matcher) ==> (next matches OutputWait::Failed(e)
            && super::schema::common::is_error(
            e,
            request_id@,
            "invalid_regex"@,
            regex_error(params.matcher->Regex_value@)->0,
        )),
        compiles(params.matcher) ==> match json::json_document(reply@) {
            Err(_) => next == OutputWait::Passed(reply),
            Ok(d) => exists|value: Json| #[trigger]
                json::json_view(value) == d && if json::has(value, "error"@) {
                    exists|v: Json|
                        readdressed(value, v, request_id@) && (next matches OutputWait::Passed(s)
                            && s@ == #[trigger] json::json_text(json::json_view(v)))
                } else {
                    match read {
                        None => next matches OutputWait::Failed(e)
                            && super::schema::common::is_error(
                            e,
                            request_id@,
                            "internal_error"@,
                            "failed to decode pane read result"@,
                        ),
                        Some(read) => looked_at(
                            request_id@,
                            params.matcher,
                            read,
                            deadline_ms,
                            now_ms,
                            next,
                        ),
                    }
                },
        },
{
    let value = match json::read_json(reply.as_str()) {
        Ok(value) => value,
        Err(_) => return look_at_reply(
            request_id,
            params,
            PaneReply::Text(reply),
            deadline_ms,
            now_ms,
        ),
    };
    assert(json::json_document(reply@) == Ok::<json::JsonView, Seq<char>>(
        json::json_view(value),
    ));
    assert(json::shallow(value, json::MAX_READ_DEPTH as nat));
    match look_at_reply(request_id, params, PaneReply::Value { value, read }, deadline_ms, now_ms) {
        OutputWait::Refused(v) => {
            proof {
                json::lemma_shallower(
                    v,
                    json::MAX_READ_DEPTH as nat,
                    json::MAX_WRITE_DEPTH as nat,
                );
            }
            OutputWait::Passed(json::write_json(&v))
        },
        next => next,
    }
}

/// What follows one look at the subscriptions of an event wait.
pub fn wait_for_event(
    request_id: &str,
    matched: bool,
    deadline_ms: Option<u64>,
    now_ms: u64,
) -> (r: Option<Result<(), ErrorResponse>>)
    ensures
        if matched {
            r == Some(Ok::<(), ErrorResponse>(()))
        } else if expired(deadline_ms, now_ms) {
            r matches Some(Err(e)) && super::schema::common::is_error(
                e,
                request_id@,
                "timeout"@,
                "timed out waiting for event match"@,
            )
        } else {
            r is None
        },
{
    if matched {
        return Some(Ok(()));
    }
    let over = match deadline_ms {
        Some(d) => now_ms >= d,
        None => false,
    };
    if over {
        return Some(
            Err(ErrorResponse::new(request_id, "timeout", "timed out waiting for event match")),
        );
    }
    None
}

/// `t` lists each status of `s` once, in the order of first occurrence.
pub open spec fn deduplicated(s: Seq<AgentStatus>) -> Seq<AgentStatus>
    decreases s.len(),
{
    if s.len() == 0 {
        s
    } else {
        let rest = deduplicated(s.drop_last());
        if rest.contains(s.last()) {
            rest
        } else {
            rest.push(s.last())
        }
    }
}

/// Deduplication keeps every status and repeats none.
pub proof fn lemma_deduplicated(s: Seq<AgentStatus>)
    ensures
        deduplicated(s).no_duplicates(),
        forall|x: AgentStatus| deduplicated(s).contains(x) <==> s.contains(x),
        deduplicated(s).len() <= s.len(),
        s.len() > 0 ==> deduplicated(s).len() > 0,
    decreases s.len(),
{
    if s.len() > 0 {
        let front = s.drop_last();
        lemma_deduplicated(front);
        let rest = deduplicated(front);
        assert forall|x: AgentStatus| deduplicated(s).contains(x) <==> s.contains(x) by {
            if s.contains(x) {
                let i = s.index_of(x);
                if i < front.len() {
                    assert(front[i] == x);
                    assert(front.contains(x));
                    let k = rest.index_of(x);
                    assert(deduplicated(s)[k] == x);
                } else if !rest.contains(x) {
                    assert(deduplicated(s).last() == x);
                }
            }
            if deduplicated(s).contains(x) {
                let k = deduplicated(s).index_of(x);
                if k < rest.len() {
                    assert(rest[k] == x);
                    assert(rest.contains(x));
                    assert(front.contains(x));
                    assert(s[front.index_of(x)] == x);
                } else {
                    assert(s.last() == x);
                }
            }
        }
    }
}

/// Deduplicating twice changes nothing more.
pub proof fn lemma_deduplicated_idempotent(s: Seq<AgentStatus>)
    ensures
        deduplicated(deduplicated(s)) == deduplicated(s),
{
    lemma_deduplicated(s);
    lemma_distinct_unchanged(deduplicated(s));
}

proof fn lemma_distinct_unchanged(s: Seq<AgentStatus>)
    requires
        s.no_duplicates(),
    ensures
        deduplicated(s) == s,
    decreases s.len(),
{
    if s.len() > 0 {
        let front = s.drop_last();
        assert(front.no_duplicates());
        lemma_distinct_unchanged(front);
        if front.contains(s.last()) {
            let i = front.index_of(s.last());
            assert(s[i] == s[s.len() - 1]);
        }
        assert(front.push(s.last()) =~= s);
    }
}

pub open spec fn status_subscription(s: Subscription, pane_id: Seq<char>, status: AgentStatus) -> bool {
    s matches Subscription::PaneAgentStatusChanged { pane_id: p, agent_status } && p@ == pane_id
        && agent_status == Some(status)
}

/// One subscription for each status, in order.
pub open spec fn subscribes_to(
    subs: Seq<Subscription>,
    pane_id: Seq<char>,
    statuses: Seq<AgentStatus>,
) -> bool {
    subs.len() == statuses.len() && forall|i: int|
        0 <= i < subs.len() ==> status_subscription(#[trigger] subs[i], pane_id, statuses[i])
}

fn contains_status(v: &Vec<AgentStatus>, s: AgentStatus) -> (r: bool)
    ensures
        r == v@.contains(s),
{
    let mut i: usize = 0;
    while i < v.len()
        invariant
            i <= v@.len(),
            forall|j: int| 0 <= j < i ==> v@[j] != s,
        decreases v@.len() - i,
    {
        if v[i] == s {
            assert(v@[i as int] == s);
            return true;
        }
        i += 1;
    }
    false
}

fn unsupported_match(request_id: &str) -> (e: ErrorResponse)
    ensures
        super::schema::common::is_error(
            e,
            request_id@,
            "unsupported_event_wait_match"@,
            "events.wait currently supports pane agent status matches"@,
        ),
{
    ErrorResponse::new(
        request_id,
        "unsupported_event_wait_match",
        "events.wait currently supports pane agent status matches",
    )
}

/// A change of an agent's status, as a waiter is told of it.
#[derive(Debug)]
pub struct StatusChange {
    pub pane_id: String,
    pub workspace_id: String,
    pub agent_status: AgentStatus,
    pub agent: Option<String>,
    pub title: Option<String>,
    pub display_agent: Option<String>,
    pub custom_status: Option<String>,
    pub state_labels: Vec<(String, String)>,
}

/// The event that ended a wait.
#[derive(Debug)]
pub enum MatchedEvent {
    StatusChanged(StatusChange),
    /// Any other kind of event.
    Other,
    Undecodable,
}

/// The answer to a wait that an event ended: the change itself, all of it.
pub fn wait_matched_response(request_id: &str, event: MatchedEvent) -> (r: Result<
    StatusChange,
    ErrorResponse,
>)
    ensures
        match event {
            MatchedEvent::StatusChanged(change) => r == Ok::<StatusChange, ErrorResponse>(change),
            MatchedEvent::Other => r matches Err(e) && super::schema::common::is_error(
                e,
                request_id@,
                "unsupported_event_wait_match"@,
                "events.wait currently supports pane agent status matches"@,
            ),
            MatchedEvent::Undecodable => r matches Err(e) && super::schema::common::is_error(
                e,
                request_id@,
                "internal_error"@,
                "failed to decode matched event"@,
            ),
        },
{
    match event {
        MatchedEvent::StatusChanged(change) => Ok(change),
        MatchedEvent::Other => Err(unsupported_match(request_id)),
        MatchedEvent::Undecodable => Err(
            ErrorResponse::new(request_id, "internal_error", "failed to decode matched event"),
        ),
    }
}

/// What an event wait listens to, or why it cannot.
pub open spec fn subscribed(
    request_id: Seq<char>,
    match_event: EventMatch,
    r: Result<Vec<Subscription>, ErrorResponse>,
) -> bool {
    match match_event {
        EventMatch::PaneAgentStatusChanged { pane_id, agent_status } => r matches Ok(subs)
            && subscribes_to(subs@, pane_id@, seq![agent_status]),
        EventMatch::PaneAgentStatusChangedAny { pane_id, agent_statuses } =>
            if agent_statuses@.len() == 0 {
            r matches Err(e) && super::schema::common::is_error(
                e,
                request_id,
                "invalid_event_wait_match"@,
                "agent_statuses must contain at least one status"@,
            )
        } else if agent_statuses@.len() > MAX_EVENT_WAIT_AGENT_STATUSES {
            r matches Err(e) && super::schema::common::is_error(
                e,
                request_id,
                "invalid_event_wait_match"@,
                "agent_statuses cannot contain more than 5 statuses"@,
            )
        } else {
            r matches Ok(subs) && subscribes_to(
                subs@,
                pane_id@,
                deduplicated(agent_statuses@),
            )
        },
        EventMatch::Other(_) => r matches Err(e) && super::schema::common::is_error(
            e,
            request_id,
            "unsupported_event_wait_match"@,
            "events.wait currently supports pane agent status matches"@,
        ),
    }
}

/// The subscriptions that an event wait listens to.
pub fn event_match_subscriptions(request_id: &str, match_event: EventMatch) -> (r: Result<
    Vec<Subscription>,
    ErrorResponse,
>)
    ensures
        subscribed(request_id@, match_event, r),
{
    match match_event {
        EventMatch::PaneAgentStatusChanged { pane_id, agent_status } => {
            let mut subs: Vec<Subscription> = Vec::new();
            subs.push(
                Subscription::PaneAgentStatusChanged { pane_id, agent_status: Some(agent_status) },
            );
            Ok(subs)
        },
        EventMatch::PaneAgentStatusChangedAny { pane_id, agent_statuses } => {
            if agent_statuses.len() == 0 {
                return Err(
                    ErrorResponse::new(
                        request_id,
                        "invalid_event_wait_match",
                        "agent_statuses must contain at least one status",
                    ),
                );
            }
            if agent_statuses.len() > MAX_EVENT_WAIT_AGENT_STATUSES {
                return Err(
                    ErrorResponse::new(
                        request_id,
                        "invalid_event_wait_match",
                        "agent_statuses cannot contain more than 5 statuses",
                    ),
                );
            }
            let mut unique: Vec<AgentStatus> = Vec::new();
            let mut subs: Vec<Subscription> = Vec::new();
            let mut i: usize = 0;
            assert(agent_statuses@.take(0) =~= Seq::<AgentStatus>::empty());
            while i < agent_statuses.len()
                invariant
                    i <= agent_statuses@.len(),
                    unique@ == deduplicated(agent_statuses@.take(i as int)),
                    subscribes_to(subs@, pane_id@, unique@),
                decreases agent_statuses@.len() - i,
            {
                assert(agent_statuses@.take(i as int + 1).drop_last() =~= agent_statuses@.take(
                    i as int,
                ));
                let status = agent_statuses[i];
                if !contains_status(&unique, status) {
                    unique.push(status);
                    subs.push(
                        Subscription::PaneAgentStatusChanged {
                            pane_id: pane_id.clone(),
                            agent_status: Some(status),
                        },
                    );
                }
                i += 1;
            }
            assert(agent_statuses@.take(agent_statuses@.len() as int) =~= agent_statuses@);
            Ok(subs)
        },
        EventMatch::Other(_) => Err(unsupported_match(request_id)),
    }
}

// ---------------------------------------------------------------------------
// Laws

/// The lines of a text are what stands between its line breaks, each without the carriage
/// return before its break; a break at the end begins no line.
pub proof fn lemma_lines_stand_between_breaks(line: Seq<char>, rest: Seq<char>)
    requires
        unbroken(line),
    ensures
        lines_of(line.push('\n') + rest) == seq![line_text(line)] + lines_of(rest),
        line.len() > 0 ==> lines_of(line) == seq![line],
        lines_of(Seq::empty()) == Seq::<Seq<char>>::empty(),
        line_text(line.push('\r')) == line,
        line.len() > 0 && line.last() != '\r' ==> line_text(line) == line,
{
    let s = line.push('\n') + rest;
    let n = line.len() as int;
    assert(s.take(n) =~= line);
    assert(is_first_break(s, n));
    let i = choose|i: int| is_first_break(s, i);
    lemma_break_unique(s, i, n);
    assert(s.skip(n + 1) =~= rest);
    assert(line.push('\r').drop_last() =~= line);
    assert forall|i: int| !is_first_break(line, i) by {
        if 0 <= i < line.len() {
            assert(line[i] != '\n');
        }
    }
}

/// A wait ends with the first line of what was read that satisfies the match, and with all
/// of the read. It does so even where the deadline has passed.
pub proof fn lemma_matched_lines_satisfy_the_match(
    request_id: Seq<char>,
    m: OutputMatch,
    read: PaneReadResult,
    deadline_ms: Option<u64>,
    now_ms: u64,
    next: OutputWait,
)
    requires
        looked_at(request_id, m, read, deadline_ms, now_ms, next),
    ensures
        next is Matched ==> next->Matched_read == read && exists|k: int|
            0 <= k < lines_of(read.text@).len() && lines_of(read.text@)[k] == (
            next->matched_line)@ && forall|j: int|
                0 <= j < k ==> !line_matches(m, #[trigger] lines_of(read.text@)[j]),
        next is Matched && m is Substring ==> text::has_substring(
            (next->matched_line)@,
            (m->Substring_value)@,
        ),
        next is Matched && m is Regex ==> regex_found(
            (m->Regex_value)@,
            (next->matched_line)@,
        ),
        next is Matched <==> exists|k: int|
            0 <= k < lines_of(read.text@).len() && line_matches(
                m,
                #[trigger] lines_of(read.text@)[k],
            ),
        next is Failed <==> !(next is Matched) && deadline_ms is Some && now_ms >= deadline_ms->0,
        next is Failed ==> (next->Failed_0).id@ == request_id && (next->Failed_0).error.code@
            == "timeout"@,
        next is Matched || next is Failed || next is Pending,
{
    if next is Matched {
        let k = choose|k: int| #[trigger]
            is_first_match(lines_of(read.text@), m, k) && lines_of(read.text@)[k] == (
            next->matched_line)@;
        assert(line_matches(m, lines_of(read.text@)[k]));
    }
}

/// Statuses keep the order in which they were first named.
pub proof fn lemma_statuses_keep_their_order(s: Seq<AgentStatus>, i: int, j: int)
    requires
        0 <= i < j < deduplicated(s).len(),
    ensures
        exists|p: int|
            0 <= p < s.len() && #[trigger] s[p] == deduplicated(s)[i] && forall|q: int|
                0 <= q <= p ==> #[trigger] s[q] != deduplicated(s)[j],
    decreases s.len(),
{
    let front = s.drop_last();
    let rest = deduplicated(front);
    lemma_deduplicated(front);
    let d = deduplicated(s);
    if j < rest.len() {
        lemma_statuses_keep_their_order(front, i, j);
        let p = choose|p: int|
            0 <= p < front.len() && #[trigger] front[p] == rest[i] && forall|q: int|
                0 <= q <= p ==> #[trigger] front[q] != rest[j];
        assert(s[p] == d[i]);
        assert forall|q: int| 0 <= q <= p implies #[trigger] s[q] != d[j] by {
            assert(front[q] == s[q]);
        }
    } else {
        assert(d[j] == s.last());
        assert(rest.contains(rest[i]));
        assert(front.contains(rest[i]));
        let p = front.index_of(rest[i]);
        assert(s[p] == d[i]);
        assert forall|q: int| 0 <= q <= p implies #[trigger] s[q] != d[j] by {
            assert(front[q] == s[q]);
            assert(front.contains(front[q]));
        }
    }
}

/// A wait for a change of status listens to the pane that it names, once for each status
/// that it names and for no other.
pub proof fn lemma_waits_listen_to_what_they_name(
    request_id: Seq<char>,
    pane_id: String,
    agent_statuses: Vec<AgentStatus>,
    r: Result<Vec<Subscription>, ErrorResponse>,
    status: AgentStatus,
)
    requires
        subscribed(
            request_id,
            EventMatch::PaneAgentStatusChangedAny { pane_id, agent_statuses },
            r,
        ),
    ensures
        r is Ok <==> 1 <= agent_statuses@.len() <= 5,
        r is Ok ==> (agent_statuses@.contains(status) <==> exists|i: int|
            0 <= i < (r->Ok_0)@.len() && status_subscription(
                #[trigger] (r->Ok_0)@[i],
                pane_id@,
                status,
            )),
        r is Ok ==> forall|i: int|
            0 <= i < (r->Ok_0)@.len() ==> (#[trigger] (r->Ok_0)@[i] matches
                Subscription::PaneAgentStatusChanged { pane_id: p, agent_status } && p@ == pane_id@
                && agent_status is Some),
        r is Err ==> (r->Err_0).id@ == request_id && (r->Err_0).error.code@
            == "invalid_event_wait_match"@,
{
    lemma_deduplicated(agent_statuses@);
    if r is Ok {
        let subs = (r->Ok_0)@;
        let d = deduplicated(agent_statuses@);
        if agent_statuses@.contains(status) {
            assert(d.contains(status));
            let i = d.index_of(status);
            assert(status_subscription(subs[i], pane_id@, d[i]));
        }
        if exists|i: int|
            0 <= i < subs.len() && status_subscription(#[trigger] subs[i], pane_id@, status) {
            let i = choose|i: int|
                0 <= i < subs.len() && status_subscription(#[trigger] subs[i], pane_id@, status);
            assert(status_subscription(subs[i], pane_id@, d[i]));
            assert(d.contains(d[i]));
        }
        assert forall|i: int| 0 <= i < subs.len() implies (#[trigger] subs[i] matches
            Subscription::PaneAgentStatusChanged { pane_id: p, agent_status } && p@ == pane_id@
            && agent_status is Some) by {
            assert(status_subscription(subs[i], pane_id@, d[i]));
        }
    }
}

} // verus!
