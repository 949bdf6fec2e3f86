//! What a user of the command line can rely on: every setting comes from the arguments.

use vstd::prelude::*;
use vstd::string::*;

use super::api;
use super::desktop::{self, EnqueueArgs, EnqueueOptions};
use super::mcp;
use super::remote_resume::{self, ResumeAction, ResumeEvent, ResumeRun};
use super::session::{self, SessionInfo};
use super::terminal::{self, AttachOptions, SessionSize};
use super::wait::{self, OutputOptions};
use super::Verdict;
use crate::api::schema::common::{PaneWaitForOutputParams, Request};
use crate::app::list;
use crate::desktop_mcp::AccessMode;
use crate::desktop_queue::QueueErrorKind;
use crate::json::{self, Json};
use crate::text;

verus! {

/// The flag stands somewhere from the `i`-th argument on.
pub open spec fn given(args: Seq<String>, i: int, flag: Seq<char>) -> bool {
    exists|k: int| i <= k < args.len() && (#[trigger] args[k])@ == flag
}

/// The flag stands somewhere from the `i`-th argument on, and this value behind it.
pub open spec fn given_with(
    args: Seq<String>,
    i: int,
    flag: Seq<char>,
    value: Seq<char>,
) -> bool {
    exists|k: int|
        i <= k && k + 1 < args.len() && (#[trigger] args[k])@ == flag && args[k + 1]@ == value
}

proof fn lemma_given_further(args: Seq<String>, i: int, n: int, flag: Seq<char>, value: Seq<char>)
    requires
        i <= n,
    ensures
        given(args, n, flag) ==> given(args, i, flag),
        given_with(args, n, flag, value) ==> given_with(args, i, flag, value),
{
    if given(args, n, flag) {
        let k = choose|k: int| n <= k < args.len() && (#[trigger] args[k])@ == flag;
        assert(args[k]@ == flag);
    }
    if given_with(args, n, flag, value) {
        let k = choose|k: int|
            n <= k && k + 1 < args.len() && (#[trigger] args[k])@ == flag && args[k + 1]@ == value;
        assert(args[k]@ == flag);
    }
}

// ---------------------------------------------------------------------------
// The bridge

/// A bridge has full control exactly if it is to be served and the flag or the variable asks
/// for it. A variable that says anything but yes serves no bridge at all.
pub proof fn lemma_full_control_is_asked_for(args: Seq<String>, env: Option<Seq<char>>)
    ensures
        mcp::access(args, env) == Ok::<Option<AccessMode>, Seq<char>>(
            Some(AccessMode::FullControl),
        ) ==> args.len() > 0 && args[0]@ == "serve"@ && (given(args, 1, "--full-control"@) || env
            == Some("1"@)),
        mcp::access(args, env) == Ok::<Option<AccessMode>, Seq<char>>(Some(AccessMode::Restricted))
            ==> args.len() == 1 && args[0]@ == "serve"@ && env is None,
        env is Some && env->0 != "1"@ ==> !(mcp::access(args, env) matches Ok(Some(_))),
        args.len() == 1 && args[0]@ == "serve"@ && env is None ==> mcp::access(args, env) == Ok::<
            Option<AccessMode>,
            Seq<char>,
        >(Some(AccessMode::Restricted)),
{
    if args.len() == 2 {
        assert(args[1]@ == args[1]@);
    }
}

// ---------------------------------------------------------------------------
// Messages

/// What is put into the queue is what stands behind its flag; a message comes from its flag
/// or from the standard input, as it was asked for.
pub proof fn lemma_messages_are_what_was_given(
    args: Seq<String>,
    i: int,
    before: EnqueueOptions,
    after: EnqueueOptions,
)
    requires
        0 <= i,
        desktop::enqueue_options(args, i, before) == Verdict::<EnqueueOptions>::Run(after),
    ensures
        after.kind != before.kind ==> after.kind is Some && given_with(
            args,
            i,
            "--kind"@,
            after.kind->0,
        ),
        after.correlation_id != before.correlation_id ==> after.correlation_id is Some
            && given_with(args, i, "--correlation-id"@, after.correlation_id->0),
        after.message != before.message ==> after.message is Some && given_with(
            args,
            i,
            "--message"@,
            after.message->0,
        ),
        after.stdin != before.stdin ==> after.stdin && given(args, i, "--stdin"@),
        before.kind is Some ==> after.kind == before.kind,
        before.correlation_id is Some ==> after.correlation_id == before.correlation_id,
        before.message is Some ==> after.message == before.message,
    decreases args.len() - i,
{
    if i < args.len() {
        let flag = args[i]@;
        let step: int = if flag == "--stdin"@ {
            1
        } else {
            2
        };
        let mid = if flag == "--kind"@ {
            EnqueueOptions { kind: Some(args[i + 1]@), ..before }
        } else if flag == "--correlation-id"@ {
            EnqueueOptions { correlation_id: Some(args[i + 1]@), ..before }
        } else if flag == "--message"@ {
            EnqueueOptions { message: Some(args[i + 1]@), ..before }
        } else {
            EnqueueOptions { stdin: true, ..before }
        };
        lemma_enqueue_flags_differ();
        assert(desktop::enqueue_options(args, i + step, mid) == Verdict::<EnqueueOptions>::Run(
            after,
        ));
        lemma_messages_are_what_was_given(args, i + step, mid, after);
        if after.kind is Some {
            lemma_given_further(args, i, i + step, "--kind"@, after.kind->0);
        }
        if after.correlation_id is Some {
            lemma_given_further(args, i, i + step, "--correlation-id"@, after.correlation_id->0);
        }
        if after.message is Some {
            lemma_given_further(args, i, i + step, "--message"@, after.message->0);
        }
        lemma_given_further(args, i, i + step, "--stdin"@, Seq::empty());
        assert(args[i]@ == flag);
    }
}

proof fn lemma_enqueue_flags_differ()
    ensures
        "--kind"@ != "--stdin"@,
        "--message"@ != "--stdin"@,
        "--correlation-id"@ != "--stdin"@,
{
    reveal_strlit("--kind");
    reveal_strlit("--stdin");
    reveal_strlit("--message");
    reveal_strlit("--correlation-id");
    assert("--kind"@.len() == 6);
    assert("--stdin"@.len() == 7);
    assert("--message"@.len() == 9);
    assert("--correlation-id"@.len() == 16);
}

/// A message without a kind is information; the rest is put into the queue as it was given.
pub proof fn lemma_messages_without_a_kind_inform(p: EnqueueArgs, o: EnqueueOptions)
    requires
        desktop::enqueues(p, o),
    ensures
        o.kind is None ==> p.kind@ == "info"@,
        o.kind is Some ==> p.kind@ == o.kind->0,
        o.message is Some ==> p.message is Some && (p.message->0)@ == o.message->0,
        o.message is None ==> p.message is None,
        o.correlation_id is Some ==> p.correlation_id is Some && (p.correlation_id->0)@
            == o.correlation_id->0,
        o.correlation_id is None ==> p.correlation_id is None,
{
}

/// A message that the queue refuses never ends the command with success, and one that is
/// the caller's own mistake ends it as a mistake in the arguments does.
pub proof fn lemma_refused_messages_fail_the_command(kind: QueueErrorKind)
    ensures
        desktop::exit_code_for(kind) != 0,
        desktop::exit_code_for(kind) == 2 <==> kind == QueueErrorKind::Invalid,
        desktop::exit_code_for(kind) == 4 <==> kind == QueueErrorKind::Full,
{
}

// ---------------------------------------------------------------------------
// Waiting

/// What a wait looks for, and how, is what stands behind its flags.
pub proof fn lemma_waits_are_what_was_given(
    args: Seq<String>,
    i: int,
    before: OutputOptions,
    after: OutputOptions,
)
    requires
        0 <= i,
        wait::output_options(args, i, before) == Verdict::<OutputOptions>::Run(after),
    ensures
        after.value != before.value ==> after.value is Some && given_with(
            args,
            i,
            "--match"@,
            after.value->0,
        ),
        before.regex ==> after.regex,
        after.regex && !before.regex ==> given(args, i, "--regex"@),
        !after.strip_ansi && before.strip_ansi ==> given(args, i, "--raw"@),
        after.lines != before.lines ==> after.lines is Some && exists|raw: Seq<char>| #[trigger]
            given_with(args, i, "--lines"@, raw) && text::parsed_uint(raw, u32::MAX as nat) == Some(
                (after.lines->0) as nat,
            ),
        after.timeout_ms != before.timeout_ms ==> after.timeout_ms is Some && exists|
            raw: Seq<char>,
        | #[trigger]
            given_with(args, i, "--timeout"@, raw) && text::parsed_uint(raw, u64::MAX as nat)
                == Some((after.timeout_ms->0) as nat),
    decreases args.len() - i, 1nat,
{
    if i < args.len() {
        let flag = args[i]@;
        let value = args[i + 1]@;
        assert(args[i]@ == flag);
        if flag == "--regex"@ {
            lemma_further_wait(args, i, 1, OutputOptions { regex: true, ..before }, after);
        } else if flag == "--raw"@ {
            lemma_further_wait(args, i, 1, OutputOptions { strip_ansi: false, ..before }, after);
        } else if flag == "--match"@ {
            assert(given_with(args, i, "--match"@, value));
            lemma_further_wait(args, i, 2, OutputOptions { value: Some(value), ..before }, after);
        } else if flag == "--source"@ {
            let source = super::read_source_named(value)->0;
            lemma_further_wait(args, i, 2, OutputOptions { source, ..before }, after);
        } else if flag == "--lines"@ {
            assert(given_with(args, i, "--lines"@, value));
            let n = text::parsed_uint(value, u32::MAX as nat)->0;
            lemma_further_wait(
                args,
                i,
                2,
                OutputOptions { lines: Some(n as u32), ..before },
                after,
            );
        } else {
            assert(given_with(args, i, "--timeout"@, value));
            let n = text::parsed_uint(value, u64::MAX as nat)->0;
            lemma_further_wait(
                args,
                i,
                2,
                OutputOptions { timeout_ms: Some(n as u64), ..before },
                after,
            );
        }
    }
}

proof fn lemma_further_wait(
    args: Seq<String>,
    i: int,
    step: int,
    mid: OutputOptions,
    after: OutputOptions,
)
    requires
        0 <= i < args.len(),
        1 <= step <= 2,
        i + step <= args.len(),
        wait::output_options(args, i + step, mid) == Verdict::<OutputOptions>::Run(after),
    ensures
        after.value != mid.value ==> after.value is Some && given_with(
            args,
            i,
            "--match"@,
            after.value->0,
        ),
        mid.regex ==> after.regex,
        after.regex && !mid.regex ==> given(args, i, "--regex"@),
        !after.strip_ansi && mid.strip_ansi ==> given(args, i, "--raw"@),
        after.lines != mid.lines ==> after.lines is Some && exists|raw: Seq<char>| #[trigger]
            given_with(args, i, "--lines"@, raw) && text::parsed_uint(raw, u32::MAX as nat) == Some(
                (after.lines->0) as nat,
            ),
        after.timeout_ms != mid.timeout_ms ==> after.timeout_ms is Some && exists|
            raw: Seq<char>,
        | #[trigger]
            given_with(args, i, "--timeout"@, raw) && text::parsed_uint(raw, u64::MAX as nat)
                == Some((after.timeout_ms->0) as nat),
    decreases args.len() - i, 0nat,
{
    lemma_waits_are_what_was_given(args, i + step, mid, after);
    if after.value is Some {
        lemma_given_further(args, i, i + step, "--match"@, after.value->0);
    }
    lemma_given_further(args, i, i + step, "--regex"@, Seq::empty());
    lemma_given_further(args, i, i + step, "--raw"@, Seq::empty());
    if after.lines != mid.lines {
        let raw = choose|raw: Seq<char>| #[trigger]
            given_with(args, i + step, "--lines"@, raw) && text::parsed_uint(raw, u32::MAX as nat)
                == Some((after.lines->0) as nat);
        lemma_given_further(args, i, i + step, "--lines"@, raw);
    }
    if after.timeout_ms != mid.timeout_ms {
        let raw = choose|raw: Seq<char>| #[trigger]
            given_with(args, i + step, "--timeout"@, raw) && text::parsed_uint(raw, u64::MAX as nat)
                == Some((after.timeout_ms->0) as nat);
        lemma_given_further(args, i, i + step, "--timeout"@, raw);
    }
}

// ---------------------------------------------------------------------------
// Terminals

/// A terminal is taken over only where that was asked for, and a delegation is the one that
/// was named.
pub proof fn lemma_terminals_are_taken_over_on_request(
    args: Seq<String>,
    i: int,
    before: AttachOptions,
    after: AttachOptions,
)
    requires
        0 <= i,
        terminal::attach_options(args, i, before) == Verdict::<AttachOptions>::Run(after),
    ensures
        after.takeover ==> before.takeover || given(args, i, "--takeover"@),
        before.takeover ==> after.takeover,
        after.delegation_id != before.delegation_id ==> after.delegation_id is Some && given_with(
            args,
            i,
            "--delegation"@,
            after.delegation_id->0,
        ),
        given(args, i, "--takeover"@) && args.len() == i + 1 ==> after.takeover,
    decreases args.len() - i,
{
    if i < args.len() {
        let flag = args[i]@;
        assert(args[i]@ == flag);
        lemma_takeover_differs();
        if flag == "--takeover"@ {
            lemma_terminals_are_taken_over_on_request(
                args,
                i + 1,
                AttachOptions { takeover: true, ..before },
                after,
            );
            if after.delegation_id is Some {
                lemma_given_further(args, i, i + 1, "--delegation"@, after.delegation_id->0);
            }
        } else {
            let value = args[i + 1]@;
            let mid = if flag == "--delegation"@ {
                AttachOptions { delegation_id: Some(value), ..before }
            } else {
                AttachOptions {
                    delegation_epoch: Some(text::parsed_uint(value, u64::MAX as nat)->0 as u64),
                    ..before
                }
            };
            if flag == "--delegation"@ {
                assert(given_with(args, i, "--delegation"@, value));
            }
            assert(terminal::attach_options(args, i + 2, mid) == Verdict::<AttachOptions>::Run(
                after,
            ));
            lemma_terminals_are_taken_over_on_request(args, i + 2, mid, after);
            lemma_given_further(args, i, i + 2, "--takeover"@, Seq::empty());
            if after.delegation_id is Some {
                lemma_given_further(args, i, i + 2, "--delegation"@, after.delegation_id->0);
            }
        }
    }
}

proof fn lemma_takeover_differs()
    ensures
        "--takeover"@ != "--cols"@,
        "--takeover"@ != "--rows"@,
        "--cols"@ != "--rows"@,
{
    reveal_strlit("--takeover");
    reveal_strlit("--cols");
    reveal_strlit("--rows");
    assert("--takeover"@.len() == 10);
    assert("--cols"@.len() == 6);
    assert("--rows"@[2] == 'r');
    assert("--cols"@[2] == 'c');
}

/// A session is of a size that a terminal can have. It is taken over only where that was
/// asked for and can be: one that only watches takes nothing over.
pub proof fn lemma_sessions_are_as_asked_for(
    args: Seq<String>,
    i: int,
    before: SessionSize,
    usage: Seq<char>,
    command: Seq<char>,
    allow_takeover: bool,
    after: SessionSize,
)
    requires
        0 <= i,
        before.cols > 0,
        before.rows > 0,
        terminal::session_options(args, i, before, usage, command, allow_takeover)
            == Verdict::<SessionSize>::Run(after),
    ensures
        after.cols > 0 && after.rows > 0,
        after.takeover ==> before.takeover || (allow_takeover && given(args, i, "--takeover"@)),
        before.takeover ==> after.takeover,
        after.cols != before.cols ==> exists|raw: Seq<char>| #[trigger]
            given_with(args, i, "--cols"@, raw) && text::parsed_uint(raw, u16::MAX as nat) == Some(
                after.cols as nat,
            ),
        after.rows != before.rows ==> exists|raw: Seq<char>| #[trigger]
            given_with(args, i, "--rows"@, raw) && text::parsed_uint(raw, u16::MAX as nat) == Some(
                after.rows as nat,
            ),
    decreases args.len() - i,
{
    if i < args.len() {
        let flag = args[i]@;
        assert(args[i]@ == flag);
        lemma_takeover_differs();
        let step: int = if flag == "--takeover"@ {
            1
        } else {
            2
        };
        let value = args[i + 1]@;
        let mid = if flag == "--takeover"@ {
            SessionSize { takeover: true, ..before }
        } else if flag == "--cols"@ {
            SessionSize { cols: text::parsed_uint(value, u16::MAX as nat)->0 as u16, ..before }
        } else {
            SessionSize { rows: text::parsed_uint(value, u16::MAX as nat)->0 as u16, ..before }
        };
        assert(terminal::session_options(args, i + step, mid, usage, command, allow_takeover)
            == Verdict::<SessionSize>::Run(after));
        lemma_sessions_are_as_asked_for(
            args,
            i + step,
            mid,
            usage,
            command,
            allow_takeover,
            after,
        );
        lemma_given_further(args, i, i + step, "--takeover"@, Seq::empty());
        if flag == "--cols"@ {
            assert(given_with(args, i, "--cols"@, value));
        }
        if flag == "--rows"@ {
            assert(given_with(args, i, "--rows"@, value));
        }
        if after.cols != mid.cols {
            let raw = choose|raw: Seq<char>| #[trigger]
                given_with(args, i + step, "--cols"@, raw) && text::parsed_uint(
                    raw,
                    u16::MAX as nat,
                ) == Some(after.cols as nat);
            lemma_given_further(args, i, i + step, "--cols"@, raw);
        }
        if after.rows != mid.rows {
            let raw = choose|raw: Seq<char>| #[trigger]
                given_with(args, i + step, "--rows"@, raw) && text::parsed_uint(
                    raw,
                    u16::MAX as nat,
                ) == Some(after.rows as nat);
            lemma_given_further(args, i, i + step, "--rows"@, raw);
        }
    }
}

/// A new shell gets every variable but Herdr's own.
pub proof fn lemma_shells_get_no_variables_of_herdr(
    q: Request,
    label: Option<Seq<char>>,
    cwd: Option<String>,
    env: Seq<(String, String)>,
    row: (String, String),
)
    requires
        terminal::asks_shell(q, label, cwd, env),
    ensures
        q.method is TabCreate,
        (q.method->TabCreate_0).env@.contains(row) <==> env.contains(row) && !text::has_prefix(
            row.0@,
            "HERDR_"@,
        ),
        (q.method->TabCreate_0).cwd == cwd,
        text::opt_view((q.method->TabCreate_0).label) == label,
{
    list::lemma_filter_contains(env, terminal::not_own(), row);
}

/// A variable of the shell goes along under its last value, unless it is one of Herdr's own.
pub proof fn lemma_last_values_go_along(env: Seq<(String, String)>, name: Seq<char>)
    ensures
        match api::inherits(env, name) {
            Some(value) => !text::has_prefix(name, "HERDR_"@) && exists|i: int|
                0 <= i < env.len() && (#[trigger] env[i]).0@ == name && env[i].1@ == value
                    && forall|j: int| i < j < env.len() ==> (#[trigger] env[j]).0@ != name,
            None => text::has_prefix(name, "HERDR_"@) || forall|i: int|
                0 <= i < env.len() ==> (#[trigger] env[i]).0@ != name,
        },
    decreases env.len(),
{
    if env.len() > 0 {
        let front = env.drop_last();
        lemma_last_values_go_along(front, name);
        if env.last().0@ == name {
            assert(env[env.len() - 1].0@ == name);
        } else {
            match api::inherits(front, name) {
                Some(value) => {
                    let i = choose|i: int|
                        0 <= i < front.len() && (#[trigger] front[i]).0@ == name && front[i].1@
                            == value && forall|j: int|
                            i < j < front.len() ==> (#[trigger] front[j]).0@ != name;
                    assert(env[i].0@ == name);
                    assert forall|j: int| i < j < env.len() implies (#[trigger] env[j]).0@
                        != name by {
                        if j < front.len() {
                            assert(front[j] == env[j]);
                        }
                    }
                },
                None => {
                    if !text::has_prefix(name, "HERDR_"@) {
                        assert forall|i: int| 0 <= i < env.len() implies (#[trigger] env[i]).0@
                            != name by {
                            if i < front.len() {
                                assert(front[i] == env[i]);
                            }
                        }
                    }
                },
            }
        }
    }
}

/// A setting of a variable is its name, an equals sign, and its value; the name has no equals
/// sign, and neither has a NUL.
pub proof fn lemma_settings_are_name_and_value(raw: Seq<char>)
    ensures
        match super::env_assignment(raw) {
            Ok((key, value)) => raw == key.push('=') + value && key.len() > 0 && !key.contains('=')
                && !key.contains('\0') && !value.contains('\0'),
            Err(_) => !raw.contains('=') || raw[0] == '=' || raw.contains('\0'),
        },
{
    reveal_strlit("=");
    if text::has_substring(raw, "="@) {
        let k = choose|i: int| #[trigger] text::starts_with_at(raw, i, "="@);
        text::lemma_first_exists(raw, "="@, k);
        let i = choose|i: int| text::first_occurrence(raw, "="@, i);
        assert(text::first_occurrence(raw, "="@, i));
        text::lemma_split_first(raw, "="@, i);
        assert(raw.subrange(i, i + 1)[0] == '=');
        assert(raw[i] == '=');
        let key = raw.subrange(0, i);
        let value = raw.subrange(i + 1, raw.len() as int);
        assert(raw =~= key.push('=') + value);
        if key.contains('=') {
            let j = key.index_of('=');
            assert(raw.subrange(j, j + 1) =~= "="@);
            assert(text::starts_with_at(raw, j, "="@));
        }
        if key.contains('\0') {
            assert(raw[key.index_of('\0')] == '\0');
        }
        if value.contains('\0') {
            assert(raw[i + 1 + value.index_of('\0')] == '\0');
        }
    } else if raw.contains('=') {
        let j = raw.index_of('=');
        assert(raw.subrange(j, j + 1) =~= "="@);
        assert(text::starts_with_at(raw, j, "="@));
    }
}

// ---------------------------------------------------------------------------
// Requests in the context of a shell

/// A request that takes the context of a shell along keeps every variable that it sets
/// itself. It gets the others from the shell, but for Herdr's own; it runs in the shell's
/// directory where it names none. Everything else in it stays.
pub proof fn lemma_requests_take_their_shell_along(
    merged: Json,
    request: Json,
    params: Seq<(String, Json)>,
    cwd: Seq<char>,
    env: Seq<(String, String)>,
    name: Seq<char>,
)
    requires
        api::request_in_context(merged, request, params, cwd, env),
    ensures
        name != "params"@ ==> json::member_at(merged, name) == json::member_at(request, name),
        json::member_at(merged, "params"@) matches Some(Json::Object(p)) && {
            let now = api::members_of(json::field(p@, "env"@));
            let own = api::members_of(json::field(params, "env"@));
            &&& json::field(own, name) is Some ==> json::field(now, name) == json::field(own, name)
            &&& json::field(own, name) is None && text::has_prefix(name, "HERDR_"@) ==> json::field(
                now,
                name,
            ) is None
            &&& json::field(own, name) is None && api::inherits(env, name) is Some ==> (json::field(
                now,
                name,
            ) matches Some(Json::Text(v)) && v@ == api::inherits(env, name)->0)
            &&& json::field(params, "cwd"@) is None ==> (json::field(p@, "cwd"@) matches Some(
                Json::Text(dir),
            ) && dir@ == cwd)
            &&& json::field(params, "cwd"@) matches Some(Json::Text(_)) ==> json::field(
                p@,
                "cwd"@,
            ) == json::field(params, "cwd"@)
            &&& name != "cwd"@ && name != "env"@ ==> json::field(p@, name) == json::field(
                params,
                name,
            )
        },
{
    let p = json::member_at(merged, "params"@)->0->Object_0;
    let now = api::members_of(json::field(p@, "env"@));
    let own = api::members_of(json::field(params, "env"@));
    assert(api::variable_set(now, own, env, name));
    lemma_last_values_go_along(env, name);
}

// ---------------------------------------------------------------------------
// Sessions

/// The one name that a session command is given is an argument, and none of its flags; JSON
/// is written exactly if it was asked for.
pub proof fn lemma_sessions_are_named_once(
    args: Seq<String>,
    i: int,
    name: Option<Seq<char>>,
    json: bool,
)
    requires
        0 <= i <= args.len(),
    ensures
        session::name_and_json(args, i, name, json) matches Some((found, written)) ==> {
            &&& written <==> json || given(args, i, "--json"@)
            &&& name is Some ==> found == name && forall|k: int|
                i <= k < args.len() ==> (#[trigger] args[k])@ == "--json"@
            &&& name is None && found is Some ==> given(args, i, found->0) && found->0 != "--json"@
            &&& found is None ==> forall|k: int|
                i <= k < args.len() ==> (#[trigger] args[k])@ == "--json"@
        },
    decreases args.len() - i,
{
    if i < args.len() {
        assert(args[i]@ == args[i]@);
        let flag = args[i]@;
        let next = if flag == "--json"@ || name is Some {
            name
        } else {
            Some(flag)
        };
        let written = json || flag == "--json"@;
        if flag == "--json"@ || name is None {
            lemma_sessions_are_named_once(args, i + 1, next, written);
            lemma_given_further(args, i, i + 1, "--json"@, Seq::empty());
            match session::name_and_json(args, i, name, json) {
                Some((found, shown)) => {
                    if found is Some {
                        lemma_given_further(args, i, i + 1, found->0, Seq::empty());
                    }
                    if given(args, i, "--json"@) && !given(args, i + 1, "--json"@) {
                        let k = choose|k: int|
                            i <= k < args.len() && (#[trigger] args[k])@ == "--json"@;
                        assert(k == i);
                    }
                },
                None => {},
            }
        }
    }
}

/// The table has a line for each session, in order, below its head; each line begins with
/// the session's name.
pub proof fn lemma_every_session_has_a_line(sessions: Seq<SessionInfo>, i: int)
    requires
        0 <= i < sessions.len(),
    ensures
        session::session_table(sessions).len() == sessions.len() + 1,
        session::session_table(sessions)[i + 1].take(sessions[i].name@.len() as int)
            == sessions[i].name@,
        ({
            let line = session::session_table(sessions)[i + 1];
            let socket = sessions[i].socket_path@;
            line.len() >= socket.len() && line.skip(line.len() - socket.len()) == socket
        }),
{
    let line = session::session_row(sessions[i]);
    let table = session::session_table(sessions);
    assert(table[i + 1] == line);
    assert(line.take(sessions[i].name@.len() as int) =~= sessions[i].name@);
    let socket = sessions[i].socket_path@;
    assert(line.skip(line.len() - socket.len()) =~= socket);
}

/// Something is taken over exactly if that was asked for.
pub proof fn lemma_targets_are_taken_over_on_request(args: Seq<String>, i: int, takeover: bool)
    requires
        0 <= i <= args.len(),
    ensures
        super::attach_target(args, i, takeover) matches Verdict::Run(taken) ==> (taken <==> takeover
            || given(args, i, "--takeover"@)) && forall|k: int|
            i <= k < args.len() ==> (#[trigger] args[k])@ == "--takeover"@,
    decreases args.len() - i,
{
    if i < args.len() {
        assert(args[i]@ == args[i]@);
        if args[i]@ == "--takeover"@ {
            lemma_targets_are_taken_over_on_request(args, i + 1, true);
        }
    }
}

/// A wait asks for the pane, the text and the way of looking that its options say.
pub proof fn lemma_waits_ask_for_their_options(
    p: PaneWaitForOutputParams,
    pane_id: Seq<char>,
    o: OutputOptions,
)
    requires
        wait::asks_for(p, pane_id, o),
    ensures
        p.pane_id@ == pane_id,
        p.matcher is Regex <==> o.regex,
        p.matcher is Regex ==> o.value == Some((p.matcher->Regex_value)@),
        p.matcher is Substring ==> o.value == Some((p.matcher->Substring_value)@),
        p.lines == o.lines && p.timeout_ms == o.timeout_ms && p.source == o.source,
        p.strip_ansi == o.strip_ansi,
{
}

// ---------------------------------------------------------------------------
// Resuming

/// Only the records of a peer that was named are resumed, and none is left out; what is to
/// be listed, and of which peer, is as it was asked for.
pub proof fn lemma_resuming_is_as_asked_for(
    args: Seq<String>,
    i: int,
    list_only: bool,
    peer_id: Option<Seq<char>>,
    listed: bool,
    named: Option<Seq<char>>,
)
    requires
        0 <= i <= args.len(),
        remote_resume::resume_options(args, i, list_only, peer_id) == Verdict::<
            (bool, Option<Seq<char>>),
        >::Run((listed, named)),
    ensures
        list_only ==> listed,
        listed && !list_only ==> given(args, i, "--list"@),
        peer_id is Some ==> named == peer_id,
        peer_id is None && named is Some ==> given_with(args, i, "--peer"@, named->0),
        i == args.len() ==> listed == list_only && named == peer_id,
    decreases args.len() - i,
{
    if i < args.len() {
        assert(args[i]@ == args[i]@);
        reveal_strlit("--list");
        reveal_strlit("--peer");
        assert("--list"@[2] == 'l' && "--peer"@[2] == 'p');
        if args[i]@ == "--list"@ {
            lemma_resuming_is_as_asked_for(args, i + 1, true, peer_id, listed, named);
            if named is Some {
                lemma_given_further(args, i, i + 1, "--peer"@, named->0);
            }
        } else {
            let value = args[i + 1]@;
            assert(given_with(args, i, "--peer"@, value));
            lemma_resuming_is_as_asked_for(args, i + 2, list_only, Some(value), listed, named);
            lemma_given_further(args, i, i + 2, "--list"@, Seq::empty());
        }
    }
}

/// The command ends only once no peer waits, and with success exactly if nothing failed.
pub proof fn lemma_resuming_ends_once_no_peer_waits(run: ResumeRun, action: ResumeAction)
    requires
        remote_resume::goes_on(run, action),
    ensures
        action is Exit <==> run.waiting@.len() == 0,
        action == ResumeAction::Exit(0) <==> run.waiting@.len() == 0 && run.failures == 0,
        action is Exit ==> action == ResumeAction::Exit(0) || action == ResumeAction::Exit(1),
        action is Connect ==> (action->target)@ == run.waiting@[0].records@[0].ssh.target@ && (
        action->ssh_args)@ == run.waiting@[0].records@[0].ssh.ssh_args@,
{
}

/// Peers are resumed in their order, each once. One that cannot be reached fails all its
/// records; failures are never forgotten.
pub proof fn lemma_every_peer_is_resumed(
    before: ResumeRun,
    event: ResumeEvent,
    after: ResumeRun,
    lines: Seq<(bool, String)>,
    action: ResumeAction,
)
    requires
        before.waiting@.len() > 0,
        remote_resume::peers_have_records(before.waiting@),
        remote_resume::resume_follows(before, event, after, lines, action),
    ensures
        event is Authenticated ==> after.waiting@ == before.waiting@ && action is Send && (
        action->Send_0).method is RemoteResume && text::opt_view(
            ((action->Send_0).method->RemoteResume_0).peer_id,
        ) == Some(before.waiting@[0].peer_id@),
        !(event is Authenticated) ==> after.waiting@.len() == before.waiting@.len() - 1 && forall|
            k: int,
        |
            0 <= k < after.waiting@.len() ==> #[trigger] after.waiting@[k] == before.waiting@[k
                + 1],
        after.failures >= before.failures,
        event is NotAuthenticated ==> after.failures > before.failures || after.failures
            == usize::MAX,
        event is NotAuthenticated && before.failures + before.waiting@[0].records@.len()
            <= usize::MAX ==> after.failures == before.failures
            + before.waiting@[0].records@.len(),
        event is Answered && before.failures + remote_resume::response_failures(event->Answered_0)
            <= usize::MAX ==> after.failures == before.failures + remote_resume::response_failures(
            event->Answered_0,
        ),
        event is Authenticated ==> after.failures == before.failures,
{
    if event is NotAuthenticated {
        assert(before.waiting@[0].records@.len() > 0);
    }
}

/// A response counts as many failures as it tells of: one where it is an error, else one for
/// each outcome with an error.
pub proof fn lemma_failures_are_counted(outcomes: Seq<Json>)
    ensures
        remote_resume::failures_in(outcomes) <= outcomes.len(),
        remote_resume::failures_in(outcomes) == 0 <==> forall|i: int|
            0 <= i < outcomes.len() ==> json::as_text(
                json::member(#[trigger] outcomes[i], "error"@),
            ) is None,
        remote_resume::failures_in(outcomes) == outcomes.len() <==> forall|i: int|
            0 <= i < outcomes.len() ==> json::as_text(
                json::member(#[trigger] outcomes[i], "error"@),
            ) is Some,
    decreases outcomes.len(),
{
    if outcomes.len() > 0 {
        let front = outcomes.drop_last();
        lemma_failures_are_counted(front);
        assert forall|i: int| 0 <= i < front.len() implies #[trigger] front[i] == outcomes[i] by {}
        let last = outcomes[outcomes.len() - 1];
        assert(outcomes.last() == last);
        if remote_resume::failures_in(outcomes) == 0 {
            assert forall|i: int| 0 <= i < outcomes.len() implies json::as_text(
                json::member(#[trigger] outcomes[i], "error"@),
            ) is None by {
                if i < front.len() {
                    assert(front[i] == outcomes[i]);
                }
            }
        }
        if remote_resume::failures_in(outcomes) == outcomes.len() {
            assert forall|i: int| 0 <= i < outcomes.len() implies json::as_text(
                json::member(#[trigger] outcomes[i], "error"@),
            ) is Some by {
                if i < front.len() {
                    assert(front[i] == outcomes[i]);
                }
            }
        }
        if forall|i: int|
            0 <= i < outcomes.len() ==> json::as_text(
                json::member(#[trigger] outcomes[i], "error"@),
            ) is None {
            assert forall|i: int| 0 <= i < front.len() implies json::as_text(
                json::member(#[trigger] front[i], "error"@),
            ) is None by {
                assert(front[i] == outcomes[i]);
            }
        }
        if forall|i: int|
            0 <= i < outcomes.len() ==> json::as_text(
                json::member(#[trigger] outcomes[i], "error"@),
            ) is Some {
            assert forall|i: int| 0 <= i < front.len() implies json::as_text(
                json::member(#[trigger] front[i], "error"@),
            ) is Some by {
                assert(front[i] == outcomes[i]);
            }
        }
    }
}

/// An error as a whole is a failure, whatever else the response holds.
pub proof fn lemma_errors_are_failures(response: Json)
    ensures
        json::has(response, "error"@) ==> remote_resume::response_failures(response) > 0,
{
}

} // verus!
