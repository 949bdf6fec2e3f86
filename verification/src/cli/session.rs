//! `herdr session`.

use vstd::prelude::*;
use vstd::string::*;

use super::{HelpTopic, Parsed};
use crate::json::{self, Json, JsonView};
use crate::text;

verus! {

pub enum SessionCommand {
    List(Vec<String>),
    Attach(Vec<String>),
    Stop(Vec<String>),
    Delete(Vec<String>),
}

pub fn run_session_command(args: &Vec<String>) -> (r: Parsed<SessionCommand>)
    ensures
        if args@.len() == 0 {
            super::is_help(r, HelpTopic::Session, 2)
        } else if args@[0]@ == "list"@ {
            r matches Parsed::Run(SessionCommand::List(rest)) && rest@ == args@.skip(1)
        } else if args@[0]@ == "attach"@ {
            r matches Parsed::Run(SessionCommand::Attach(rest)) && rest@ == args@.skip(1)
        } else if args@[0]@ == "stop"@ {
            r matches Parsed::Run(SessionCommand::Stop(rest)) && rest@ == args@.skip(1)
        } else if args@[0]@ == "delete"@ {
            r matches Parsed::Run(SessionCommand::Delete(rest)) && rest@ == args@.skip(1)
        } else {
            super::is_help(
                r,
                HelpTopic::Session,
                if super::help_flag(args@[0]@) {
                    0
                } else {
                    2
                },
            )
        },
{
    if args.len() == 0 {
        return Parsed::Help { topic: HelpTopic::Session, code: 2 };
    }
    let name = args[0].as_str();
    if text::str_eq(name, "list") {
        Parsed::Run(SessionCommand::List(super::rest(args, 1)))
    } else if text::str_eq(name, "attach") {
        Parsed::Run(SessionCommand::Attach(super::rest(args, 1)))
    } else if text::str_eq(name, "stop") {
        Parsed::Run(SessionCommand::Stop(super::rest(args, 1)))
    } else if text::str_eq(name, "delete") {
        Parsed::Run(SessionCommand::Delete(super::rest(args, 1)))
    } else if super::is_help_flag(name) {
        Parsed::Help { topic: HelpTopic::Session, code: 0 }
    } else {
        Parsed::Help { topic: HelpTopic::Session, code: 2 }
    }
}

/// `session attach` is only explained here.
pub fn session_attach_help(args: &Vec<String>) -> (r: Parsed<()>)
    ensures
        super::is_exit(
            r,
            if args@.len() > 0 && super::help_flag(args@[0]@) {
                0
            } else {
                2
            },
            seq!["usage: herdr session attach <name>"@],
        ),
{
    let code: i32 = if args.len() > 0 && super::is_help_flag(args[0].as_str()) {
        0
    } else {
        2
    };
    super::exit1(code, "usage: herdr session attach <name>")
}

/// Whether the answer is to be JSON.
pub fn parse_session_json_only(args: &Vec<String>, usage: &str) -> (r: Parsed<bool>)
    ensures
        if args@.len() == 0 {
            r == Parsed::<bool>::Run(false)
        } else if args@.len() == 1 && args@[0]@ == "--json"@ {
            r == Parsed::<bool>::Run(true)
        } else {
            super::is_exit(r, 2, seq![usage@])
        },
{
    if args.len() == 0 {
        Parsed::Run(false)
    } else if args.len() == 1 && text::str_eq(args[0].as_str(), "--json") {
        Parsed::Run(true)
    } else {
        super::exit1(2, usage)
    }
}

/// The name, and whether the answer is to be JSON, from the `i`-th argument on:
/// there may be one name, wherever it stands.
pub open spec fn name_and_json(args: Seq<String>, i: int, name: Option<Seq<char>>, json: bool) -> Option<
    (Option<Seq<char>>, bool),
>
    decreases args.len() - i,
{
    if i >= args.len() {
        Some((name, json))
    } else if args[i]@ == "--json"@ {
        name_and_json(args, i + 1, name, true)
    } else if name is None {
        name_and_json(args, i + 1, Some(args[i]@), json)
    } else {
        None
    }
}

pub fn parse_session_name_and_json(args: &Vec<String>, usage: &str) -> (r: Parsed<(String, bool)>)
    ensures
        match name_and_json(args@, 0, None, false) {
            Some((Some(name), json)) => r matches Parsed::Run((n, j)) && n@ == name && j == json,
            _ => super::is_exit(r, 2, seq![usage@]),
        },
{
    let mut name: Option<String> = None;
    let mut json = false;
    let mut i: usize = 0;
    while i < args.len()
        invariant
            i <= args@.len(),
            name_and_json(args@, i as int, text::opt_view(name), json) == name_and_json(
                args@,
                0,
                None,
                false,
            ),
        decreases args@.len() - i,
    {
        if text::str_eq(args[i].as_str(), "--json") {
            json = true;
        } else if name.is_none() {
            name = Some(args[i].clone());
        } else {
            return super::exit1(2, usage);
        }
        i += 1;
    }
    match name {
        Some(name) => Parsed::Run((name, json)),
        None => super::exit1(2, usage),
    }
}

/// The error that a session command prints.
pub open spec fn session_error_view(code: Seq<char>, message: Seq<char>) -> JsonView {
    JsonView::Object(
        seq![
            (
                "error"@,
                JsonView::Object(
                    seq![("code"@, JsonView::Text(code)), ("message"@, JsonView::Text(message))],
                ),
            ),
        ],
    )
}

pub fn session_error(code: &str, message: &str) -> (r: Json)
    ensures
        json::json_view(r) == session_error_view(code@, message@),
        json::shallow(r, 2),
{
    let mut body: Vec<(String, Json)> = Vec::new();
    body.push(json::text_field("code", code));
    body.push(json::text_field("message", message));
    let inner = Json::Object(body);
    let ghost shown = seq![
        ("code"@, JsonView::Text(code@)),
        ("message"@, JsonView::Text(message@)),
    ];
    proof {
        json::lemma_object_view(inner, shown);
        assert(json::members_shallow(body@, 0));
        assert(json::shallow(inner, 1));
    }
    let mut out: Vec<(String, Json)> = Vec::new();
    out.push(json::field_of("error", inner));
    let r = Json::Object(out);
    proof {
        json::lemma_object_view(r, seq![("error"@, JsonView::Object(shown))]);
        assert(json::members_shallow(out@, 1));
    }
    r
}

/// The text of the error that a session command prints.
pub fn print_session_error(code: &str, message: &str) -> (r: String)
    ensures
        r@ == json::json_text(session_error_view(code@, message@)),
{
    let error = session_error(code, message);
    proof {
        json::lemma_shallower(error, 2, json::MAX_WRITE_DEPTH as nat);
    }
    json::write_json(&error)
}

// ---------------------------------------------------------------------------
// The table

/// What is known of a session.
pub struct SessionInfo {
    pub name: String,
    pub running: bool,
    pub session_dir: String,
    pub socket_path: String,
}

pub open spec fn spaces(n: int) -> Seq<char> {
    Seq::new(
        if n > 0 {
            n as nat
        } else {
            0
        },
        |i: int| ' ',
    )
}

/// The text in a column of that width; a longer text takes the room it needs.
pub open spec fn in_column(s: Seq<char>, width: nat) -> Seq<char> {
    s + spaces(width - s.len())
}

pub open spec fn row_of(
    name: Seq<char>,
    status: Seq<char>,
    directory: Seq<char>,
    socket: Seq<char>,
) -> Seq<char> {
    in_column(name, 20) + " "@ + in_column(status, 8) + " "@ + in_column(directory, 48) + " "@
        + socket
}

pub open spec fn session_row(s: SessionInfo) -> Seq<char> {
    row_of(
        s.name@,
        if s.running {
            "running"@
        } else {
            "stopped"@
        },
        s.session_dir@,
        s.socket_path@,
    )
}

pub open spec fn table_head() -> Seq<char> {
    row_of("name"@, "status"@, "directory"@, "socket"@)
}

/// The lines that list the sessions.
pub open spec fn session_table(sessions: Seq<SessionInfo>) -> Seq<Seq<char>> {
    seq![table_head()] + sessions.map_values(|s: SessionInfo| session_row(s))
}

fn push_column(line: &mut String, s: &str, width: usize)
    ensures
        final(line)@ == old(line)@ + in_column(s@, width as nat),
{
    let ghost before = line@;
    line.append(s);
    let mut n: usize = s.unicode_len();
    let ghost len = s@.len();
    assert(spaces(0) =~= Seq::<char>::empty());
    while n < width
        invariant
            len == s@.len(),
            len <= n,
            n <= width || n == len,
            line@ == before + s@ + spaces(n - len),
        decreases width - n,
    {
        line.push(' ');
        assert(spaces(n - len + 1) =~= spaces(n - len).push(' '));
        assert(line@ =~= before + s@ + spaces(n - len + 1));
        n += 1;
    }
    assert(spaces(n - len) =~= spaces(width - len));
    assert(line@ =~= before + in_column(s@, width as nat));
}

fn row(name: &str, status: &str, directory: &str, socket: &str) -> (r: String)
    ensures
        r@ == row_of(name@, status@, directory@, socket@),
{
    let mut line = String::new();
    push_column(&mut line, name, 20);
    line.append(" ");
    push_column(&mut line, status, 8);
    line.append(" ");
    push_column(&mut line, directory, 48);
    line.append(" ");
    line.append(socket);
    assert(line@ =~= row_of(name@, status@, directory@, socket@));
    line
}

/// The lines that list the sessions.
pub fn print_session_table(sessions: &Vec<SessionInfo>) -> (r: Vec<String>)
    ensures
        text::views(r@) == session_table(sessions@),
{
    let mut out: Vec<String> = Vec::new();
    out.push(row("name", "status", "directory", "socket"));
    let mut i: usize = 0;
    while i < sessions.len()
        invariant
            i <= sessions@.len(),
            out@.len() == i + 1,
            out@[0]@ == table_head(),
            forall|k: int| 0 <= k < i ==> (#[trigger] out@[k + 1])@ == session_row(sessions@[k]),
        decreases sessions@.len() - i,
    {
        let s = &sessions[i];
        let status = if s.running {
            "running"
        } else {
            "stopped"
        };
        let ghost before = out@;
        out.push(
            row(s.name.as_str(), status, s.session_dir.as_str(), s.socket_path.as_str()),
        );
        assert forall|k: int| 0 <= k < i + 1 implies (#[trigger] out@[k + 1])@ == session_row(
            sessions@[k],
        ) by {
            if k < i {
                assert(out@[k + 1] == before[k + 1]);
            }
        }
        i += 1;
    }
    assert(text::views(out@) =~= session_table(sessions@)) by {
        assert forall|k: int| 0 <= k < out@.len() implies text::views(out@)[k] == session_table(
            sessions@,
        )[k] by {
            if k > 0 {
                assert(out@[(k - 1) + 1]@ == session_row(sessions@[k - 1]));
            }
        }
    }
    out
}

// ---------------------------------------------------------------------------
// Ends

/// What a session command prints at its end.
#[derive(Debug)]
pub enum SessionEnd {
    /// Lines of output, and success.
    Lines(Vec<String>),
    /// The text of a value as output, and success.
    Value(String),
    /// The text of a value as an error, and failure.
    Failed(String),
}

/// What is known of a session, and its form as a value.
pub struct ShownSession {
    pub info: SessionInfo,
    pub value: Json,
}

/// The session's value is nested no deeper than what is read.
pub open spec fn showable(session: ShownSession) -> bool {
    json::shallow(session.value, json::MAX_READ_DEPTH as nat)
}

pub open spec fn views_of(values: Seq<Json>) -> Seq<JsonView> {
    values.map_values(|v: Json| json::json_view(v))
}

/// The sessions: as a value where that was asked for, else as a table.
pub fn session_list(json: bool, sessions: &Vec<SessionInfo>, values: Vec<Json>) -> (r: SessionEnd)
    requires
        forall|i: int|
            0 <= i < values@.len() ==> json::shallow(
                #[trigger] values@[i],
                json::MAX_READ_DEPTH as nat,
            ),
    ensures
        if json {
            r matches SessionEnd::Value(line) && line@ == json::json_text(
                JsonView::Object(seq![("sessions"@, JsonView::Array(views_of(values@)))]),
            )
        } else {
            r matches SessionEnd::Lines(lines) && text::views(lines@) == session_table(sessions@)
        },
{
    if json {
        let ghost all = values@;
        let listed = Json::Array(values);
        proof {
            json::lemma_array_view(listed, views_of(all));
            assert(json::shallow(listed, json::MAX_READ_DEPTH as nat + 1));
        }
        let mut o: Vec<(String, Json)> = Vec::new();
        o.push(json::field_of("sessions", listed));
        let value = Json::Object(o);
        proof {
            let depth = json::MAX_READ_DEPTH as nat;
            json::lemma_object_view(value, seq![("sessions"@, JsonView::Array(views_of(all)))]);
            assert(json::members_shallow(o@, depth + 1));
            json::lemma_shallower(value, depth + 2, json::MAX_WRITE_DEPTH as nat);
        }
        SessionEnd::Value(json::write_json(&value))
    } else {
        SessionEnd::Lines(print_session_table(sessions))
    }
}

/// The end of a command that did something to one session.
pub open spec fn ends_with(
    r: SessionEnd,
    done: Seq<char>,
    code: Seq<char>,
    json: bool,
    result: Result<ShownSession, String>,
) -> bool {
    match result {
        Ok(session) => if json {
            r matches SessionEnd::Value(line) && line@ == json::json_text(
                JsonView::Object(
                    seq![
                        (done, JsonView::Bool(true)),
                        ("session"@, json::json_view(session.value)),
                    ],
                ),
            )
        } else {
            r matches SessionEnd::Lines(lines) && text::views(lines@) == seq![
                done + " session "@ + session.info.name@,
            ]
        },
        Err(message) => r matches SessionEnd::Failed(line) && line@ == json::json_text(
            session_error_view(code, message@),
        ),
    }
}

fn session_end(
    done: &str,
    code: &str,
    json: bool,
    result: Result<ShownSession, String>,
) -> (r: SessionEnd)
    requires
        result matches Ok(session) ==> showable(session),
    ensures
        ends_with(r, done@, code@, json, result),
{
    match result {
        Ok(session) => {
            if json {
                let mut o: Vec<(String, Json)> = Vec::new();
                o.push(json::field_of(done, Json::Bool(true)));
                o.push(json::field_of("session", session.value));
                let value = Json::Object(o);
                proof {
                    let depth = json::MAX_READ_DEPTH as nat;
                    json::lemma_object_view(
                        value,
                        seq![
                            (done@, JsonView::Bool(true)),
                            ("session"@, json::json_view(session.value)),
                        ],
                    );
                    assert(json::members_shallow(o@, depth));
                    json::lemma_shallower(value, depth + 1, json::MAX_WRITE_DEPTH as nat);
                }
                SessionEnd::Value(json::write_json(&value))
            } else {
                let mut lines: Vec<String> = Vec::new();
                lines.push(super::concat3(done, " session ", session.info.name.as_str()));
                assert(text::views(lines@) =~= seq![done@ + " session "@ + session.info.name@]);
                SessionEnd::Lines(lines)
            }
        },
        Err(message) => SessionEnd::Failed(print_session_error(code, message.as_str())),
    }
}

/// A session was to be stopped: the name may be no session's, or stopping it may
/// have failed.
pub fn session_stop(json: bool, result: Result<Result<ShownSession, String>, String>) -> (r:
    SessionEnd)
    requires
        result matches Ok(Ok(session)) ==> showable(session),
    ensures
        match result {
            Err(message) => r matches SessionEnd::Failed(line) && line@ == json::json_text(
                session_error_view("invalid_session_name"@, message@),
            ),
            Ok(stopped) => ends_with(r, "stopped"@, "session_stop_failed"@, json, stopped),
        },
{
    match result {
        Err(message) => SessionEnd::Failed(
            print_session_error("invalid_session_name", message.as_str()),
        ),
        Ok(stopped) => session_end("stopped", "session_stop_failed", json, stopped),
    }
}

/// A session was to be deleted.
pub fn session_delete(json: bool, result: Result<ShownSession, String>) -> (r: SessionEnd)
    requires
        result matches Ok(session) ==> showable(session),
    ensures
        ends_with(r, "deleted"@, "session_delete_failed"@, json, result),
{
    session_end("deleted", "session_delete_failed", json, result)
}

} // verus!
