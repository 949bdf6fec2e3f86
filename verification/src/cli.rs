//! The command line: what each invocation asks for.
//!
//! A command's arguments are turned into a request, or into the way the command
//! ends. Sending the request and printing are left to the caller.

pub mod adding;
pub mod api;
pub mod asking;
pub mod bridging;
pub mod channel;
pub mod desktop;
pub mod mcp;
pub mod peer;
pub mod remote_resume;
pub mod session;
pub mod settling;
pub mod ssh;
pub mod terminal;
pub mod wait;

use vstd::prelude::*;
use vstd::string::*;

use crate::api::schema::common::{
    AgentStatus, Method, PaneAgentState, ReadFormat, ReadSource, Request, SplitDirection,
};
use crate::api::schema::peers::TerminalDelegateHandoffParams;
use crate::json::{self, Json};
use crate::text;

verus! {

/// What came of a command.
#[derive(Debug, Clone, Copy, PartialEq, Eq, Structural)]
pub enum CommandOutcome {
    Handled(i32),
    NotCli,
}

/// A help text.
#[derive(Debug, Clone, Copy, PartialEq, Eq, Structural)]
pub enum HelpTopic {
    Api,
    ApiSchema,
    Channel,
    Config,
    Mcp,
    Peer,
    Session,
    Terminal,
    Wait,
}

/// What the arguments of a command come to.
#[derive(Debug)]
pub enum Parsed<T> {
    /// Go on with this.
    Run(T),
    /// Print these lines as errors and exit.
    Exit { code: i32, lines: Vec<String> },
    /// Print a help text and exit.
    Help { topic: HelpTopic, code: i32 },
    /// Print this line as output and exit with success.
    Print(String),
    /// Fail with this message.
    Fail(String),
}

/// The meaning of a parse.
pub enum Verdict<T> {
    Run(T),
    Exit(i32, Seq<Seq<char>>),
    Help(HelpTopic, i32),
    Fail(Seq<char>),
}

pub open spec fn is_exit<T>(p: Parsed<T>, code: i32, lines: Seq<Seq<char>>) -> bool {
    p matches Parsed::Exit { code: c, lines: l } && c == code && text::views(l@) == lines
}

pub open spec fn is_fail<T>(p: Parsed<T>, message: Seq<char>) -> bool {
    p matches Parsed::Fail(m) && m@ == message
}

pub open spec fn is_print<T>(p: Parsed<T>, line: Seq<char>) -> bool {
    p matches Parsed::Print(l) && l@ == line
}

pub open spec fn is_help<T>(p: Parsed<T>, topic: HelpTopic, code: i32) -> bool {
    p == (Parsed::<T>::Help { topic, code })
}

pub(crate) fn exit1<T>(code: i32, line: &str) -> (p: Parsed<T>)
    ensures
        is_exit(p, code, seq![line@]),
{
    let mut lines: Vec<String> = Vec::new();
    lines.push(line.to_string());
    assert(text::views(lines@) =~= seq![line@]);
    Parsed::Exit { code, lines }
}

pub(crate) fn exit2<T>(code: i32, first: &str, second: &str) -> (p: Parsed<T>)
    ensures
        is_exit(p, code, seq![first@, second@]),
{
    let mut lines: Vec<String> = Vec::new();
    lines.push(first.to_string());
    lines.push(second.to_string());
    assert(text::views(lines@) =~= seq![first@, second@]);
    Parsed::Exit { code, lines }
}

pub(crate) fn concat(a: &str, b: &str) -> (r: String)
    ensures
        r@ == a@ + b@,
{
    let mut s = a.to_string();
    s.append(b);
    s
}

pub(crate) fn concat3(a: &str, b: &str, c: &str) -> (r: String)
    ensures
        r@ == a@ + b@ + c@,
{
    let mut s = a.to_string();
    s.append(b);
    s.append(c);
    s
}

pub open spec fn help_flag(a: Seq<char>) -> bool {
    a == "help"@ || a == "--help"@ || a == "-h"@
}

pub(crate) fn is_help_flag(a: &str) -> (r: bool)
    ensures
        r == help_flag(a@),
{
    text::str_eq(a, "help") || text::str_eq(a, "--help") || text::str_eq(a, "-h")
}

/// The arguments after the first `n`.
pub(crate) fn rest(args: &Vec<String>, n: usize) -> (r: Vec<String>)
    requires
        n <= args@.len(),
    ensures
        r@ == args@.skip(n as int),
{
    let mut out: Vec<String> = Vec::new();
    let mut i: usize = n;
    while i < args.len()
        invariant
            n <= i <= args@.len(),
            out@ == args@.subrange(n as int, i as int),
        decreases args@.len() - i,
    {
        out.push(args[i].clone());
        i += 1;
        assert(out@ =~= args@.subrange(n as int, i as int));
    }
    assert(out@ =~= args@.skip(n as int));
    out
}

/// A command of the command line.
#[derive(Debug, Clone, Copy, PartialEq, Eq, Structural)]
pub enum Command {
    Server,
    Api,
    Status,
    Completion,
    Config,
    Channel,
    Workspace,
    Worktree,
    Tab,
    Notification,
    Agent,
    Ssh,
    RemoteHandoff,
    Terminal,
    Pane,
    Peer,
    Plugin,
    Wait,
    Integration,
    Session,
}

pub open spec fn command_named(name: Seq<char>) -> Option<Command> {
    if name == "server"@ {
        Some(Command::Server)
    } else if name == "api"@ {
        Some(Command::Api)
    } else if name == "status"@ {
        Some(Command::Status)
    } else if name == "completion"@ || name == "completions"@ {
        Some(Command::Completion)
    } else if name == "config"@ {
        Some(Command::Config)
    } else if name == "channel"@ {
        Some(Command::Channel)
    } else if name == "workspace"@ {
        Some(Command::Workspace)
    } else if name == "worktree"@ {
        Some(Command::Worktree)
    } else if name == "tab"@ {
        Some(Command::Tab)
    } else if name == "notification"@ {
        Some(Command::Notification)
    } else if name == "agent"@ {
        Some(Command::Agent)
    } else if name == "ssh"@ {
        Some(Command::Ssh)
    } else if name == "remote-handoff"@ {
        Some(Command::RemoteHandoff)
    } else if name == "terminal"@ {
        Some(Command::Terminal)
    } else if name == "pane"@ {
        Some(Command::Pane)
    } else if name == "peer"@ {
        Some(Command::Peer)
    } else if name == "plugin"@ {
        Some(Command::Plugin)
    } else if name == "wait"@ {
        Some(Command::Wait)
    } else if name == "integration"@ {
        Some(Command::Integration)
    } else if name == "session"@ {
        Some(Command::Session)
    } else {
        None
    }
}

fn find_command(name: &str) -> (r: Option<Command>)
    ensures
        r == command_named(name@),
{
    if text::str_eq(name, "server") {
        Some(Command::Server)
    } else if text::str_eq(name, "api") {
        Some(Command::Api)
    } else if text::str_eq(name, "status") {
        Some(Command::Status)
    } else if text::str_eq(name, "completion") || text::str_eq(name, "completions") {
        Some(Command::Completion)
    } else if text::str_eq(name, "config") {
        Some(Command::Config)
    } else if text::str_eq(name, "channel") {
        Some(Command::Channel)
    } else if text::str_eq(name, "workspace") {
        Some(Command::Workspace)
    } else if text::str_eq(name, "worktree") {
        Some(Command::Worktree)
    } else if text::str_eq(name, "tab") {
        Some(Command::Tab)
    } else if text::str_eq(name, "notification") {
        Some(Command::Notification)
    } else if text::str_eq(name, "agent") {
        Some(Command::Agent)
    } else if text::str_eq(name, "ssh") {
        Some(Command::Ssh)
    } else if text::str_eq(name, "remote-handoff") {
        Some(Command::RemoteHandoff)
    } else if text::str_eq(name, "terminal") {
        Some(Command::Terminal)
    } else if text::str_eq(name, "pane") {
        Some(Command::Pane)
    } else if text::str_eq(name, "peer") {
        Some(Command::Peer)
    } else if text::str_eq(name, "plugin") {
        Some(Command::Plugin)
    } else if text::str_eq(name, "wait") {
        Some(Command::Wait)
    } else if text::str_eq(name, "integration") {
        Some(Command::Integration)
    } else if text::str_eq(name, "session") {
        Some(Command::Session)
    } else {
        None
    }
}

/// The command that a program's arguments name, with the arguments after it. No
/// command means that this is no use of the command line.
pub fn maybe_run(args: &Vec<String>) -> (r: Result<(Command, Vec<String>), CommandOutcome>)
    ensures
        if args@.len() < 2 {
            r == Err::<(Command, Vec<String>), CommandOutcome>(CommandOutcome::NotCli)
        } else {
            match command_named(args@[1]@) {
                Some(command) => r matches Ok((c, rest)) && c == command && rest@ == args@.skip(2),
                None => r == Err::<(Command, Vec<String>), CommandOutcome>(CommandOutcome::NotCli),
            }
        },
{
    if args.len() < 2 {
        return Err(CommandOutcome::NotCli);
    }
    match find_command(args[1].as_str()) {
        Some(command) => Ok((command, rest(args, 2))),
        None => Err(CommandOutcome::NotCli),
    }
}

/// What came of a command that ran. Only `server` may turn out to be none.
pub fn command_outcome(exit_code: Option<i32>) -> (r: CommandOutcome)
    ensures
        r == match exit_code {
            Some(code) => CommandOutcome::Handled(code),
            None => CommandOutcome::NotCli,
        },
{
    match exit_code {
        Some(code) => CommandOutcome::Handled(code),
        None => CommandOutcome::NotCli,
    }
}

pub open spec fn env_assignment(raw: Seq<char>) -> Result<(Seq<char>, Seq<char>), Seq<char>> {
    match text::split_first(raw, "="@) {
        None => Err("env must use KEY=VALUE"@),
        Some((key, value)) => if key.len() == 0 {
            Err("env key must not be empty"@)
        } else if key.contains('\0') || value.contains('\0') {
            Err("env must not contain NUL bytes"@)
        } else {
            Ok((key, value))
        },
    }
}

/// Reads `KEY=VALUE`; the value may be empty and may hold further equals signs.
pub fn parse_env_assignment(raw: &str) -> (r: Result<(String, String), String>)
    ensures
        match r {
            Ok((key, value)) => env_assignment(raw@)
                == Ok::<(Seq<char>, Seq<char>), Seq<char>>((key@, value@)),
            Err(e) => env_assignment(raw@) == Err::<(Seq<char>, Seq<char>), Seq<char>>(e@),
        },
{
    let (key, value) = match text::split_once(raw, "=") {
        Some(parts) => parts,
        None => return Err("env must use KEY=VALUE".to_string()),
    };
    if key.as_str().is_empty() {
        return Err("env key must not be empty".to_string());
    }
    if text::contains_char(key.as_str(), '\0') || text::contains_char(value.as_str(), '\0') {
        return Err("env must not contain NUL bytes".to_string());
    }
    Ok((key, value))
}

pub fn parse_split_direction(value: &str) -> (r: Result<SplitDirection, String>)
    ensures
        match r {
            Ok(SplitDirection::Right) => value@ == "right"@,
            Ok(SplitDirection::Down) => value@ == "down"@,
            Err(e) => value@ != "right"@ && value@ != "down"@ && e@
                == "invalid split direction: "@ + value@,
        },
{
    if text::str_eq(value, "right") {
        Ok(SplitDirection::Right)
    } else if text::str_eq(value, "down") {
        Ok(SplitDirection::Down)
    } else {
        Err(concat("invalid split direction: ", value))
    }
}

pub open spec fn read_source_named(value: Seq<char>) -> Option<ReadSource> {
    if value == "visible"@ {
        Some(ReadSource::Visible)
    } else if value == "recent"@ {
        Some(ReadSource::Recent)
    } else if value == "recent-unwrapped"@ || value == "recent_unwrapped"@ {
        Some(ReadSource::RecentUnwrapped)
    } else if value == "detection"@ {
        Some(ReadSource::Detection)
    } else {
        None
    }
}

pub fn parse_read_source(value: &str) -> (r: Result<ReadSource, String>)
    ensures
        match r {
            Ok(source) => read_source_named(value@) == Some(source),
            Err(e) => read_source_named(value@) is None && e@ == "invalid read source: "@ + value@,
        },
{
    if text::str_eq(value, "visible") {
        Ok(ReadSource::Visible)
    } else if text::str_eq(value, "recent") {
        Ok(ReadSource::Recent)
    } else if text::str_eq(value, "recent-unwrapped") || text::str_eq(value, "recent_unwrapped") {
        Ok(ReadSource::RecentUnwrapped)
    } else if text::str_eq(value, "detection") {
        Ok(ReadSource::Detection)
    } else {
        Err(concat("invalid read source: ", value))
    }
}

pub fn parse_read_format(value: &str) -> (r: Result<ReadFormat, String>)
    ensures
        match r {
            Ok(ReadFormat::Text) => value@ == "text"@,
            Ok(ReadFormat::Ansi) => value@ == "ansi"@,
            Err(e) => value@ != "text"@ && value@ != "ansi"@ && e@ == "invalid read format: "@
                + value@,
        },
{
    if text::str_eq(value, "text") {
        Ok(ReadFormat::Text)
    } else if text::str_eq(value, "ansi") {
        Ok(ReadFormat::Ansi)
    } else {
        Err(concat("invalid read format: ", value))
    }
}

pub open spec fn agent_status_named(value: Seq<char>) -> Option<AgentStatus> {
    if value == "idle"@ {
        Some(AgentStatus::Idle)
    } else if value == "working"@ {
        Some(AgentStatus::Working)
    } else if value == "blocked"@ {
        Some(AgentStatus::Blocked)
    } else if value == "done"@ {
        Some(AgentStatus::Done)
    } else if value == "unknown"@ {
        Some(AgentStatus::Unknown)
    } else {
        None
    }
}

pub open spec fn bad_agent_status(value: Seq<char>) -> Seq<char> {
    "invalid agent status: "@ + value + " (expected idle, working, blocked, done, or unknown)"@
}

pub fn parse_agent_status(value: &str) -> (r: Result<AgentStatus, String>)
    ensures
        match r {
            Ok(status) => agent_status_named(value@) == Some(status),
            Err(e) => agent_status_named(value@) is None && e@ == bad_agent_status(value@),
        },
{
    if text::str_eq(value, "idle") {
        Ok(AgentStatus::Idle)
    } else if text::str_eq(value, "working") {
        Ok(AgentStatus::Working)
    } else if text::str_eq(value, "blocked") {
        Ok(AgentStatus::Blocked)
    } else if text::str_eq(value, "done") {
        Ok(AgentStatus::Done)
    } else if text::str_eq(value, "unknown") {
        Ok(AgentStatus::Unknown)
    } else {
        Err(
            concat3(
                "invalid agent status: ",
                value,
                " (expected idle, working, blocked, done, or unknown)",
            ),
        )
    }
}

pub fn parse_pane_agent_state(value: &str) -> (r: Result<PaneAgentState, String>)
    ensures
        match r {
            Ok(PaneAgentState::Idle) => value@ == "idle"@,
            Ok(PaneAgentState::Working) => value@ == "working"@,
            Ok(PaneAgentState::Blocked) => value@ == "blocked"@,
            Ok(PaneAgentState::Unknown) => value@ == "unknown"@,
            Err(e) => value@ != "idle"@ && value@ != "working"@ && value@ != "blocked"@ && value@
                != "unknown"@ && e@ == "invalid pane agent state: "@ + value@
                + " (expected idle, working, blocked, or unknown)"@,
        },
{
    if text::str_eq(value, "idle") {
        Ok(PaneAgentState::Idle)
    } else if text::str_eq(value, "working") {
        Ok(PaneAgentState::Working)
    } else if text::str_eq(value, "blocked") {
        Ok(PaneAgentState::Blocked)
    } else if text::str_eq(value, "unknown") {
        Ok(PaneAgentState::Unknown)
    } else {
        Err(
            concat3(
                "invalid pane agent state: ",
                value,
                " (expected idle, working, blocked, or unknown)",
            ),
        )
    }
}

pub open spec fn bad_flag_value(flag: Seq<char>, value: Seq<char>) -> Seq<char> {
    "invalid value for "@ + flag + (": "@ + value)
}

fn flag_error(flag: &str, value: &str) -> (r: String)
    ensures
        r@ == bad_flag_value(flag@, value@),
{
    concat3("invalid value for ", flag, concat(": ", value).as_str())
}

pub fn parse_u32_flag(flag: &str, value: &str) -> (r: Result<u32, String>)
    ensures
        match r {
            Ok(n) => text::parsed_uint(value@, u32::MAX as nat) == Some(n as nat),
            Err(e) => text::parsed_uint(value@, u32::MAX as nat) is None && e@ == bad_flag_value(
                flag@,
                value@,
            ),
        },
{
    match text::parse_uint(value, u32::MAX as u64) {
        Some(n) => Ok(n as u32),
        None => Err(flag_error(flag, value)),
    }
}

pub fn parse_u64_flag(flag: &str, value: &str) -> (r: Result<u64, String>)
    ensures
        match r {
            Ok(n) => text::parsed_uint(value@, u64::MAX as nat) == Some(n as nat),
            Err(e) => text::parsed_uint(value@, u64::MAX as nat) is None && e@ == bad_flag_value(
                flag@,
                value@,
            ),
        },
{
    match text::parse_uint(value, u64::MAX) {
        Some(n) => Ok(n),
        None => Err(flag_error(flag, value)),
    }
}

pub open spec fn attach_target(args: Seq<String>, i: int, takeover: bool) -> Verdict<bool>
    decreases args.len() - i,
{
    if i >= args.len() {
        Verdict::Run(takeover)
    } else if args[i]@ == "--takeover"@ {
        attach_target(args, i + 1, true)
    } else if help_flag(args[i]@) {
        Verdict::Exit(0, seq![])
    } else {
        Verdict::Exit(2, seq!["unknown option: "@ + args[i]@])
    }
}

/// A target, perhaps followed by `--takeover`.
pub fn parse_attach_target(args: &Vec<String>, usage: &str) -> (r: Parsed<(String, bool)>)
    ensures
        if args@.len() == 0 {
            is_exit(r, 2, seq![usage@])
        } else {
            match attach_target(args@, 1, false) {
                Verdict::Run(takeover) => r matches Parsed::Run((target, t)) && target == args@[0]
                    && t == takeover,
                Verdict::Exit(code, lines) => is_exit(
                    r,
                    code,
                    if code == 0 {
                        seq![usage@]
                    } else {
                        lines
                    },
                ),
                _ => false,
            }
        },
{
    if args.len() == 0 {
        return exit1(2, usage);
    }
    let mut takeover = false;
    let mut i: usize = 1;
    while i < args.len()
        invariant
            1 <= i <= args@.len(),
            attach_target(args@, i as int, takeover) == attach_target(args@, 1, false),
        decreases args@.len() - i,
    {
        let arg = args[i].as_str();
        if text::str_eq(arg, "--takeover") {
            takeover = true;
        } else if is_help_flag(arg) {
            return exit1(0, usage);
        } else {
            return exit1(2, concat("unknown option: ", arg).as_str());
        }
        i += 1;
    }
    Parsed::Run((args[0].clone(), takeover))
}

// ---------------------------------------------------------------------------
// Answers

/// How a command ends whose answer is printed: an error goes where errors go.
#[derive(Debug)]
pub struct PrintedResponse {
    pub code: i32,
    pub as_error: bool,
    pub line: String,
}

pub fn print_response(response: &Json) -> (r: PrintedResponse)
    requires
        json::shallow(*response, json::MAX_WRITE_DEPTH as nat),
    ensures
        r.as_error == json::has(*response, "error"@),
        r.code == if r.as_error {
            1i32
        } else {
            0
        },
        r.line@ == json::json_text(json::json_view(*response)),
{
    let line = json::write_json(response);
    if response.get("error").is_some() {
        PrintedResponse { code: 1, as_error: true, line }
    } else {
        PrintedResponse { code: 0, as_error: false, line }
    }
}

/// What came of waiting for an event.
pub enum AwaitedEvent {
    Closed,
    Arrived(Json),
    TimedOut,
    /// The wait failed in another way.
    Failed(String),
}

/// How a command ends that waited for an event.
pub enum EventEnd {
    /// Print the event, which this is, and exit with success.
    PrintEvent(String),
    Exit { code: i32, line: String },
    Fail(String),
}

pub fn wait_for_agent_change(event: AwaitedEvent, timeout_message: &str) -> (r: EventEnd)
    requires
        event matches AwaitedEvent::Arrived(value) ==> json::shallow(
            value,
            json::MAX_WRITE_DEPTH as nat,
        ),
    ensures
        match event {
            AwaitedEvent::Closed => r matches EventEnd::Exit { code, line } && code == 1 && line@
                == "subscription closed before event arrived"@,
            AwaitedEvent::Arrived(value) => r matches EventEnd::PrintEvent(line) && line@
                == json::json_text(json::json_view(value)),
            AwaitedEvent::TimedOut => r matches EventEnd::Exit { code, line } && code == 1 && line@
                == timeout_message@,
            AwaitedEvent::Failed(err) => r == EventEnd::Fail(err),
        },
{
    match event {
        AwaitedEvent::Closed => EventEnd::Exit {
            code: 1,
            line: "subscription closed before event arrived".to_string(),
        },
        AwaitedEvent::Arrived(value) => EventEnd::PrintEvent(json::write_json(&value)),
        AwaitedEvent::TimedOut => EventEnd::Exit { code: 1, line: timeout_message.to_string() },
        AwaitedEvent::Failed(err) => EventEnd::Fail(err),
    }
}

// ---------------------------------------------------------------------------
// `herdr remote-handoff`

pub open spec fn handoff_usage() -> Seq<char> {
    "usage: herdr remote-handoff"@
}

/// The request that `remote-handoff` makes. `pane_id` is the pane that the
/// command runs in.
pub fn run_remote_handoff_command(args: &Vec<String>, pane_id: Option<String>) -> (r: Parsed<Request>)
    ensures
        if args@.len() > 0 {
            if help_flag(args@[0]@) {
                is_print(r, handoff_usage())
            } else {
                is_exit(r, 2, seq![handoff_usage()])
            }
        } else {
            match pane_id {
                Some(id) => if id@.len() == 0 {
                    is_exit(
                        r,
                        1,
                        seq!["remote-handoff must be run in the Herdr pane containing your cursor"@],
                    )
                } else {
                    r matches Parsed::Run(q) && q.id@ == "cli:remote-handoff"@ && (
                    q.method matches Method::TerminalDelegateHandoff(p) && p.pane_id == id)
                },
                None => is_exit(
                    r,
                    1,
                    seq!["remote-handoff must be run in the Herdr pane containing your cursor"@],
                ),
            }
        },
{
    if args.len() > 0 {
        if is_help_flag(args[0].as_str()) {
            return Parsed::Print("usage: herdr remote-handoff".to_string());
        }
        return exit1(2, "usage: herdr remote-handoff");
    }
    match pane_id {
        Some(pane_id) => {
            if pane_id.as_str().is_empty() {
                return exit1(
                    1,
                    "remote-handoff must be run in the Herdr pane containing your cursor",
                );
            }
            Parsed::Run(
                Request {
                    id: "cli:remote-handoff".to_string(),
                    method: Method::TerminalDelegateHandoff(
                        TerminalDelegateHandoffParams { pane_id },
                    ),
                },
            )
        },
        None => exit1(1, "remote-handoff must be run in the Herdr pane containing your cursor"),
    }
}

/// How `remote-handoff` ends.
pub fn remote_handoff_end(response: &Json) -> (r: Parsed<()>)
    ensures
        match json::as_text(json::member(json::member(*response, "error"@), "message"@)) {
            Some(message) => is_exit(r, 1, seq!["remote-handoff failed: "@ + message]),
            None => is_print(r, "remote pane handed off to a new workspace on this machine"@),
        },
{
    let message = match response.get("error") {
        Some(error) => error.text_member("message"),
        None => None,
    };
    match message {
        Some(message) => exit1(1, concat("remote-handoff failed: ", message).as_str()),
        None => Parsed::Print(
            "remote pane handed off to a new workspace on this machine".to_string(),
        ),
    }
}

} // verus!
