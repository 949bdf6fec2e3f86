//! `herdr terminal`.

use vstd::prelude::*;
use vstd::string::*;

use super::{HelpTopic, Parsed, Verdict};
use crate::api::schema::common::{ClientWindowTitleSetParams, Method, Request, TabCreateParams};
use crate::api::schema::peers::TerminalDelegationClaim;
use crate::json::{self, Json};
use crate::text;

verus! {

pub enum TerminalCommand {
    Attach(Vec<String>),
    Shell(Vec<String>),
    Session(Vec<String>),
    Title(Vec<String>),
}

pub fn run_terminal_command(args: &Vec<String>) -> (r: Parsed<TerminalCommand>)
    ensures
        if args@.len() == 0 {
            super::is_help(r, HelpTopic::Terminal, 2)
        } else if args@[0]@ == "attach"@ {
            r matches Parsed::Run(TerminalCommand::Attach(rest)) && rest@ == args@.skip(1)
        } else if args@[0]@ == "shell"@ {
            r matches Parsed::Run(TerminalCommand::Shell(rest)) && rest@ == args@.skip(1)
        } else if args@[0]@ == "session"@ {
            r matches Parsed::Run(TerminalCommand::Session(rest)) && rest@ == args@.skip(1)
        } else if args@[0]@ == "title"@ {
            r matches Parsed::Run(TerminalCommand::Title(rest)) && rest@ == args@.skip(1)
        } else {
            super::is_help(
                r,
                HelpTopic::Terminal,
                if super::help_flag(args@[0]@) {
                    0
                } else {
                    2
                },
            )
        },
{
    if args.len() == 0 {
        return Parsed::Help { topic: HelpTopic::Terminal, code: 2 };
    }
    let name = args[0].as_str();
    if text::str_eq(name, "attach") {
        Parsed::Run(TerminalCommand::Attach(super::rest(args, 1)))
    } else if text::str_eq(name, "shell") {
        Parsed::Run(TerminalCommand::Shell(super::rest(args, 1)))
    } else if text::str_eq(name, "session") {
        Parsed::Run(TerminalCommand::Session(super::rest(args, 1)))
    } else if text::str_eq(name, "title") {
        Parsed::Run(TerminalCommand::Title(super::rest(args, 1)))
    } else if super::is_help_flag(name) {
        Parsed::Help { topic: HelpTopic::Terminal, code: 0 }
    } else {
        Parsed::Help { topic: HelpTopic::Terminal, code: 2 }
    }
}

// ---------------------------------------------------------------------------
// Shells

/// The variables that a new shell gets: all but Herdr's own.
pub open spec fn not_own() -> spec_fn((String, String)) -> bool {
    |row: (String, String)| !text::has_prefix(row.0@, "HERDR_"@)
}

pub open spec fn asks_shell(
    q: Request,
    label: Option<Seq<char>>,
    cwd: Option<String>,
    env: Seq<(String, String)>,
) -> bool {
    q.id@ == "cli:terminal:shell"@ && (q.method matches Method::TabCreate(p) && p.workspace_id
        is None && p.cwd == cwd && !p.focus && text::opt_view(p.label) == label && p.env@
        == env.filter(not_own()))
}

fn without_own(env: Vec<(String, String)>) -> (r: Vec<(String, String)>)
    ensures
        r@ == env@.filter(not_own()),
{
    let mut rest = env;
    let ghost all = rest@;
    let mut out: Vec<(String, String)> = Vec::new();
    let ghost mut n: int = 0;
    proof {
        reveal(Seq::filter);
        assert(all.take(0) =~= Seq::<(String, String)>::empty());
    }
    while rest.len() > 0
        invariant
            0 <= n <= all.len(),
            rest@ == all.skip(n),
            out@ == all.take(n).filter(not_own()),
        decreases rest@.len(),
    {
        let row = rest.remove(0);
        proof {
            assert(row == all[n]);
            assert(rest@ =~= all.skip(n + 1));
            assert(all.take(n + 1).drop_last() =~= all.take(n));
            assert(all.take(n + 1).last() == all[n]);
            reveal(Seq::filter);
            n = n + 1;
        }
        if !text::prefixed(row.0.as_str(), "HERDR_") {
            out.push(row);
        }
    }
    assert(all.take(n) =~= all);
    out
}

/// The request for a new shell, in the directory and with the variables of this
/// one.
pub fn terminal_shell(
    args: &Vec<String>,
    cwd: Option<String>,
    env: Vec<(String, String)>,
) -> (r: Parsed<Request>)
    ensures
        if args@.len() == 0 {
            r matches Parsed::Run(q) && asks_shell(q, None, cwd, env@)
        } else if args@.len() == 2 && args@[0]@ == "--label"@ && args@[1]@.len() > 0 {
            r matches Parsed::Run(q) && asks_shell(q, Some(args@[1]@), cwd, env@)
        } else {
            super::is_exit(r, 2, seq!["usage: herdr terminal shell [--label LABEL]"@])
        },
{
    let label = if args.len() == 0 {
        None
    } else if args.len() == 2 && text::str_eq(args[0].as_str(), "--label")
        && !args[1].as_str().is_empty() {
        Some(args[1].clone())
    } else {
        return super::exit1(2, "usage: herdr terminal shell [--label LABEL]");
    };
    Parsed::Run(
        Request {
            id: "cli:terminal:shell".to_string(),
            method: Method::TabCreate(
                TabCreateParams {
                    workspace_id: None,
                    cwd,
                    focus: false,
                    label,
                    env: without_own(env),
                },
            ),
        },
    )
}

/// What follows the answer to a request for a shell.
pub enum ShellStep {
    Attach(String),
    /// Print the answer, which `line` is, as an error and exit.
    PrintResponse { code: i32, line: String },
    Exit { code: i32, line: String },
}

/// Attaches to the terminal that the answer names.
pub fn attach_to_shell(response: &Json) -> (r: ShellStep)
    requires
        json::shallow(*response, json::MAX_WRITE_DEPTH as nat),
    ensures
        if json::has(*response, "error"@) {
            r matches ShellStep::PrintResponse { code, line } && code == 1 && line@
                == json::json_text(json::json_view(*response))
        } else {
            match json::as_text(
                json::member(
                    json::member(json::member(*response, "result"@), "root_pane"@),
                    "terminal_id"@,
                ),
            ) {
                Some(id) => r matches ShellStep::Attach(t) && t@ == id,
                None => r matches ShellStep::Exit { code, line } && code == 1 && line@
                    == "terminal shell failed: tab.create response did not include a terminal id"@,
            }
        },
{
    if response.get("error").is_some() {
        return ShellStep::PrintResponse { code: 1, line: json::write_json(response) };
    }
    let found = match response.get("result") {
        Some(result) => match result.get("root_pane") {
            Some(pane) => pane.text_member("terminal_id"),
            None => None,
        },
        None => None,
    };
    match found {
        Some(id) => ShellStep::Attach(id.to_string()),
        None => ShellStep::Exit {
            code: 1,
            line: "terminal shell failed: tab.create response did not include a terminal id".to_string(),
        },
    }
}

// ---------------------------------------------------------------------------
// Attaching

pub struct AttachArgs {
    pub terminal_id: String,
    pub takeover: bool,
    pub delegation: Option<TerminalDelegationClaim>,
}

pub struct AttachOptions {
    pub takeover: bool,
    pub delegation_id: Option<Seq<char>>,
    pub delegation_epoch: Option<u64>,
}

pub open spec fn attach_usage() -> Seq<char> {
    "usage: herdr terminal attach <terminal_id> [--takeover]"@
}

/// The options from the `i`-th argument on. Of an option that is repeated the
/// last one counts.
pub open spec fn attach_options(args: Seq<String>, i: int, o: AttachOptions) -> Verdict<
    AttachOptions,
>
    decreases args.len() - i,
{
    if i >= args.len() {
        Verdict::Run(o)
    } else if args[i]@ == "--takeover"@ {
        attach_options(args, i + 1, AttachOptions { takeover: true, ..o })
    } else if args[i]@ == "--delegation"@ {
        if i + 1 < args.len() {
            attach_options(
                args,
                i + 2,
                AttachOptions { delegation_id: Some(args[i + 1]@), ..o },
            )
        } else {
            Verdict::Exit(2, seq!["missing value for --delegation"@])
        }
    } else if args[i]@ == "--delegation-epoch"@ {
        if i + 1 < args.len() {
            match text::parsed_uint(args[i + 1]@, u64::MAX as nat) {
                Some(n) => attach_options(
                    args,
                    i + 2,
                    AttachOptions { delegation_epoch: Some(n as u64), ..o },
                ),
                None => Verdict::Exit(
                    2,
                    seq!["invalid value for --delegation-epoch: "@ + args[i + 1]@],
                ),
            }
        } else {
            Verdict::Exit(2, seq!["missing value for --delegation-epoch"@])
        }
    } else {
        Verdict::Exit(2, seq![attach_usage()])
    }
}

pub open spec fn attach_plain() -> AttachOptions {
    AttachOptions { takeover: false, delegation_id: None, delegation_epoch: None }
}

/// What `terminal attach` attaches to.
pub fn terminal_attach(args: &Vec<String>) -> (r: Parsed<AttachArgs>)
    ensures
        if args@.len() == 0 || text::has_prefix(args@[0]@, "-"@) {
            super::is_exit(r, 2, seq![attach_usage()])
        } else {
            match attach_options(args@, 1, attach_plain()) {
                Verdict::Run(o) => match (o.delegation_id, o.delegation_epoch) {
                    (None, None) => r matches Parsed::Run(p) && p.terminal_id@ == args@[0]@
                        && p.takeover == o.takeover && p.delegation is None,
                    (Some(id), Some(epoch)) => r matches Parsed::Run(p) && p.terminal_id@
                        == args@[0]@ && p.takeover == o.takeover && text::viewed(p.delegation)
                        == Some((id, epoch)),
                    _ => super::is_exit(
                        r,
                        2,
                        seq!["--delegation and --delegation-epoch must be used together"@],
                    ),
                },
                Verdict::Exit(code, lines) => super::is_exit(r, code, lines),
                _ => false,
            }
        },
{
    let n: usize = args.len();
    if n == 0 || text::prefixed(args[0].as_str(), "-") {
        return super::exit1(2, "usage: herdr terminal attach <terminal_id> [--takeover]");
    }
    let mut takeover = false;
    let mut delegation_id: Option<String> = None;
    let mut delegation_epoch: Option<u64> = None;
    let mut i: usize = 1;
    while i < n
        invariant
            1 <= i <= n == args@.len(),
            !text::has_prefix(args@[0]@, "-"@),
            attach_options(
                args@,
                i as int,
                AttachOptions {
                    takeover,
                    delegation_id: text::opt_view(delegation_id),
                    delegation_epoch,
                },
            ) == attach_options(args@, 1, attach_plain()),
        decreases n - i,
    {
        let arg = args[i].as_str();
        if text::str_eq(arg, "--takeover") {
            takeover = true;
            i += 1;
        } else if text::str_eq(arg, "--delegation") {
            if n - i < 2 {
                return super::exit1(2, "missing value for --delegation");
            }
            delegation_id = Some(args[i + 1].clone());
            i += 2;
        } else if text::str_eq(arg, "--delegation-epoch") {
            if n - i < 2 {
                return super::exit1(2, "missing value for --delegation-epoch");
            }
            let value = args[i + 1].as_str();
            match text::parse_uint(value, u64::MAX) {
                Some(epoch) => {
                    delegation_epoch = Some(epoch);
                },
                None => return super::exit1(
                    2,
                    super::concat("invalid value for --delegation-epoch: ", value).as_str(),
                ),
            }
            i += 2;
        } else {
            return super::exit1(2, "usage: herdr terminal attach <terminal_id> [--takeover]");
        }
    }
    let delegation = match (delegation_id, delegation_epoch) {
        (None, None) => None,
        (Some(delegation_id), Some(epoch)) => Some(
            TerminalDelegationClaim { delegation_id, epoch },
        ),
        _ => return super::exit1(
            2,
            "--delegation and --delegation-epoch must be used together",
        ),
    };
    Parsed::Run(AttachArgs { terminal_id: args[0].clone(), takeover, delegation })
}

/// Why a terminal cannot be attached to on this platform.
pub fn attach_unsupported(windows: bool, args: &AttachArgs) -> (r: Option<&'static str>)
    ensures
        if windows && args.delegation is Some {
            r matches Some(m) && m@ == "remote terminal delegation is not supported on Windows yet"@
        } else {
            r is None
        },
{
    if windows && args.delegation.is_some() {
        Some("remote terminal delegation is not supported on Windows yet")
    } else {
        None
    }
}

// ---------------------------------------------------------------------------
// Sessions

pub open spec fn control_usage() -> Seq<char> {
    "usage: herdr terminal session control <target> [--takeover] [--cols N] [--rows N]"@
}

pub open spec fn observe_usage() -> Seq<char> {
    "usage: herdr terminal session observe <target> [--cols N] [--rows N]"@
}

#[derive(Debug)]
pub struct TerminalSessionOptions {
    pub target: String,
    pub cols: u16,
    pub rows: u16,
    pub takeover: bool,
}

pub struct SessionSize {
    pub cols: u16,
    pub rows: u16,
    pub takeover: bool,
}

pub const DEFAULT_COLS: u16 = 120;

pub const DEFAULT_ROWS: u16 = 40;

/// A number of columns or rows, or what is wrong with it.
pub open spec fn dimension(raw: Seq<char>, flag: Seq<char>) -> Result<u16, Seq<char>> {
    match text::parsed_uint(raw, u16::MAX as nat) {
        None => Err(flag + " must be an integer between 1 and 65535"@),
        Some(n) => if n == 0 {
            Err(flag + " must be greater than 0"@)
        } else {
            Ok(n as u16)
        },
    }
}

pub fn parse_terminal_dimension(raw: &str, flag: &str) -> (r: Result<u16, String>)
    ensures
        match r {
            Ok(n) => dimension(raw@, flag@) == Ok::<u16, Seq<char>>(n),
            Err(e) => dimension(raw@, flag@) == Err::<u16, Seq<char>>(e@),
        },
{
    match text::parse_uint(raw, 65535) {
        None => Err(super::concat(flag, " must be an integer between 1 and 65535")),
        Some(n) => if n == 0 {
            Err(super::concat(flag, " must be greater than 0"))
        } else {
            Ok(n as u16)
        },
    }
}

/// The options from the `i`-th argument on.
pub open spec fn session_options(
    args: Seq<String>,
    i: int,
    o: SessionSize,
    usage: Seq<char>,
    command: Seq<char>,
    allow_takeover: bool,
) -> Verdict<SessionSize>
    decreases args.len() - i,
{
    if i >= args.len() {
        Verdict::Run(o)
    } else if args[i]@ == "--takeover"@ && allow_takeover {
        session_options(
            args,
            i + 1,
            SessionSize { takeover: true, ..o },
            usage,
            command,
            allow_takeover,
        )
    } else if args[i]@ == "--cols"@ {
        if i + 1 >= args.len() {
            Verdict::Exit(2, seq![usage])
        } else {
            match dimension(args[i + 1]@, "--cols"@) {
                Ok(cols) => session_options(
                    args,
                    i + 2,
                    SessionSize { cols, ..o },
                    usage,
                    command,
                    allow_takeover,
                ),
                Err(e) => Verdict::Fail(e),
            }
        }
    } else if args[i]@ == "--rows"@ {
        if i + 1 >= args.len() {
            Verdict::Exit(2, seq![usage])
        } else {
            match dimension(args[i + 1]@, "--rows"@) {
                Ok(rows) => session_options(
                    args,
                    i + 2,
                    SessionSize { rows, ..o },
                    usage,
                    command,
                    allow_takeover,
                ),
                Err(e) => Verdict::Fail(e),
            }
        }
    } else if super::help_flag(args[i]@) {
        Verdict::Exit(0, seq![usage])
    } else {
        Verdict::Exit(
            2,
            seq!["unknown terminal session "@ + command + " option: "@ + args[i]@, usage],
        )
    }
}

pub open spec fn default_size() -> SessionSize {
    SessionSize { cols: DEFAULT_COLS, rows: DEFAULT_ROWS, takeover: false }
}

/// What the arguments of a session command come to.
pub open spec fn session_parsed(
    args: Seq<String>,
    usage: Seq<char>,
    command: Seq<char>,
    allow_takeover: bool,
) -> Verdict<SessionSize> {
    if args.len() == 0 {
        Verdict::Exit(2, seq![usage])
    } else if super::help_flag(args[0]@) {
        Verdict::Exit(0, seq![usage])
    } else {
        session_options(args, 1, default_size(), usage, command, allow_takeover)
    }
}

pub open spec fn has_session(
    r: Parsed<TerminalSessionOptions>,
    v: Verdict<SessionSize>,
    args: Seq<String>,
) -> bool {
    match v {
        Verdict::Run(o) => r matches Parsed::Run(p) && p.target@ == args[0]@ && p.cols == o.cols
            && p.rows == o.rows && p.takeover == o.takeover,
        Verdict::Exit(code, lines) => super::is_exit(r, code, lines),
        Verdict::Fail(message) => super::is_fail(r, message),
        Verdict::Help(_, _) => false,
    }
}

fn unknown_option(command: &str, option: &str, usage: &str) -> (r: Parsed<TerminalSessionOptions>)
    ensures
        super::is_exit(
            r,
            2,
            seq!["unknown terminal session "@ + command@ + " option: "@ + option@, usage@],
        ),
{
    let mut line = super::concat3("unknown terminal session ", command, " option: ");
    line.append(option);
    super::exit2(2, line.as_str(), usage)
}

pub fn parse_terminal_session_options(
    args: &Vec<String>,
    usage: &str,
    command: &str,
    allow_takeover: bool,
) -> (r: Parsed<TerminalSessionOptions>)
    ensures
        has_session(r, session_parsed(args@, usage@, command@, allow_takeover), args@),
{
    let n: usize = args.len();
    if n == 0 {
        return super::exit1(2, usage);
    }
    if super::is_help_flag(args[0].as_str()) {
        return super::exit1(0, usage);
    }
    let mut cols: u16 = DEFAULT_COLS;
    let mut rows: u16 = DEFAULT_ROWS;
    let mut takeover = false;
    let mut i: usize = 1;
    while i < n
        invariant
            1 <= i <= n == args@.len(),
            session_options(
                args@,
                i as int,
                SessionSize { cols, rows, takeover },
                usage@,
                command@,
                allow_takeover,
            ) == session_options(args@, 1, default_size(), usage@, command@, allow_takeover),
            session_parsed(args@, usage@, command@, allow_takeover) == session_options(
                args@,
                1,
                default_size(),
                usage@,
                command@,
                allow_takeover,
            ),
        decreases n - i,
    {
        let arg = args[i].as_str();
        if text::str_eq(arg, "--takeover") && allow_takeover {
            takeover = true;
            i += 1;
        } else if text::str_eq(arg, "--cols") {
            if n - i < 2 {
                return super::exit1(2, usage);
            }
            match parse_terminal_dimension(args[i + 1].as_str(), "--cols") {
                Ok(value) => {
                    cols = value;
                },
                Err(e) => return Parsed::Fail(e),
            }
            i += 2;
        } else if text::str_eq(arg, "--rows") {
            if n - i < 2 {
                return super::exit1(2, usage);
            }
            match parse_terminal_dimension(args[i + 1].as_str(), "--rows") {
                Ok(value) => {
                    rows = value;
                },
                Err(e) => return Parsed::Fail(e),
            }
            i += 2;
        } else if super::is_help_flag(arg) {
            return super::exit1(0, usage);
        } else {
            return unknown_option(command, arg, usage);
        }
    }
    Parsed::Run(TerminalSessionOptions { target: args[0].clone(), cols, rows, takeover })
}

pub enum SessionMode {
    Control(TerminalSessionOptions),
    Observe(TerminalSessionOptions),
}

fn controlling(p: Parsed<TerminalSessionOptions>) -> (r: Parsed<SessionMode>)
    ensures
        match p {
            Parsed::Run(o) => r == Parsed::<SessionMode>::Run(SessionMode::Control(o)),
            Parsed::Exit { code, lines } => r == (Parsed::<SessionMode>::Exit { code, lines }),
            Parsed::Help { topic, code } => r == (Parsed::<SessionMode>::Help { topic, code }),
            Parsed::Print(line) => r == Parsed::<SessionMode>::Print(line),
            Parsed::Fail(message) => r == Parsed::<SessionMode>::Fail(message),
        },
{
    match p {
        Parsed::Run(o) => Parsed::Run(SessionMode::Control(o)),
        Parsed::Exit { code, lines } => Parsed::Exit { code, lines },
        Parsed::Help { topic, code } => Parsed::Help { topic, code },
        Parsed::Print(line) => Parsed::Print(line),
        Parsed::Fail(message) => Parsed::Fail(message),
    }
}

fn observing(p: Parsed<TerminalSessionOptions>) -> (r: Parsed<SessionMode>)
    ensures
        match p {
            Parsed::Run(o) => r == Parsed::<SessionMode>::Run(SessionMode::Observe(o)),
            Parsed::Exit { code, lines } => r == (Parsed::<SessionMode>::Exit { code, lines }),
            Parsed::Help { topic, code } => r == (Parsed::<SessionMode>::Help { topic, code }),
            Parsed::Print(line) => r == Parsed::<SessionMode>::Print(line),
            Parsed::Fail(message) => r == Parsed::<SessionMode>::Fail(message),
        },
{
    match p {
        Parsed::Run(o) => Parsed::Run(SessionMode::Observe(o)),
        Parsed::Exit { code, lines } => Parsed::Exit { code, lines },
        Parsed::Help { topic, code } => Parsed::Help { topic, code },
        Parsed::Print(line) => Parsed::Print(line),
        Parsed::Fail(message) => Parsed::Fail(message),
    }
}

/// `r` takes up a session as the verdict says.
pub open spec fn takes_session(
    r: Parsed<SessionMode>,
    v: Verdict<SessionSize>,
    args: Seq<String>,
    control: bool,
) -> bool {
    match v {
        Verdict::Run(o) => if control {
            r matches Parsed::Run(SessionMode::Control(p)) && p.target@ == args[0]@ && p.cols
                == o.cols && p.rows == o.rows && p.takeover == o.takeover
        } else {
            r matches Parsed::Run(SessionMode::Observe(p)) && p.target@ == args[0]@ && p.cols
                == o.cols && p.rows == o.rows && p.takeover == o.takeover
        },
        Verdict::Exit(code, lines) => super::is_exit(r, code, lines),
        Verdict::Fail(message) => super::is_fail(r, message),
        Verdict::Help(_, _) => false,
    }
}

/// The session that is controlled or watched.
pub fn terminal_session(args: &Vec<String>) -> (r: Parsed<SessionMode>)
    ensures
        if args@.len() > 0 && args@[0]@ == "control"@ {
            takes_session(
                r,
                session_parsed(args@.skip(1), control_usage(), "control"@, true),
                args@.skip(1),
                true,
            )
        } else if args@.len() > 0 && args@[0]@ == "observe"@ {
            takes_session(
                r,
                session_parsed(args@.skip(1), observe_usage(), "observe"@, false),
                args@.skip(1),
                false,
            )
        } else {
            super::is_exit(
                r,
                if args@.len() > 0 && super::help_flag(args@[0]@) {
                    0
                } else {
                    2
                },
                seq![control_usage(), observe_usage()],
            )
        },
{
    let control_text =
        "usage: herdr terminal session control <target> [--takeover] [--cols N] [--rows N]";
    let observe_text = "usage: herdr terminal session observe <target> [--cols N] [--rows N]";
    if args.len() == 0 {
        return super::exit2(2, control_text, observe_text);
    }
    let name = args[0].as_str();
    if text::str_eq(name, "control") {
        let rest = super::rest(args, 1);
        return controlling(
            parse_terminal_session_options(&rest, control_text, "control", true),
        );
    }
    if text::str_eq(name, "observe") {
        let rest = super::rest(args, 1);
        return observing(
            parse_terminal_session_options(&rest, observe_text, "observe", false),
        );
    }
    if super::is_help_flag(name) {
        return super::exit2(0, control_text, observe_text);
    }
    super::exit2(2, control_text, observe_text)
}

// ---------------------------------------------------------------------------
// Titles

pub open spec fn title_usage() -> Seq<Seq<char>> {
    seq!["usage: herdr terminal title set <title>"@, "       herdr terminal title clear"@]
}

/// The request that `terminal title` makes.
pub fn terminal_title(args: &Vec<String>) -> (r: Parsed<Request>)
    ensures
        if args@.len() > 0 && args@[0]@ == "set"@ {
            if args@.len() == 2 {
                r matches Parsed::Run(q) && q.id@ == "cli:terminal:title:set"@ && (
                q.method matches Method::ClientWindowTitleSet(p) && p.title@ == args@[1]@)
            } else {
                super::is_exit(r, 2, seq!["usage: herdr terminal title set <title>"@])
            }
        } else if args@.len() > 0 && args@[0]@ == "clear"@ {
            if args@.len() == 1 {
                r matches Parsed::Run(q) && q.id@ == "cli:terminal:title:clear"@
                    && (q.method matches Method::ClientWindowTitleClear(p)
                    && json::is_empty_object(p))
            } else {
                super::is_exit(r, 2, seq!["usage: herdr terminal title clear"@])
            }
        } else {
            super::is_exit(
                r,
                if args@.len() > 0 && super::help_flag(args@[0]@) {
                    0
                } else {
                    2
                },
                title_usage(),
            )
        },
{
    let set_text = "usage: herdr terminal title set <title>";
    let clear_text = "       herdr terminal title clear";
    let n: usize = args.len();
    if n == 0 {
        return super::exit2(2, set_text, clear_text);
    }
    let name = args[0].as_str();
    if text::str_eq(name, "set") {
        if n != 2 {
            return super::exit1(2, set_text);
        }
        return Parsed::Run(
            Request {
                id: "cli:terminal:title:set".to_string(),
                method: Method::ClientWindowTitleSet(
                    ClientWindowTitleSetParams { title: args[1].clone() },
                ),
            },
        );
    }
    if text::str_eq(name, "clear") {
        if n != 1 {
            return super::exit1(2, "usage: herdr terminal title clear");
        }
        return Parsed::Run(
            Request {
                id: "cli:terminal:title:clear".to_string(),
                method: Method::ClientWindowTitleClear(Json::Object(Vec::new())),
            },
        );
    }
    if super::is_help_flag(name) {
        return super::exit2(0, set_text, clear_text);
    }
    super::exit2(2, set_text, clear_text)
}

} // verus!
