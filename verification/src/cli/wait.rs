//! `herdr wait`.

use vstd::prelude::*;
use vstd::string::*;

use super::{HelpTopic, Parsed, Verdict};
use crate::api::schema::common::{
    AgentStatus, OutputMatch, PaneWaitForOutputParams, ReadSource, Subscription,
};
use crate::text;

verus! {

/// What `wait` is to wait for.
pub enum WaitCommand {
    Output(Vec<String>),
    AgentStatus(Vec<String>),
}

pub fn run_wait_command(args: &Vec<String>) -> (r: Parsed<WaitCommand>)
    ensures
        if args@.len() == 0 {
            super::is_help(r, HelpTopic::Wait, 2)
        } else if args@[0]@ == "output"@ {
            r matches Parsed::Run(WaitCommand::Output(rest)) && rest@ == args@.skip(1)
        } else if args@[0]@ == "agent-status"@ {
            r matches Parsed::Run(WaitCommand::AgentStatus(rest)) && rest@ == args@.skip(1)
        } else {
            super::is_help(
                r,
                HelpTopic::Wait,
                if super::help_flag(args@[0]@) {
                    0
                } else {
                    2
                },
            )
        },
{
    if args.len() == 0 {
        return Parsed::Help { topic: HelpTopic::Wait, code: 2 };
    }
    let name = args[0].as_str();
    if text::str_eq(name, "output") {
        Parsed::Run(WaitCommand::Output(super::rest(args, 1)))
    } else if text::str_eq(name, "agent-status") {
        Parsed::Run(WaitCommand::AgentStatus(super::rest(args, 1)))
    } else if super::is_help_flag(name) {
        Parsed::Help { topic: HelpTopic::Wait, code: 0 }
    } else {
        Parsed::Help { topic: HelpTopic::Wait, code: 2 }
    }
}

pub open spec fn output_usage() -> Seq<char> {
    "usage: herdr wait output <pane_id> --match <text> [--source visible|recent|recent-unwrapped] [--lines N] [--timeout MS] [--regex]"@
}

pub open spec fn status_usage() -> Seq<char> {
    "usage: herdr wait agent-status <pane_id> --status <idle|working|blocked|done|unknown> [--timeout MS]"@
}

/// The options of `wait output`.
pub struct OutputOptions {
    pub source: ReadSource,
    pub lines: Option<u32>,
    pub timeout_ms: Option<u64>,
    pub strip_ansi: bool,
    pub regex: bool,
    pub value: Option<Seq<char>>,
}

pub open spec fn default_output_options() -> OutputOptions {
    OutputOptions {
        source: ReadSource::Recent,
        lines: None,
        timeout_ms: None,
        strip_ansi: true,
        regex: false,
        value: None,
    }
}

pub open spec fn missing_value<T>(flag: Seq<char>) -> Verdict<T> {
    Verdict::Exit(2, seq!["missing value for "@ + flag])
}

/// The options from the `i`-th argument on. Of an option that is repeated the
/// last one counts.
pub open spec fn output_options(args: Seq<String>, i: int, o: OutputOptions) -> Verdict<
    OutputOptions,
>
    decreases args.len() - i,
{
    if i >= args.len() {
        Verdict::Run(o)
    } else if args[i]@ == "--regex"@ {
        output_options(args, i + 1, OutputOptions { regex: true, ..o })
    } else if args[i]@ == "--raw"@ {
        output_options(args, i + 1, OutputOptions { strip_ansi: false, ..o })
    } else if args[i]@ == "--match"@ {
        if i + 1 < args.len() {
            output_options(args, i + 2, OutputOptions { value: Some(args[i + 1]@), ..o })
        } else {
            missing_value("--match"@)
        }
    } else if args[i]@ == "--source"@ {
        if i + 1 < args.len() {
            match super::read_source_named(args[i + 1]@) {
                Some(source) => output_options(args, i + 2, OutputOptions { source, ..o }),
                None => Verdict::Fail("invalid read source: "@ + args[i + 1]@),
            }
        } else {
            missing_value("--source"@)
        }
    } else if args[i]@ == "--lines"@ {
        if i + 1 < args.len() {
            match text::parsed_uint(args[i + 1]@, u32::MAX as nat) {
                Some(n) => output_options(
                    args,
                    i + 2,
                    OutputOptions { lines: Some(n as u32), ..o },
                ),
                None => Verdict::Fail(super::bad_flag_value("--lines"@, args[i + 1]@)),
            }
        } else {
            missing_value("--lines"@)
        }
    } else if args[i]@ == "--timeout"@ {
        if i + 1 < args.len() {
            match text::parsed_uint(args[i + 1]@, u64::MAX as nat) {
                Some(n) => output_options(
                    args,
                    i + 2,
                    OutputOptions { timeout_ms: Some(n as u64), ..o },
                ),
                None => Verdict::Fail(super::bad_flag_value("--timeout"@, args[i + 1]@)),
            }
        } else {
            missing_value("--timeout"@)
        }
    } else {
        Verdict::Exit(2, seq!["unknown option: "@ + args[i]@])
    }
}

/// `p` asks for what the options say.
pub open spec fn asks_for(p: PaneWaitForOutputParams, pane_id: Seq<char>, o: OutputOptions) -> bool {
    &&& p.pane_id@ == pane_id
    &&& p.source == o.source
    &&& p.lines == o.lines
    &&& p.timeout_ms == o.timeout_ms
    &&& p.strip_ansi == o.strip_ansi
    &&& match p.matcher {
        OutputMatch::Regex { value } => o.regex && o.value == Some(value@),
        OutputMatch::Substring { value } => !o.regex && o.value == Some(value@),
    }
}

fn missing<T>(flag: &str) -> (p: Parsed<T>)
    ensures
        super::is_exit(p, 2, seq!["missing value for "@ + flag@]),
{
    super::exit1(2, super::concat("missing value for ", flag).as_str())
}

/// The request that `wait output` makes.
pub fn wait_output(args: &Vec<String>) -> (r: Parsed<PaneWaitForOutputParams>)
    ensures
        if args@.len() == 0 {
            super::is_exit(r, 2, seq![output_usage()])
        } else {
            match output_options(args@, 1, default_output_options()) {
                Verdict::Run(o) => if o.value is None {
                    super::is_exit(r, 2, seq!["missing required --match"@])
                } else {
                    r matches Parsed::Run(p) && asks_for(p, args@[0]@, o)
                },
                Verdict::Exit(code, lines) => super::is_exit(r, code, lines),
                Verdict::Fail(message) => super::is_fail(r, message),
                Verdict::Help(_, _) => false,
            }
        },
{
    if args.len() == 0 {
        return super::exit1(
            2,
            "usage: herdr wait output <pane_id> --match <text> [--source visible|recent|recent-unwrapped] [--lines N] [--timeout MS] [--regex]",
        );
    }
    let mut source = ReadSource::Recent;
    let mut lines: Option<u32> = None;
    let mut timeout_ms: Option<u64> = None;
    let mut strip_ansi = true;
    let mut regex = false;
    let mut value: Option<String> = None;
    let n: usize = args.len();
    let mut i: usize = 1;
    while i < n
        invariant
            1 <= i <= n == args@.len(),
            output_options(
                args@,
                i as int,
                OutputOptions {
                    source,
                    lines,
                    timeout_ms,
                    strip_ansi,
                    regex,
                    value: text::opt_view(value),
                },
            ) == output_options(args@, 1, default_output_options()),
        decreases n - i,
    {
        let arg = args[i].as_str();
        if text::str_eq(arg, "--regex") {
            regex = true;
            i += 1;
        } else if text::str_eq(arg, "--raw") {
            strip_ansi = false;
            i += 1;
        } else if text::str_eq(arg, "--match") {
            if n - i < 2 {
                return missing("--match");
            }
            value = Some(args[i + 1].clone());
            i += 2;
        } else if text::str_eq(arg, "--source") {
            if n - i < 2 {
                return missing("--source");
            }
            match super::parse_read_source(args[i + 1].as_str()) {
                Ok(s) => {
                    source = s;
                },
                Err(e) => return Parsed::Fail(e),
            }
            i += 2;
        } else if text::str_eq(arg, "--lines") {
            if n - i < 2 {
                return missing("--lines");
            }
            match super::parse_u32_flag("--lines", args[i + 1].as_str()) {
                Ok(count) => {
                    lines = Some(count);
                },
                Err(e) => return Parsed::Fail(e),
            }
            i += 2;
        } else if text::str_eq(arg, "--timeout") {
            if n - i < 2 {
                return missing("--timeout");
            }
            match super::parse_u64_flag("--timeout", args[i + 1].as_str()) {
                Ok(ms) => {
                    timeout_ms = Some(ms);
                },
                Err(e) => return Parsed::Fail(e),
            }
            i += 2;
        } else {
            return super::exit1(2, super::concat("unknown option: ", arg).as_str());
        }
    }
    let value = match value {
        Some(value) => value,
        None => return super::exit1(2, "missing required --match"),
    };
    let matcher = if regex {
        OutputMatch::Regex { value }
    } else {
        OutputMatch::Substring { value }
    };
    Parsed::Run(
        PaneWaitForOutputParams {
            pane_id: args[0].clone(),
            source,
            lines,
            matcher,
            timeout_ms,
            strip_ansi,
        },
    )
}

/// The options of `wait agent-status` from the `i`-th argument on.
pub open spec fn status_options(
    args: Seq<String>,
    i: int,
    status: Option<AgentStatus>,
    timeout_ms: Option<u64>,
) -> Verdict<(Option<AgentStatus>, Option<u64>)>
    decreases args.len() - i,
{
    if i >= args.len() {
        Verdict::Run((status, timeout_ms))
    } else if args[i]@ == "--status"@ {
        if i + 1 < args.len() {
            match super::agent_status_named(args[i + 1]@) {
                Some(s) => status_options(args, i + 2, Some(s), timeout_ms),
                None => Verdict::Fail(super::bad_agent_status(args[i + 1]@)),
            }
        } else {
            missing_value("--status"@)
        }
    } else if args[i]@ == "--timeout"@ {
        if i + 1 < args.len() {
            match text::parsed_uint(args[i + 1]@, u64::MAX as nat) {
                Some(n) => status_options(args, i + 2, status, Some(n as u64)),
                None => Verdict::Fail(super::bad_flag_value("--timeout"@, args[i + 1]@)),
            }
        } else {
            missing_value("--timeout"@)
        }
    } else {
        Verdict::Exit(2, seq!["unknown option: "@ + args[i]@])
    }
}

/// The subscription that `wait agent-status` makes, and how long it waits.
pub fn wait_agent_status(args: &Vec<String>) -> (r: Parsed<(Subscription, Option<u64>)>)
    ensures
        if args@.len() == 0 {
            super::is_exit(r, 2, seq![status_usage()])
        } else {
            match status_options(args@, 1, None, None) {
                Verdict::Run((status, timeout_ms)) => match status {
                    None => super::is_exit(r, 2, seq!["missing required --status"@]),
                    Some(s) => r matches Parsed::Run((subscription, t)) && t == timeout_ms
                        && crate::api::wait::status_subscription(subscription, args@[0]@, s),
                },
                Verdict::Exit(code, lines) => super::is_exit(r, code, lines),
                Verdict::Fail(message) => super::is_fail(r, message),
                Verdict::Help(_, _) => false,
            }
        },
{
    if args.len() == 0 {
        return super::exit1(
            2,
            "usage: herdr wait agent-status <pane_id> --status <idle|working|blocked|done|unknown> [--timeout MS]",
        );
    }
    let mut status: Option<AgentStatus> = None;
    let mut timeout_ms: Option<u64> = None;
    let n: usize = args.len();
    let mut i: usize = 1;
    while i < n
        invariant
            1 <= i <= n == args@.len(),
            status_options(args@, i as int, status, timeout_ms) == status_options(
                args@,
                1,
                None,
                None,
            ),
        decreases n - i,
    {
        let arg = args[i].as_str();
        if text::str_eq(arg, "--status") {
            if n - i < 2 {
                return missing("--status");
            }
            match super::parse_agent_status(args[i + 1].as_str()) {
                Ok(s) => {
                    status = Some(s);
                },
                Err(e) => return Parsed::Fail(e),
            }
            i += 2;
        } else if text::str_eq(arg, "--timeout") {
            if n - i < 2 {
                return missing("--timeout");
            }
            match super::parse_u64_flag("--timeout", args[i + 1].as_str()) {
                Ok(ms) => {
                    timeout_ms = Some(ms);
                },
                Err(e) => return Parsed::Fail(e),
            }
            i += 2;
        } else {
            return super::exit1(2, super::concat("unknown option: ", arg).as_str());
        }
    }
    match status {
        None => super::exit1(2, "missing required --status"),
        Some(s) => Parsed::Run(
            (
                Subscription::PaneAgentStatusChanged {
                    pane_id: args[0].clone(),
                    agent_status: Some(s),
                },
                timeout_ms,
            ),
        ),
    }
}

} // verus!
