//! `herdr desktop`.

use vstd::prelude::*;
use vstd::string::*;
use vstd::utf8;

use super::{Parsed, Verdict};
use crate::desktop_queue::QueueErrorKind;
use crate::text;

verus! {

pub const MAX_MESSAGE_BYTES: u64 = 65536;

pub open spec fn usage() -> Seq<char> {
    "usage: herdr desktop enqueue [--kind info|progress|result|question|error] [--correlation-id ID] (--message TEXT|--stdin)"@
}

fn usage_text() -> (r: &'static str)
    ensures
        r@ == usage(),
{
    "usage: herdr desktop enqueue [--kind info|progress|result|question|error] [--correlation-id ID] (--message TEXT|--stdin)"
}

/// The arguments of `desktop enqueue`.
pub fn run_desktop_command(args: &Vec<String>) -> (r: Parsed<Vec<String>>)
    ensures
        if args@.len() > 0 && args@[0]@ == "enqueue"@ {
            r matches Parsed::Run(rest) && rest@ == args@.skip(1)
        } else {
            super::is_exit(r, 2, seq![usage()])
        },
{
    if args.len() > 0 && text::str_eq(args[0].as_str(), "enqueue") {
        Parsed::Run(super::rest(args, 1))
    } else {
        super::exit1(2, usage_text())
    }
}

/// What is to be put into the queue.
pub struct EnqueueArgs {
    pub kind: String,
    pub correlation_id: Option<String>,
    /// The message; none where it is read from the standard input.
    pub message: Option<String>,
}

pub struct EnqueueOptions {
    pub kind: Option<Seq<char>>,
    pub correlation_id: Option<Seq<char>>,
    pub message: Option<Seq<char>>,
    pub stdin: bool,
}

pub open spec fn usage_verdict<T>(message: Seq<char>) -> Verdict<T> {
    Verdict::Exit(2, seq![message, usage()])
}

/// The options from the `i`-th argument on; none may be repeated.
pub open spec fn enqueue_options(args: Seq<String>, i: int, o: EnqueueOptions) -> Verdict<
    EnqueueOptions,
>
    decreases args.len() - i,
{
    if i >= args.len() {
        Verdict::Run(o)
    } else if args[i]@ == "--kind"@ {
        if i + 1 >= args.len() {
            usage_verdict("--kind requires a value"@)
        } else if o.kind is Some {
            usage_verdict("--kind may only be provided once"@)
        } else {
            enqueue_options(args, i + 2, EnqueueOptions { kind: Some(args[i + 1]@), ..o })
        }
    } else if args[i]@ == "--correlation-id"@ {
        if i + 1 >= args.len() {
            usage_verdict("--correlation-id requires a value"@)
        } else if o.correlation_id is Some {
            usage_verdict("--correlation-id may only be provided once"@)
        } else {
            enqueue_options(
                args,
                i + 2,
                EnqueueOptions { correlation_id: Some(args[i + 1]@), ..o },
            )
        }
    } else if args[i]@ == "--message"@ {
        if i + 1 >= args.len() {
            usage_verdict("--message requires a value"@)
        } else if o.message is Some {
            usage_verdict("--message may only be provided once"@)
        } else {
            enqueue_options(args, i + 2, EnqueueOptions { message: Some(args[i + 1]@), ..o })
        }
    } else if args[i]@ == "--stdin"@ {
        if o.stdin {
            usage_verdict("--stdin may only be provided once"@)
        } else {
            enqueue_options(args, i + 1, EnqueueOptions { stdin: true, ..o })
        }
    } else {
        usage_verdict("unknown desktop enqueue option "@ + args[i]@)
    }
}

pub open spec fn no_options() -> EnqueueOptions {
    EnqueueOptions { kind: None, correlation_id: None, message: None, stdin: false }
}

pub open spec fn enqueues(p: EnqueueArgs, o: EnqueueOptions) -> bool {
    &&& p.kind@ == match o.kind {
        Some(kind) => kind,
        None => "info"@,
    }
    &&& text::opt_view(p.correlation_id) == o.correlation_id
    &&& text::opt_view(p.message) == o.message
}

fn usage_error<T>(message: &str) -> (p: Parsed<T>)
    ensures
        super::is_exit(p, 2, seq![message@, usage()]),
{
    super::exit2(2, message, usage_text())
}

/// What `desktop enqueue` puts into the queue.
pub fn run_enqueue(args: &Vec<String>) -> (r: Parsed<EnqueueArgs>)
    ensures
        match enqueue_options(args@, 0, no_options()) {
            Verdict::Run(o) => if o.stdin == (o.message is Some) {
                super::is_exit(r, 2, seq!["provide exactly one of --message or --stdin"@, usage()])
            } else {
                r matches Parsed::Run(p) && enqueues(p, o)
            },
            Verdict::Exit(code, lines) => super::is_exit(r, code, lines),
            _ => false,
        },
{
    let mut kind: Option<String> = None;
    let mut correlation_id: Option<String> = None;
    let mut message: Option<String> = None;
    let mut stdin = false;
    let n: usize = args.len();
    let mut i: usize = 0;
    while i < n
        invariant
            i <= n == args@.len(),
            enqueue_options(
                args@,
                i as int,
                EnqueueOptions {
                    kind: text::opt_view(kind),
                    correlation_id: text::opt_view(correlation_id),
                    message: text::opt_view(message),
                    stdin,
                },
            ) == enqueue_options(args@, 0, no_options()),
        decreases n - i,
    {
        let arg = args[i].as_str();
        if text::str_eq(arg, "--kind") {
            if n - i < 2 {
                return usage_error("--kind requires a value");
            }
            if kind.is_some() {
                return usage_error("--kind may only be provided once");
            }
            kind = Some(args[i + 1].clone());
            i += 2;
        } else if text::str_eq(arg, "--correlation-id") {
            if n - i < 2 {
                return usage_error("--correlation-id requires a value");
            }
            if correlation_id.is_some() {
                return usage_error("--correlation-id may only be provided once");
            }
            correlation_id = Some(args[i + 1].clone());
            i += 2;
        } else if text::str_eq(arg, "--message") {
            if n - i < 2 {
                return usage_error("--message requires a value");
            }
            if message.is_some() {
                return usage_error("--message may only be provided once");
            }
            message = Some(args[i + 1].clone());
            i += 2;
        } else if text::str_eq(arg, "--stdin") {
            if stdin {
                return usage_error("--stdin may only be provided once");
            }
            stdin = true;
            i += 1;
        } else {
            return usage_error(super::concat("unknown desktop enqueue option ", arg).as_str());
        }
    }
    if stdin == message.is_some() {
        return usage_error("provide exactly one of --message or --stdin");
    }
    let kind = match kind {
        Some(kind) => kind,
        None => "info".to_string(),
    };
    Parsed::Run(EnqueueArgs { kind, correlation_id, message })
}

/// The message that was read from the standard input.
pub fn stdin_message(bytes: Vec<u8>) -> (r: Parsed<String>)
    ensures
        if bytes@.len() > MAX_MESSAGE_BYTES {
            super::is_exit(r, 2, seq!["stdin message exceeds 65536 bytes"@, usage()])
        } else if !utf8::valid_utf8(bytes@) {
            super::is_exit(r, 2, seq!["stdin message must be UTF-8"@, usage()])
        } else {
            r matches Parsed::Run(s) && s@ == utf8::decode_utf8(bytes@)
        },
{
    if bytes.len() as u64 > MAX_MESSAGE_BYTES {
        return usage_error("stdin message exceeds 65536 bytes");
    }
    match text::read_utf8(bytes) {
        Some(s) => Parsed::Run(s),
        None => usage_error("stdin message must be UTF-8"),
    }
}

pub open spec fn exit_code_for(kind: QueueErrorKind) -> i32 {
    match kind {
        QueueErrorKind::Invalid => 2,
        QueueErrorKind::PermissionDenied | QueueErrorKind::Closed | QueueErrorKind::NotFound
        | QueueErrorKind::CliNotFound | QueueErrorKind::LeaseNotFound => 3,
        QueueErrorKind::Full => 4,
        QueueErrorKind::Corrupt | QueueErrorKind::LeaseExpired | QueueErrorKind::Io => 5,
    }
}

/// How the command ends where the queue refuses the message.
pub fn enqueue_exit_code(kind: QueueErrorKind) -> (r: i32)
    ensures
        r == exit_code_for(kind),
{
    match kind {
        QueueErrorKind::Invalid => 2,
        QueueErrorKind::PermissionDenied | QueueErrorKind::Closed | QueueErrorKind::NotFound
        | QueueErrorKind::CliNotFound | QueueErrorKind::LeaseNotFound => 3,
        QueueErrorKind::Full => 4,
        QueueErrorKind::Corrupt | QueueErrorKind::LeaseExpired | QueueErrorKind::Io => 5,
    }
}

} // verus!
