//! `herdr mcp`.

use vstd::prelude::*;
use vstd::string::*;

use super::Parsed;
use crate::desktop_mcp::AccessMode;
use crate::text;

verus! {

/// What the public is told; the bridge itself is not for the public.
pub const MCP_USAGE: &'static str =
    "usage:\n  herdr [--session NAME] mcp install <client> [--full-control]\n  herdr [--session NAME] mcp status [client]\n  herdr [--session NAME] mcp uninstall <client>";

pub const MCP_FULL_CONTROL_ENV_VAR: &'static str = "HERDR_MCP_FULL_CONTROL";

pub const MCP_FULL_CONTROL_ENV_ERROR: &'static str =
    "HERDR_MCP_FULL_CONTROL must be exactly 1 when set";

/// The arguments are those of `mcp serve`; the value tells whether they ask for
/// full control.
pub open spec fn serve_args(args: Seq<String>) -> Option<bool> {
    if args.len() == 1 && args[0]@ == "serve"@ {
        Some(false)
    } else if args.len() == 2 && args[0]@ == "serve"@ && args[1]@ == "--full-control"@ {
        Some(true)
    } else {
        None
    }
}

pub open spec fn env_grants(env: Option<Seq<char>>) -> Option<bool> {
    match env {
        None => Some(false),
        Some(value) => if value == "1"@ {
            Some(true)
        } else {
            None
        },
    }
}

/// The access that a bridge is served with. Full control takes the flag or the
/// variable; a variable of any other value is refused.
pub open spec fn access(args: Seq<String>, env: Option<Seq<char>>) -> Result<
    Option<AccessMode>,
    Seq<char>,
> {
    match (serve_args(args), env_grants(env)) {
        (None, _) => Ok(None),
        (Some(_), None) => Err(MCP_FULL_CONTROL_ENV_ERROR@),
        (Some(flag), Some(granted)) => Ok(
            Some(
                if flag || granted {
                    AccessMode::FullControl
                } else {
                    AccessMode::Restricted
                },
            ),
        ),
    }
}

fn is_serve(args: &Vec<String>) -> (r: Option<bool>)
    ensures
        r == serve_args(args@),
{
    if args.len() == 1 && text::str_eq(args[0].as_str(), "serve") {
        Some(false)
    } else if args.len() == 2 && text::str_eq(args[0].as_str(), "serve") && text::str_eq(
        args[1].as_str(),
        "--full-control",
    ) {
        Some(true)
    } else {
        None
    }
}

/// The access that a bridge is served with, where it is to be served.
pub fn serve_access_mode(args: &Vec<String>, full_control_env: Option<&str>) -> (r: Result<
    Option<AccessMode>,
    &'static str,
>)
    ensures
        match r {
            Ok(mode) => access(args@, text::viewed(full_control_env))
                == Ok::<Option<AccessMode>, Seq<char>>(mode),
            Err(e) => access(args@, text::viewed(full_control_env)) == Err::<
                Option<AccessMode>,
                Seq<char>,
            >(e@),
        },
{
    let flag = match is_serve(args) {
        Some(flag) => flag,
        None => return Ok(None),
    };
    let granted = match full_control_env {
        None => false,
        Some(value) => {
            if !text::str_eq(value, "1") {
                return Err(MCP_FULL_CONTROL_ENV_ERROR);
            }
            true
        },
    };
    if flag || granted {
        Ok(Some(AccessMode::FullControl))
    } else {
        Ok(Some(AccessMode::Restricted))
    }
}

pub enum McpCommand {
    Serve(AccessMode),
    Install { client: String, full_control: bool },
    Status { client: Option<String> },
    Uninstall { client: String },
}

/// What the public may ask for.
pub open spec fn is_public(c: McpCommand, args: Seq<String>) -> bool {
    match c {
        McpCommand::Serve(_) => false,
        McpCommand::Install { client, full_control } => args.len() == if full_control {
            3int
        } else {
            2
        } && args[0]@ == "install"@ && client@ == args[1]@ && (full_control ==> args[2]@
            == "--full-control"@),
        McpCommand::Status { client } => args.len() > 0 && args[0]@ == "status"@ && match client {
            Some(name) => args.len() == 2 && name@ == args[1]@,
            None => args.len() == 1,
        },
        McpCommand::Uninstall { client } => args.len() == 2 && args[0]@ == "uninstall"@ && client@
            == args[1]@,
    }
}

pub open spec fn public_args(args: Seq<String>) -> bool {
    ||| (args.len() == 2 && (args[0]@ == "install"@ || args[0]@ == "status"@ || args[0]@
        == "uninstall"@))
    ||| (args.len() == 3 && args[0]@ == "install"@ && args[2]@ == "--full-control"@)
    ||| (args.len() == 1 && args[0]@ == "status"@)
}

/// What the public asks for, where it does.
pub fn run_public_command(args: &Vec<String>) -> (r: Option<McpCommand>)
    ensures
        r is Some == public_args(args@),
        r matches Some(c) ==> is_public(c, args@),
{
    let n: usize = args.len();
    if n == 0 {
        return None;
    }
    let command = args[0].as_str();
    if n == 2 && text::str_eq(command, "install") {
        return Some(McpCommand::Install { client: args[1].clone(), full_control: false });
    }
    if n == 3 && text::str_eq(command, "install") && text::str_eq(
        args[2].as_str(),
        "--full-control",
    ) {
        return Some(McpCommand::Install { client: args[1].clone(), full_control: true });
    }
    if n == 1 && text::str_eq(command, "status") {
        return Some(McpCommand::Status { client: None });
    }
    if n == 2 && text::str_eq(command, "status") {
        return Some(McpCommand::Status { client: Some(args[1].clone()) });
    }
    if n == 2 && text::str_eq(command, "uninstall") {
        return Some(McpCommand::Uninstall { client: args[1].clone() });
    }
    None
}

/// What `mcp` is asked to do.
pub fn run_mcp_command(args: &Vec<String>, full_control_env: Option<&str>) -> (r: Parsed<McpCommand>)
    ensures
        match access(args@, text::viewed(full_control_env)) {
            Err(message) => super::is_exit(r, 2, seq!["error: "@ + message]),
            Ok(Some(mode)) => r == Parsed::<McpCommand>::Run(McpCommand::Serve(mode)),
            Ok(None) => if public_args(args@) {
                r matches Parsed::Run(c) && is_public(c, args@)
            } else {
                super::is_exit(
                    r,
                    if args@.len() == 1 && super::help_flag(args@[0]@) {
                        0
                    } else {
                        2
                    },
                    seq![MCP_USAGE@],
                )
            },
        },
{
    match serve_access_mode(args, full_control_env) {
        Ok(Some(mode)) => return Parsed::Run(McpCommand::Serve(mode)),
        Ok(None) => {},
        Err(message) => return super::exit1(2, super::concat("error: ", message).as_str()),
    }
    match run_public_command(args) {
        Some(command) => return Parsed::Run(command),
        None => {},
    }
    if args.len() == 1 && super::is_help_flag(args[0].as_str()) {
        return super::exit1(0, MCP_USAGE);
    }
    super::exit1(2, MCP_USAGE)
}

} // verus!
