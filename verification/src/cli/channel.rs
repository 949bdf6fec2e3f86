//! `herdr channel` and `herdr config`.

use vstd::prelude::*;
use vstd::string::*;

use super::{HelpTopic, Parsed};
use crate::path;
use crate::text;

verus! {

// ---------------------------------------------------------------------------
// TOML

/// What `toml` makes of a document: the names at its top in the order in which
/// it walks them (none where the top is no table), or the error.
pub uninterp spec fn toml_document(document: Seq<char>) -> Result<
    Option<Seq<Seq<char>>>,
    Seq<char>,
>;

pub open spec fn names_view(v: Option<Vec<String>>) -> Option<Seq<Seq<char>>> {
    match v {
        Some(names) => Some(text::views(names@)),
        None => None,
    }
}

pub open spec fn toml_view(r: Result<Option<Vec<String>>, String>) -> Result<
    Option<Seq<Seq<char>>>,
    Seq<char>,
> {
    match r {
        Ok(names) => Ok(names_view(names)),
        Err(e) => Err(e@),
    }
}

/// `toml::Value`'s `FromStr` reads a document, and `as_table` and `keys` tell the
/// names at its top. The contract names the result, the error as text.
#[verifier::external_body]
fn read_toml(document: &str) -> (r: Result<Option<Vec<String>>, String>)
    ensures
        toml_view(r) == toml_document(document@),
{
    match document.parse::<toml::Value>() {
        Ok(value) => Ok(value.as_table().map(|table| table.keys().cloned().collect())),
        Err(err) => Err(err.to_string()),
    }
}

// ---------------------------------------------------------------------------
// Channels

pub enum ChannelCommand {
    Choose(Vec<String>),
    Show,
}

pub fn run_channel_command(args: &Vec<String>) -> (r: Parsed<ChannelCommand>)
    ensures
        if args@.len() > 0 && args@[0]@ == "set"@ {
            r matches Parsed::Run(ChannelCommand::Choose(rest)) && rest@ == args@.skip(1)
        } else if args@.len() == 1 && args@[0]@ == "show"@ {
            r == Parsed::<ChannelCommand>::Run(ChannelCommand::Show)
        } else {
            super::is_help(
                r,
                HelpTopic::Channel,
                if args@.len() > 0 && super::help_flag(args@[0]@) {
                    0
                } else {
                    2
                },
            )
        },
{
    if args.len() == 0 {
        return Parsed::Help { topic: HelpTopic::Channel, code: 2 };
    }
    let name = args[0].as_str();
    if text::str_eq(name, "set") {
        return Parsed::Run(ChannelCommand::Choose(super::rest(args, 1)));
    }
    if args.len() == 1 && text::str_eq(name, "show") {
        return Parsed::Run(ChannelCommand::Show);
    }
    if super::is_help_flag(name) {
        return Parsed::Help { topic: HelpTopic::Channel, code: 0 };
    }
    Parsed::Help { topic: HelpTopic::Channel, code: 2 }
}

pub open spec fn names_channel(args: Seq<String>) -> bool {
    args.len() == 1 && (args[0]@ == "stable"@ || args[0]@ == "preview"@)
}

/// The channel that the arguments name.
pub fn parse_channel_set_arg(args: &Vec<String>) -> (r: Option<&str>)
    ensures
        if names_channel(args@) {
            r matches Some(channel) && channel@ == args@[0]@
        } else {
            r is None
        },
{
    if args.len() != 1 {
        return None;
    }
    let channel = args[0].as_str();
    if text::str_eq(channel, "stable") || text::str_eq(channel, "preview") {
        Some(channel)
    } else {
        None
    }
}

/// Why a channel cannot be chosen. `install_rejection` is why this installation
/// has no previews.
pub open spec fn rejection(
    channel: Seq<char>,
    install_rejection: Option<Seq<char>>,
    windows: bool,
) -> Option<Seq<char>> {
    if windows && channel == "stable"@ {
        Some("stable channel is not available on Windows yet; Windows builds are preview-only"@)
    } else if channel == "preview"@ {
        install_rejection
    } else {
        None
    }
}

pub fn channel_set_rejection(
    channel: &str,
    install_rejection: Option<&'static str>,
    windows: bool,
) -> (r: Option<&'static str>)
    ensures
        text::viewed(r) == rejection(channel@, text::viewed(install_rejection), windows),
{
    if windows && text::str_eq(channel, "stable") {
        return Some(
            "stable channel is not available on Windows yet; Windows builds are preview-only",
        );
    }
    if text::str_eq(channel, "preview") {
        return install_rejection;
    }
    None
}

/// What follows when a channel was chosen.
#[derive(Debug, Clone, Copy, PartialEq, Eq)]
pub enum ChannelSetInstallAction {
    RunSelfUpdate,
    PrintGuidance(&'static str),
}

pub fn channel_set_install_action(package_manager_guidance: Option<&'static str>) -> (r:
    ChannelSetInstallAction)
    ensures
        match package_manager_guidance {
            Some(guidance) => r == ChannelSetInstallAction::PrintGuidance(guidance),
            None => r == ChannelSetInstallAction::RunSelfUpdate,
        },
{
    match package_manager_guidance {
        Some(guidance) => ChannelSetInstallAction::PrintGuidance(guidance),
        None => ChannelSetInstallAction::RunSelfUpdate,
    }
}

/// The channel that is to be set, where it may be.
pub fn channel_set(
    args: &Vec<String>,
    install_rejection: Option<&'static str>,
    windows: bool,
) -> (r: Parsed<String>)
    ensures
        if !names_channel(args@) {
            super::is_exit(r, 2, seq!["usage: herdr channel set <stable|preview>"@])
        } else {
            match rejection(args@[0]@, text::viewed(install_rejection), windows) {
                Some(reason) => super::is_exit(r, 1, seq![reason + "."@]),
                None => r matches Parsed::Run(channel) && channel@ == args@[0]@,
            }
        },
{
    let channel = match parse_channel_set_arg(args) {
        Some(channel) => channel,
        None => return super::exit1(2, "usage: herdr channel set <stable|preview>"),
    };
    match channel_set_rejection(channel, install_rejection, windows) {
        Some(reason) => super::exit1(1, super::concat(reason, ".").as_str()),
        None => Parsed::Run(channel.to_string()),
    }
}

pub open spec fn invalid_before(path: Seq<char>, err: Seq<char>) -> Seq<char> {
    "config file at "@ + path + " is invalid TOML: "@ + err
        + ". Fix it before changing the update channel."@
}

pub open spec fn invalid_after(path: Seq<char>, err: Seq<char>) -> Seq<char> {
    "changing the update channel would make "@ + path + " invalid TOML: "@ + err
        + "; leaving config unchanged"@
}

/// A configuration may be changed: it is sound.
pub fn channel_config_readable(path: &str, content: &str) -> (r: Parsed<()>)
    ensures
        match toml_document(content@) {
            Ok(_) => r == Parsed::<()>::Run(()),
            Err(err) => super::is_exit(r, 1, seq![invalid_before(path@, err)]),
        },
{
    match read_toml(content) {
        Ok(_) => Parsed::Run(()),
        Err(err) => {
            let mut line = super::concat3("config file at ", path, " is invalid TOML: ");
            line.append(err.as_str());
            line.append(". Fix it before changing the update channel.");
            super::exit1(1, line.as_str())
        },
    }
}

/// A changed configuration may be written: it is sound. The line tells so.
pub fn channel_config_writable(path: &str, channel: &str, updated: &str) -> (r: Parsed<String>)
    ensures
        match toml_document(updated@) {
            Ok(_) => r matches Parsed::Run(line) && line@ == "Herdr update channel set to "@
                + channel@ + " in "@ + path@ + "."@,
            Err(err) => super::is_exit(r, 1, seq![invalid_after(path@, err)]),
        },
{
    match read_toml(updated) {
        Ok(_) => {
            let mut line = super::concat3("Herdr update channel set to ", channel, " in ");
            line.append(path);
            line.append(".");
            Parsed::Run(line)
        },
        Err(err) => {
            let mut line = super::concat3(
                "changing the update channel would make ",
                path,
                " invalid TOML: ",
            );
            line.append(err.as_str());
            line.append("; leaving config unchanged");
            super::exit1(1, line.as_str())
        },
    }
}

// ---------------------------------------------------------------------------
// Configuration

/// The arguments of `config reset-keys`.
pub fn run_config_command(args: &Vec<String>) -> (r: Parsed<Vec<String>>)
    ensures
        if args@.len() > 0 && args@[0]@ == "reset-keys"@ {
            r matches Parsed::Run(rest) && rest@ == args@.skip(1)
        } else {
            super::is_help(
                r,
                HelpTopic::Config,
                if args@.len() > 0 && super::help_flag(args@[0]@) {
                    0
                } else {
                    2
                },
            )
        },
{
    if args.len() == 0 {
        return Parsed::Help { topic: HelpTopic::Config, code: 2 };
    }
    let name = args[0].as_str();
    if text::str_eq(name, "reset-keys") {
        return Parsed::Run(super::rest(args, 1));
    }
    if super::is_help_flag(name) {
        return Parsed::Help { topic: HelpTopic::Config, code: 0 };
    }
    Parsed::Help { topic: HelpTopic::Config, code: 2 }
}

pub open spec fn no_config(path: Seq<char>) -> Seq<char> {
    "No config file found at "@ + path + ". Built-in v2 keybindings already apply."@
}

pub open spec fn no_keys(path: Seq<char>) -> Seq<char> {
    "No [keys] config found in "@ + path + ". Built-in v2 keybindings already apply."@
}

pub open spec fn invalid_config(path: Seq<char>, what: Seq<char>) -> Seq<char> {
    "config file at "@ + path + " is invalid TOML: "@ + what
}

/// Whether there are keybindings to remove from a configuration that reads as
/// `parsed`.
pub open spec fn keys_to_remove(
    r: Parsed<()>,
    path: Seq<char>,
    parsed: Result<Option<Seq<Seq<char>>>, Seq<char>>,
) -> bool {
    match parsed {
        Err(err) => super::is_exit(
            r,
            1,
            seq![
                invalid_config(path, err)
                    + ". Fix it manually or move it aside to use defaults."@,
            ],
        ),
        Ok(None) => super::is_exit(
            r,
            1,
            seq![invalid_config(path, "top-level config must be a table."@)],
        ),
        Ok(Some(names)) => if names.contains("keys"@) {
            r == Parsed::<()>::Run(())
        } else {
            super::is_print(r, no_keys(path))
        },
    }
}

/// Tells whether a configuration that reads as `parsed` has keybindings to
/// remove.
pub fn has_keys_to_remove(path: &str, parsed: Result<Option<Vec<String>>, String>) -> (r: Parsed<
    (),
>)
    ensures
        keys_to_remove(r, path@, toml_view(parsed)),
{
    let names = match parsed {
        Ok(Some(names)) => names,
        Ok(None) => {
            let mut line = super::concat3("config file at ", path, " is invalid TOML: ");
            line.append("top-level config must be a table.");
            return super::exit1(1, line.as_str());
        },
        Err(err) => {
            let mut line = super::concat3("config file at ", path, " is invalid TOML: ");
            line.append(err.as_str());
            line.append(". Fix it manually or move it aside to use defaults.");
            return super::exit1(1, line.as_str());
        },
    };
    if text::contains_string(&names, "keys") {
        Parsed::Run(())
    } else {
        Parsed::Print(
            super::concat3(
                "No [keys] config found in ",
                path,
                ". Built-in v2 keybindings already apply.",
            ),
        )
    }
}

/// Tells whether the configuration at `path` has keybindings to remove; there is
/// no content where there is no file.
pub fn config_reset_keys(args: &Vec<String>, path: &str, content: Option<&str>) -> (r: Parsed<()>)
    ensures
        if args@.len() > 0 {
            super::is_exit(r, 2, seq!["usage: herdr config reset-keys"@])
        } else {
            match content {
                None => super::is_print(r, no_config(path@)),
                Some(content) => keys_to_remove(r, path@, toml_document(content@)),
            }
        },
{
    if args.len() > 0 {
        return super::exit1(2, "usage: herdr config reset-keys");
    }
    match content {
        None => Parsed::Print(
            super::concat3(
                "No config file found at ",
                path,
                ". Built-in v2 keybindings already apply.",
            ),
        ),
        Some(content) => has_keys_to_remove(path, read_toml(content)),
    }
}

/// Where a copy of the configuration is kept.
pub open spec fn backup_path(path: Seq<char>, unix_secs: u64) -> Seq<char> {
    path::path_with_file_name(
        path,
        match path::path_file_name(path) {
            Some(name) => name,
            None => "config.toml"@,
        } + ".bak-keybind-v2-"@ + text::dec(unix_secs as nat),
    )
}

pub fn key_config_backup_path(path: &str, unix_secs: u64) -> (r: String)
    ensures
        r@ == backup_path(path@, unix_secs),
{
    let mut name = match path::file_name(path) {
        Some(name) => name,
        None => "config.toml".to_string(),
    };
    name.append(".bak-keybind-v2-");
    name.append(text::dec_string(unix_secs).as_str());
    path::with_file_name(path, name.as_str())
}

/// A configuration without keybindings, ready to be written.
pub struct KeyReset {
    pub backup_path: String,
    pub lines: Vec<String>,
}

pub open spec fn reset_lines(path: Seq<char>, backup: Seq<char>) -> Seq<Seq<char>> {
    seq![
        "Created backup: "@ + backup,
        "Removed [keys], [keys.indexed], and [[keys.command]] from "@ + path + "."@,
        "Built-in v2 keybindings will apply after Herdr restarts or reloads config."@,
        "If a Herdr server is running, run `herdr server reload-config` to apply this now."@,
        "To restore: cp "@ + backup + " "@ + path,
    ]
}

pub open spec fn not_removable(path: Seq<char>) -> Seq<char> {
    "could not safely remove keybinding config from "@ + path
        + " without rewriting comments; edit the file manually or remove the top-level keys setting."@
}

pub open spec fn invalid_without(path: Seq<char>, err: Seq<char>) -> Seq<char> {
    "removing keybinding config would make "@ + path + " invalid TOML: "@ + err
        + "; leaving config unchanged"@
}

/// What is written and told when the keybindings were cut out, or not. The file
/// changes only where what is left reads as `parsed` without an error.
pub open spec fn reset_ends(
    r: Parsed<KeyReset>,
    path: Seq<char>,
    removed: bool,
    parsed: Result<Option<Seq<Seq<char>>>, Seq<char>>,
    unix_secs: u64,
) -> bool {
    if !removed {
        super::is_exit(r, 1, seq![not_removable(path)])
    } else {
        match parsed {
            Err(err) => super::is_exit(r, 1, seq![invalid_without(path, err)]),
            Ok(_) => r matches Parsed::Run(reset) && reset.backup_path@ == backup_path(
                path,
                unix_secs,
            ) && text::views(reset.lines@) == reset_lines(path, backup_path(path, unix_secs)),
        }
    }
}

fn told(path: &str, backup: &str) -> (r: Vec<String>)
    ensures
        text::views(r@) == reset_lines(path@, backup@),
{
    let mut lines: Vec<String> = Vec::new();
    lines.push(super::concat("Created backup: ", backup));
    lines.push(
        super::concat3(
            "Removed [keys], [keys.indexed], and [[keys.command]] from ",
            path,
            ".",
        ),
    );
    lines.push(
        "Built-in v2 keybindings will apply after Herdr restarts or reloads config.".to_string(),
    );
    lines.push(
        "If a Herdr server is running, run `herdr server reload-config` to apply this now.".to_string(),
    );
    let mut restore = super::concat3("To restore: cp ", backup, " ");
    restore.append(path);
    lines.push(restore);
    assert(text::views(lines@) =~= reset_lines(path@, backup@));
    lines
}

/// Ends the removal of keybindings, where what is left reads as `parsed`.
pub fn keys_removed(
    path: &str,
    removed: bool,
    parsed: Result<Option<Vec<String>>, String>,
    unix_secs: u64,
) -> (r: Parsed<KeyReset>)
    ensures
        reset_ends(r, path@, removed, toml_view(parsed), unix_secs),
{
    if !removed {
        return super::exit1(
            1,
            super::concat3(
                "could not safely remove keybinding config from ",
                path,
                " without rewriting comments; edit the file manually or remove the top-level keys setting.",
            ).as_str(),
        );
    }
    match parsed {
        Err(err) => {
            let mut line = super::concat3(
                "removing keybinding config would make ",
                path,
                " invalid TOML: ",
            );
            line.append(err.as_str());
            line.append("; leaving config unchanged");
            super::exit1(1, line.as_str())
        },
        Ok(_) => {
            let backup = key_config_backup_path(path, unix_secs);
            let lines = told(path, backup.as_str());
            Parsed::Run(KeyReset { backup_path: backup, lines })
        },
    }
}

/// Ends the removal of keybindings that left `updated`.
pub fn finish_reset_keys(path: &str, removed: bool, updated: &str, unix_secs: u64) -> (r: Parsed<
    KeyReset,
>)
    ensures
        reset_ends(r, path@, removed, toml_document(updated@), unix_secs),
{
    keys_removed(path, removed, read_toml(updated), unix_secs)
}

} // verus!
