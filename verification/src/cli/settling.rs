//! What a user of the command line can rely on where names are given and configurations
//! are changed.

use vstd::prelude::*;
use vstd::string::*;

use super::channel::{self, KeyReset};
use super::{Command, Parsed};
use crate::api::schema::common::{AgentStatus, ReadSource};
use crate::text;

verus! {

/// No two commands go by one name, and each goes by one name only; completion alone has
/// a second one.
pub proof fn lemma_commands_have_their_own_names(a: Seq<char>, b: Seq<char>)
    ensures
        super::command_named(a) is Some && super::command_named(a) == super::command_named(b)
            ==> a == b || super::command_named(a) == Some(Command::Completion),
        super::command_named(a) == Some(Command::Completion) ==> a == "completion"@ || a
            == "completions"@,
        super::command_named(a) == Some(Command::Ssh) ==> a == "ssh"@,
        super::command_named(a) == Some(Command::RemoteHandoff) ==> a == "remote-handoff"@,
        super::command_named(a) == Some(Command::Peer) ==> a == "peer"@,
        super::command_named(a) == Some(Command::Wait) ==> a == "wait"@,
        super::command_named(a) == Some(Command::Session) ==> a == "session"@,
        super::command_named(a) == Some(Command::Agent) ==> a == "agent"@,
        super::command_named(a) == Some(Command::Terminal) ==> a == "terminal"@,
        super::command_named(a) == Some(Command::Channel) ==> a == "channel"@,
        super::command_named(a) == Some(Command::Api) ==> a == "api"@,
{
}

/// A status is asked for by its own name and by no other.
pub proof fn lemma_statuses_are_asked_for_by_name(value: Seq<char>)
    ensures
        super::agent_status_named(value) == Some(AgentStatus::Idle) <==> value == "idle"@,
        super::agent_status_named(value) == Some(AgentStatus::Working) <==> value == "working"@,
        super::agent_status_named(value) == Some(AgentStatus::Blocked) <==> value == "blocked"@,
        super::agent_status_named(value) == Some(AgentStatus::Done) <==> value == "done"@,
        super::agent_status_named(value) == Some(AgentStatus::Unknown) <==> value == "unknown"@,
{
    reveal_strlit("idle");
    reveal_strlit("working");
    reveal_strlit("blocked");
    reveal_strlit("done");
    reveal_strlit("unknown");
    assert("idle"@[0] == 'i' && "done"@[0] == 'd' && "working"@[0] == 'w' && "blocked"@[0] == 'b'
        && "unknown"@[0] == 'u');
}

/// What is read is named by itself; only the unwrapped text has two spellings.
pub proof fn lemma_sources_are_asked_for_by_name(value: Seq<char>)
    ensures
        super::read_source_named(value) == Some(ReadSource::Visible) <==> value == "visible"@,
        super::read_source_named(value) == Some(ReadSource::Recent) <==> value == "recent"@,
        super::read_source_named(value) == Some(ReadSource::RecentUnwrapped) <==> value
            == "recent-unwrapped"@ || value == "recent_unwrapped"@,
        super::read_source_named(value) == Some(ReadSource::Detection) <==> value == "detection"@,
{
    reveal_strlit("visible");
    reveal_strlit("recent");
    reveal_strlit("recent-unwrapped");
    reveal_strlit("recent_unwrapped");
    reveal_strlit("detection");
    assert("visible"@[0] == 'v' && "recent"@[0] == 'r' && "detection"@[0] == 'd');
    assert("recent"@.len() == 6 && "recent-unwrapped"@.len() == 16 && "recent_unwrapped"@.len()
        == 16);
    assert("recent-unwrapped"@[0] == 'r' && "recent_unwrapped"@[0] == 'r');
}

/// The stable channel is refused on Windows alone, and the preview exactly where the way
/// in which the program was installed rules it out.
pub proof fn lemma_channels_are_refused_where_they_cannot_be_had(
    install: Option<Seq<char>>,
    windows: bool,
)
    ensures
        channel::rejection("stable"@, install, windows) is Some <==> windows,
        channel::rejection("preview"@, install, windows) == install,
{
    reveal_strlit("stable");
    reveal_strlit("preview");
    assert("stable"@.len() == 6 && "preview"@.len() == 7);
}

/// Keybindings are removed only from a configuration that can be read and has some, and
/// nothing is reported as wrong with one that has none.
pub proof fn lemma_keybindings_are_removed_where_there_are_some(
    r: Parsed<()>,
    path: Seq<char>,
    parsed: Result<Option<Seq<Seq<char>>>, Seq<char>>,
)
    requires
        channel::keys_to_remove(r, path, parsed),
    ensures
        r is Run <==> parsed is Ok && parsed->Ok_0 is Some && (parsed->Ok_0->0).contains("keys"@),
        r is Print <==> parsed is Ok && parsed->Ok_0 is Some && !(parsed->Ok_0->0).contains(
            "keys"@,
        ),
        r is Exit ==> r->Exit_code == 1,
{
}

/// A configuration is rewritten only if the keybindings were cut out and what is left can
/// be read; the user is then told where the backup is and how to put it back.
pub proof fn lemma_configurations_stay_readable(
    r: Parsed<KeyReset>,
    path: Seq<char>,
    removed: bool,
    parsed: Result<Option<Seq<Seq<char>>>, Seq<char>>,
    unix_secs: u64,
)
    requires
        channel::reset_ends(r, path, removed, parsed, unix_secs),
    ensures
        r is Run <==> removed && parsed is Ok,
        r is Run || r is Exit && r->Exit_code == 1,
        r is Run ==> ({
            let reset = r->Run_0;
            let lines = text::views(reset.lines@);
            &&& lines.len() > 0
            &&& lines[0] == "Created backup: "@ + reset.backup_path@
            &&& lines.last() == "To restore: cp "@ + reset.backup_path@ + " "@ + path
        }),
{
}

} // verus!
