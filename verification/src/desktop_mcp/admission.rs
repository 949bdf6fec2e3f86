//! Which tool calls are accepted: each rule in plain terms, over all parameters.

use vstd::prelude::*;
use vstd::string::*;

use super::params::{
    self, AgentControlParams, DestructiveActionParams, InspectParams, LayoutControlParams,
    PaneControlParams, PeerControlParams, TabControlParams, WaitParams, WorkspaceControlParams,
    WorktreeControlParams,
};
use super::tools::{self, ReadPaneParams};
use super::validate::{self, InvalidParams, LaunchCliParams, SendInputParams};
use crate::api::schema::agents::AgentStartParams;
use crate::api::schema::common::{Method, PaneSendInputParams};
use crate::text;

verus! {

/// The text says something, takes up at most `most` bytes and holds no NUL.
pub open spec fn sound(value: Seq<char>, most: nat) -> bool {
    &&& exists|i: int| 0 <= i < value.len() && !text::is_space(#[trigger] value[i])
    &&& text::utf8_len(value) <= most
    &&& forall|i: int| 0 <= i < value.len() ==> #[trigger] value[i] != '\0'
}

proof fn lemma_sound(field: Seq<char>, value: Seq<char>, most: usize)
    ensures
        validate::nonempty_complaint(field, value, most) is None <==> sound(value, most as nat),
{
    if value.contains('\0') {
        let i = value.index_of('\0');
        assert(value[i] == '\0');
    }
    if !text::is_blank(value) {
        let i = choose|i: int| 0 <= i < value.len() && !text::is_space(#[trigger] value[i]);
        assert(!text::is_space(value[i]));
    }
}

/// The variable can be set, and is none of the server's own.
pub open spec fn settable(key: Seq<char>, value: Seq<char>) -> bool {
    &&& 0 < key.len()
    &&& text::utf8_len(key) <= 256
    &&& forall|i: int| 0 <= i < key.len() ==> #[trigger] key[i] != '=' && key[i] != '\0'
    &&& !text::has_prefix(key, "HERDR_"@)
    &&& text::utf8_len(value) <= 8_192
    &&& forall|i: int| 0 <= i < value.len() ==> #[trigger] value[i] != '\0'
}

proof fn lemma_settable(key: Seq<char>, value: Seq<char>, launch: bool)
    ensures
        validate::entry_complaint(key, value, launch) is None <==> settable(key, value),
{
    if key.contains('=') {
        assert(key[key.index_of('=')] == '=');
    }
    if key.contains('\0') {
        assert(key[key.index_of('\0')] == '\0');
    }
    if value.contains('\0') {
        assert(value[value.index_of('\0')] == '\0');
    }
}

/// How many bytes an environment takes up: each name, each value, and one more for each.
pub open spec fn environment_size(env: Seq<(String, String)>) -> nat
    decreases env.len(),
{
    if env.len() == 0 {
        0
    } else {
        1 + text::utf8_len(env[0].0@) + text::utf8_len(env[0].1@) + environment_size(env.skip(1))
    }
}

proof fn lemma_environment_size(env: Seq<(String, String)>)
    ensures
        environment_size(env) == validate::env_size(env),
    decreases env.len(),
{
    if env.len() > 0 {
        let front = env.drop_last();
        lemma_environment_size(front);
        if front.len() > 0 {
            lemma_environment_size(env.skip(1));
            lemma_environment_size(front.skip(1));
            assert(env.skip(1).drop_last() =~= front.skip(1));
            assert(env.skip(1).last() == env.last());
            assert(front[0] == env[0]);
        } else {
            assert(env.skip(1).len() == 0);
            assert(front.len() == 0);
            assert(environment_size(env.skip(1)) == 0);
        }
    }
}

proof fn lemma_entries(env: Seq<(String, String)>, launch: bool)
    ensures
        validate::env_size(env) <= usize::MAX ==> (validate::entries_complaint(env, launch)
            is None <==> forall|i: int|
            0 <= i < env.len() ==> settable((#[trigger] env[i]).0@, env[i].1@)),
        validate::entries_complaint(env, launch) is None ==> validate::env_size(env) <= usize::MAX,
    decreases env.len(),
{
    if env.len() > 0 {
        let front = env.drop_last();
        lemma_entries(front, launch);
        lemma_settable(env.last().0@, env.last().1@, launch);
        if forall|i: int| 0 <= i < env.len() ==> settable((#[trigger] env[i]).0@, env[i].1@) {
            assert forall|i: int| 0 <= i < front.len() implies settable(
                (#[trigger] front[i]).0@,
                front[i].1@,
            ) by {
                assert(front[i] == env[i]);
            }
            assert(settable(env[env.len() - 1].0@, env[env.len() - 1].1@));
        }
        if settable(env.last().0@, env.last().1@) && forall|i: int|
            0 <= i < front.len() ==> settable((#[trigger] front[i]).0@, front[i].1@) {
            assert forall|i: int| 0 <= i < env.len() implies settable(
                (#[trigger] env[i]).0@,
                env[i].1@,
            ) by {
                if i < front.len() {
                    assert(front[i] == env[i]);
                }
            }
        }
    }
}

/// An environment is accepted exactly if it has at most sixty-four variables, each of them
/// settable, and takes up at most thirty-two kibibytes.
pub proof fn lemma_accepted_environments(env: Seq<(String, String)>, launch: bool)
    ensures
        validate::env_complaint(env, launch) is None <==> {
            &&& env.len() <= 64
            &&& forall|i: int|
                0 <= i < env.len() ==> settable((#[trigger] env[i]).0@, env[i].1@)
            &&& environment_size(env) <= 32_768
        },
{
    lemma_environment_size(env);
    lemma_entries(env, launch);
}

/// How many bytes a command takes up: each word, and one more for each.
pub open spec fn command_size(argv: Seq<String>) -> nat
    decreases argv.len(),
{
    if argv.len() == 0 {
        0
    } else {
        1 + text::utf8_len(argv[0]@) + command_size(argv.skip(1))
    }
}

proof fn lemma_command_size(argv: Seq<String>)
    ensures
        command_size(argv) == validate::argv_size(argv),
    decreases argv.len(),
{
    if argv.len() > 0 {
        let front = argv.drop_last();
        lemma_command_size(front);
        if front.len() > 0 {
            lemma_command_size(argv.skip(1));
            lemma_command_size(front.skip(1));
            assert(argv.skip(1).drop_last() =~= front.skip(1));
            assert(argv.skip(1).last() == argv.last());
            assert(front[0] == argv[0]);
        } else {
            assert(argv.skip(1).len() == 0);
            assert(command_size(argv.skip(1)) == 0);
        }
    }
}

/// The command has one to sixty-four words, the first not empty, none with a NUL, and takes
/// up at most thirty-two kibibytes.
pub open spec fn runnable(argv: Seq<String>) -> bool {
    &&& 1 <= argv.len() <= 64
    &&& argv[0]@.len() > 0
    &&& forall|i: int| 0 <= i < argv.len() ==> !(#[trigger] argv[i])@.contains('\0')
    &&& command_size(argv) <= 32_768
}

/// The path begins at the root.
pub open spec fn absolute(path: Seq<char>) -> bool {
    path.len() > 0 && path[0] == '/'
}

proof fn lemma_absolute(path: Seq<char>)
    ensures
        text::has_prefix(path, "/"@) <==> absolute(path),
{
    reveal_strlit("/");
    if absolute(path) {
        assert(path.subrange(0, 1) =~= "/"@);
    }
    if text::has_prefix(path, "/"@) {
        assert(path.subrange(0, 1)[0] == '/');
    }
}

/// A launch is accepted exactly if its name is sound, its command can be run, its directory
/// is an absolute one that exists, its environment is accepted, and a workspace and a tab
/// that it names are soundly named. A command that is a path is that of a file.
pub proof fn lemma_accepted_launches(
    params: LaunchCliParams,
    executable_is_file: bool,
    cwd_is_dir: bool,
)
    ensures
        validate::launch_complaint(params, executable_is_file, cwd_is_dir) is None <==> {
            &&& sound(params.name@, 64)
            &&& runnable(params.argv@)
            &&& params.argv@[0]@.contains('/') ==> absolute(params.argv@[0]@) && executable_is_file
            &&& absolute(params.cwd@) && !params.cwd@.contains('\0') && cwd_is_dir
            &&& params.env@.len() <= 64 && environment_size(params.env@) <= 32_768
            &&& forall|i: int|
                0 <= i < params.env@.len() ==> settable(
                    (#[trigger] params.env@[i]).0@,
                    params.env@[i].1@,
                )
            &&& params.workspace_id is Some ==> sound((params.workspace_id->0)@, 256)
            &&& params.tab_id is Some ==> sound((params.tab_id->0)@, 256)
        },
{
    lemma_sound("name"@, params.name@, 64);
    lemma_command_size(params.argv@);
    lemma_absolute(params.cwd@);
    if params.argv@.len() > 0 {
        lemma_absolute(params.argv@[0]@);
    }
    lemma_accepted_environments(params.env@, true);
    if params.workspace_id is Some {
        lemma_sound("workspace_id"@, (params.workspace_id->0)@, 256);
    }
    if params.tab_id is Some {
        lemma_sound("tab_id"@, (params.tab_id->0)@, 256);
    }
}

/// The start of an agent is accepted exactly if its name is sound, its command can be run,
/// its environment is accepted, and it is to run where the tool starts agents: on a peer
/// that is soundly named, and there without the focus, or here, in a directory that exists.
/// How it is reached is never the caller's to say.
pub proof fn lemma_accepted_starts(params: AgentStartParams, remote: bool, cwd_is_dir: bool)
    ensures
        validate::start_complaint(params, remote, cwd_is_dir) is None <==> {
            &&& sound(params.name@, 64)
            &&& remote <==> params.peer is Some
            &&& remote ==> sound((params.peer->0)@, 256) && !params.focus
            &&& params.transport is None
            &&& runnable(params.argv@)
            &&& params.cwd is Some ==> sound((params.cwd->0)@, 4096)
            &&& params.cwd is Some && !remote ==> absolute((params.cwd->0)@) && cwd_is_dir
            &&& params.env@.len() <= 64 && environment_size(params.env@) <= 32_768
            &&& forall|i: int|
                0 <= i < params.env@.len() ==> settable(
                    (#[trigger] params.env@[i]).0@,
                    params.env@[i].1@,
                )
        },
{
    lemma_sound("name"@, params.name@, 64);
    if params.peer is Some {
        lemma_sound("peer"@, (params.peer->0)@, 256);
    }
    lemma_command_size(params.argv@);
    if params.cwd is Some {
        lemma_sound("cwd"@, (params.cwd->0)@, 4096);
        lemma_absolute((params.cwd->0)@);
    }
    lemma_accepted_environments(params.env@, false);
}

/// The key can be pressed.
pub open spec fn pressable(key: Seq<char>) -> bool {
    1 <= key.len() && text::utf8_len(key) <= 64 && !key.contains('\0')
}

/// Input for a CLI is accepted exactly if it is either text of one byte to sixty-four
/// kibibytes or one to thirty-two keys that can be pressed.
pub proof fn lemma_accepted_input(params: SendInputParams)
    ensures
        validate::input_complaint(params) is None <==> {
            &&& crate::desktop_queue::valid_id(params.cli_id@)
            &&& params.text is Some <==> params.keys is None
            &&& params.text is Some ==> (params.text->0)@.len() > 0 && text::utf8_len(
                (params.text->0)@,
            ) <= 65_536
            &&& params.keys is Some ==> 1 <= (params.keys->0)@.len() <= 32 && forall|i: int|
                0 <= i < (params.keys->0)@.len() ==> pressable((#[trigger] (params.keys->0)@[i])@)
        },
{
    if params.keys is Some {
        let keys = (params.keys->0)@;
        if validate::any_bad_key(keys) {
            let i = choose|i: int|
                0 <= i < keys.len() && validate::bad_key_token((#[trigger] keys[i])@);
            assert(!pressable(keys[i]@));
        } else {
            assert forall|i: int| 0 <= i < keys.len() implies pressable((#[trigger] keys[i])@) by {
                assert(!validate::bad_key_token(keys[i]@));
            }
        }
    }
}

/// Input for a pane is accepted exactly if there is some, of at most sixty-four kibibytes of
/// text without NUL and at most thirty-two keys that can be pressed.
pub proof fn lemma_accepted_pane_input(params: PaneSendInputParams)
    ensures
        validate::control_complaint(Method::PaneSendInput(params)) is None <==> {
            &&& sound(params.pane_id@, 512)
            &&& params.text@.len() > 0 || params.keys@.len() > 0
            &&& text::utf8_len(params.text@) <= 65_536 && !params.text@.contains('\0')
            &&& params.keys@.len() <= 32
            &&& forall|i: int|
                0 <= i < params.keys@.len() ==> pressable((#[trigger] params.keys@[i])@)
        },
{
    lemma_sound("pane_id"@, params.pane_id@, 512);
    let keys = params.keys@;
    if validate::any_bad_key(keys) {
        let i = choose|i: int| 0 <= i < keys.len() && validate::bad_key_token((#[trigger] keys[i])@);
        assert(!pressable(keys[i]@));
    } else {
        assert forall|i: int| 0 <= i < keys.len() implies pressable((#[trigger] keys[i])@) by {
            assert(!validate::bad_key_token(keys[i]@));
        }
    }
}

/// An agent here is named without a peer, one on a peer by the peer and its own name, on the
/// two sides of the first double colon.
pub proof fn lemma_accepted_targets(target: Seq<char>, at: int)
    ensures
        validate::local_target_complaint(target) is None <==> sound(target, 512)
            && !text::has_substring(target, "::"@),
        validate::remote_target_complaint(target) is None ==> text::has_substring(target, "::"@),
        text::first_occurrence(target, "::"@, at) ==> (validate::remote_target_complaint(target)
            is None <==> sound(target, 512) && sound(target.subrange(0, at), 256) && sound(
            target.subrange(at + 2, target.len() as int),
            256,
        )),
{
    lemma_sound("target"@, target, 512);
    if text::first_occurrence(target, "::"@, at) {
        reveal_strlit("::");
        text::lemma_split_first(target, "::"@, at);
        assert(text::starts_with_at(target, at, "::"@));
        lemma_sound("peer"@, target.subrange(0, at), 256);
        lemma_sound("agent"@, target.subrange(at + 2, target.len() as int), 256);
    }
}

/// A read is accepted exactly if it names a pane, and asks for one to a thousand lines and
/// one byte to a quarter of a mebibyte.
pub proof fn lemma_accepted_reads(p: ReadPaneParams)
    ensures
        tools::read_pane_complaint(p) is None <==> sound(p.pane_id@, 512) && 1 <= p.lines <= 1000
            && 1 <= p.max_bytes <= 262_144,
{
    lemma_sound("pane_id"@, p.pane_id@, 512);
}

/// An inspection looks at what it names, and changes nothing: it asks for what is listed,
/// read, shown or explained. Agents here are asked for here, those of peers at their peer.
pub proof fn lemma_inspections_only_look(
    p: InspectParams,
    r: Result<Method, InvalidParams>,
)
    requires
        params::checked(r, params::inspect_target_complaint(p), params::inspect_method(p)),
        r is Ok,
    ensures
        ({
            let m = r->Ok_0;
            ||| m is WorkspaceList || m is WorkspaceGet || m is TabList || m is TabGet
            ||| m is PaneList || m is PaneCurrent || m is PaneGet || m is PaneRead
            ||| m is PaneProcessInfo || m is PaneLayout || m is PaneNeighbor || m is PaneEdges
            ||| m is LayoutExport || m is AgentList || m is AgentGet || m is AgentRead
            ||| m is AgentExplain || m is WorktreeList || m is PeerList || m is PeerHealth
            ||| m is TerminalRecoveryList || m is TerminalRecoveryStatus
        }),
        p is AgentGet ==> r->Ok_0 == Method::AgentGet(p->AgentGet_0) && !text::has_substring(
            (p->AgentGet_0).target@,
            "::"@,
        ),
        p is AgentRead ==> r->Ok_0 == Method::AgentRead(p->AgentRead_0) && !text::has_substring(
            (p->AgentRead_0).target@,
            "::"@,
        ),
        p is RemoteAgentGet ==> r->Ok_0 == Method::AgentGet(p->RemoteAgentGet_0)
            && text::has_substring((p->RemoteAgentGet_0).target@, "::"@),
        p is RemoteAgentRead ==> r->Ok_0 == Method::AgentRead(p->RemoteAgentRead_0)
            && text::has_substring((p->RemoteAgentRead_0).target@, "::"@),
        p is RemoteAgentList ==> r->Ok_0 is AgentList && (r->Ok_0->AgentList_0).include_peers,
        p is PaneRead ==> r->Ok_0 == Method::PaneRead(p->PaneRead_0),
        p is PaneGet ==> r->Ok_0 == Method::PaneGet(p->PaneGet_0),
        p is PeerHealth ==> r->Ok_0 == Method::PeerHealth(p->PeerHealth_0),
{
}

/// The method ends something for good.
pub open spec fn destroys(m: Method) -> bool {
    m is WorkspaceClose || m is TabClose || m is PaneClose || m is WorktreeRemove || m
        is PeerUnregister || m is TerminalRecoveryDiscard
}

/// What ends something for good is asked for by a destructive action, and by no other tool;
/// it ends what the action names.
pub proof fn lemma_only_destructive_actions_destroy(
    action: DestructiveActionParams,
    workspace: WorkspaceControlParams,
    tab: TabControlParams,
    pane: PaneControlParams,
    layout: LayoutControlParams,
    agent: AgentControlParams,
    worktree: WorktreeControlParams,
    peer: PeerControlParams,
)
    ensures
        destroys(params::destructive_method(action)),
        action is ClosePane ==> params::destructive_method(action) == Method::PaneClose(
            action->ClosePane_0,
        ),
        action is RemovePeer ==> params::destructive_method(action) == Method::PeerUnregister(
            action->RemovePeer_0,
        ),
        action is DiscardRecovery ==> params::destructive_method(action)
            == Method::TerminalRecoveryDiscard(action->DiscardRecovery_0),
        action is CloseWorkspace ==> params::destructive_method(action) == Method::WorkspaceClose(
            action->CloseWorkspace_0,
        ),
        action is CloseTab ==> params::destructive_method(action) == Method::TabClose(
            action->CloseTab_0,
        ),
        action is RemoveWorktree ==> params::destructive_method(action) == Method::WorktreeRemove(
            action->RemoveWorktree_0,
        ),
        !destroys(params::workspace_method(workspace)),
        !destroys(params::tab_method(tab)),
        !destroys(params::pane_method(pane)),
        !destroys(params::layout_method(layout)),
        !destroys(params::agent_method(agent)),
        !destroys(params::worktree_method(worktree)),
        !destroys(params::peer_method(peer)),
{
}

/// Agents are controlled here by one tool, and on peers by another; neither reaches where
/// the other does, and each hands on what it was given.
pub proof fn lemma_agents_are_controlled_where_they_run(
    agent: AgentControlParams,
    cwd_is_dir: bool,
    here: Result<Method, InvalidParams>,
    peer: PeerControlParams,
    there: Result<Method, InvalidParams>,
)
    requires
        params::checked(here, params::agent_complaint(agent, cwd_is_dir), params::agent_method(agent)),
        params::checked(there, params::peer_complaint(peer), params::peer_method(peer)),
    ensures
        here is Ok ==> match agent {
            AgentControlParams::Send(x) => here->Ok_0 == Method::AgentSend(x)
                && !text::has_substring(x.target@, "::"@),
            AgentControlParams::Rename(x) => here->Ok_0 == Method::AgentRename(x)
                && !text::has_substring(x.target@, "::"@),
            AgentControlParams::Focus(x) => here->Ok_0 == Method::AgentFocus(x)
                && !text::has_substring(x.target@, "::"@),
            AgentControlParams::Start(x) => here->Ok_0 == Method::AgentStart(*x) && x.peer is None,
        },
        there is Ok ==> match peer {
            PeerControlParams::SendAgent(x) => there->Ok_0 == Method::AgentSend(x)
                && text::has_substring(x.target@, "::"@),
            PeerControlParams::RenameAgent(x) => there->Ok_0 == Method::AgentRename(x)
                && text::has_substring(x.target@, "::"@),
            PeerControlParams::StartAgent(x) => there->Ok_0 == Method::AgentStart(x) && x.peer
                is Some,
            PeerControlParams::ConnectSsh(x) => there->Ok_0 == Method::PeerConnectSsh(x),
            PeerControlParams::DisconnectSsh(x) => there->Ok_0 == Method::PeerDisconnectSsh(x),
        },
{
}

/// A wait waits for what it names, for as long as it says.
pub proof fn lemma_waits_ask_for_what_they_name(p: WaitParams, timeout_ms: u64)
    ensures
        match p {
            WaitParams::Event(x) => params::wait_method(p, timeout_ms) matches Method::EventsWait(y)
                && y.timeout_ms == Some(timeout_ms) && y.match_event == x.match_event,
            WaitParams::PaneOutput(x) => params::wait_method(p, timeout_ms)
                matches Method::PaneWaitForOutput(y) && y.timeout_ms == Some(timeout_ms)
                && y.pane_id == x.pane_id && y.matcher == x.matcher && y.lines == x.lines,
        },
{
}

} // verus!
