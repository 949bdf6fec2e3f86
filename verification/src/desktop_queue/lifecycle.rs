//! How a channel comes about, is used and goes, and what is believed of its records.

use vstd::prelude::*;
use vstd::string::*;

use super::channel::{self, MessageFile, Model};
use super::enqueue::{self, QueueEnv};
use super::laws;
use super::manager::{self, ChannelRecord, IndexFile, Spool};
use super::reconcile;
use super::registry;
use super::settled;
use super::{
    ChannelHandle, ChannelMetadata, CliState, IdentityView, QueueError, QueueErrorKind,
    QueuedMessage,
};
use crate::text;

verus! {

// ---------------------------------------------------------------------------
// What a message may say

/// A letter or digit of ASCII, or one of the four marks of a correlation id.
pub open spec fn plain_mark(c: char) -> bool {
    ('a' <= c <= 'z') || ('A' <= c <= 'Z') || ('0' <= c <= '9') || c == '.' || c == '_' || c == ':'
        || c == '-'
}

/// A message is acceptable exactly if it is of one of five kinds, its text takes up at most
/// sixty-four kibibytes, and its correlation id, if it has one, is made of one to a hundred
/// and twenty-eight plain marks.
pub proof fn lemma_acceptable_messages(
    kind: Seq<char>,
    correlation_id: Option<Seq<char>>,
    words: Seq<char>,
)
    ensures
        super::message_objection(kind, correlation_id, words) is None <==> {
            &&& kind == "info"@ || kind == "progress"@ || kind == "result"@ || kind
                == "question"@ || kind == "error"@
            &&& text::utf8_len(words) <= 65_536
            &&& correlation_id is Some ==> 0 < (correlation_id->0).len() && text::utf8_len(
                correlation_id->0,
            ) <= 128 && forall|i: int|
                0 <= i < (correlation_id->0).len() ==> plain_mark(#[trigger] (correlation_id->0)[i])
        },
        super::message_objection(kind, correlation_id, words) matches Some(o) ==> o.0
            == QueueErrorKind::Invalid,
{
    if correlation_id is Some {
        let id = correlation_id->0;
        assert forall|i: int| 0 <= i < id.len() implies plain_mark(#[trigger] id[i])
            == super::is_correlation_char(id[i]) by {}
        if super::valid_correlation_id(id) {
            assert forall|i: int| 0 <= i < id.len() implies plain_mark(#[trigger] id[i]) by {
                assert(super::is_correlation_char(id[i]));
            }
        }
        if 0 < id.len() && text::utf8_len(id) <= 128 && (forall|i: int|
            0 <= i < id.len() ==> plain_mark(#[trigger] id[i])) {
            assert forall|i: int| 0 <= i < id.len() implies super::is_correlation_char(
                #[trigger] id[i],
            ) by {
                assert(plain_mark(id[i]));
            }
        }
    }
}

/// An identifier is made of one to two hundred and fifty-six letters, digits and
/// underscores.
pub proof fn lemma_plain_identifiers(label: Seq<char>, value: Seq<char>)
    ensures
        super::id_objection(label, value) is None <==> {
            &&& 0 < value.len()
            &&& text::utf8_len(value) <= 256
            &&& forall|i: int|
                0 <= i < value.len() ==> {
                    let c = #[trigger] value[i];
                    ('a' <= c <= 'z') || ('A' <= c <= 'Z') || ('0' <= c <= '9') || c == '_'
                }
        },
{
    if forall|i: int|
        0 <= i < value.len() ==> {
            let c = #[trigger] value[i];
            ('a' <= c <= 'z') || ('A' <= c <= 'Z') || ('0' <= c <= '9') || c == '_'
        } {
        assert forall|i: int| 0 <= i < value.len() implies super::is_id_char(
            #[trigger] value[i],
        ) by {}
    }
    if super::valid_id(value) {
        assert forall|i: int| 0 <= i < value.len() implies {
            let c = #[trigger] value[i];
            ('a' <= c <= 'z') || ('A' <= c <= 'Z') || ('0' <= c <= '9') || c == '_'
        } by {
            assert(super::is_id_char(value[i]));
        }
    }
}

/// A file is believed exactly if it holds an acceptable message of this CLI and version,
/// under the name that its number and identifier give it.
pub proof fn lemma_believed_files_are_what_they_say(f: MessageFile, cli_id: Seq<char>)
    ensures
        channel::valid_file(f, cli_id) <==> (f.message matches Ok(m) && m.cli_id@ == cli_id
            && m.schema_version == 1 && f.name@ == super::message_file_name(
            m.sequence,
            m.message_id@,
        ) && super::id_objection("message_id"@, m.message_id@) is None
            && super::message_objection(m.kind@, text::opt_view(m.correlation_id), m.text@)
            is None),
{
}

// ---------------------------------------------------------------------------
// New channels

/// `i` is where the registry keeps its entry for the CLI.
pub open spec fn entry_at(s: Spool, cli_id: Seq<char>, i: int) -> bool {
    0 <= i < s.index.len() && s.index[i].cli_id@ == cli_id
}

pub(crate) proof fn lemma_index_at(s: Spool, cli_id: Seq<char>, i: int)
    requires
        manager::distinct_index(s.index),
        entry_at(s, cli_id, i),
    ensures
        manager::has_index(s.index, cli_id),
        manager::index_at(s.index, cli_id) == i,
{
    let k = manager::index_at(s.index, cli_id);
    assert(s.index[i].cli_id@ == cli_id);
    assert(s.index[k].cli_id@ == cli_id);
    if i < k {
        assert(s.index[i].cli_id@ != s.index[k].cli_id@);
    } else if k < i {
        assert(s.index[k].cli_id@ != s.index[i].cli_id@);
    }
}

pub(crate) proof fn lemma_dir_at(s: Spool, dir: Seq<char>, k: int)
    requires
        manager::distinct_dirs(s.channels),
        0 <= k < s.channels.len(),
        s.channels[k].dir@ == dir,
    ensures
        manager::has_dir(s.channels, dir),
        manager::dir_at(s.channels, dir) == k,
{
    let j = manager::dir_at(s.channels, dir);
    assert(s.channels[j].dir@ == dir);
    if j < k {
        assert(s.channels[j].dir@ != s.channels[k].dir@);
    } else if k < j {
        assert(s.channels[k].dir@ != s.channels[j].dir@);
    }
}

/// A channel that was created is the last one, holds nothing, and is registered for its
/// CLI under the name and directory that were given, as being created. Its first message
/// will have the number one. The other channels are as they were.
pub proof fn lemma_new_channels_are_registered(
    s: Spool,
    root: Seq<char>,
    name: Seq<char>,
    cwd: Seq<char>,
    now: u64,
    handle: ChannelHandle,
    t: Spool,
)
    requires
        manager::well_formed(s),
        manager::well_formed(t),
        reconcile::channel_added(s, root, name, cwd, now, handle, t),
    ensures
        t.channels.len() == s.channels.len() + 1,
        t.channels.drop_last() == s.channels,
        t.channels.last().dir@ == handle.channel_dir@,
        t.channels.last().channel@.pending.len() == 0,
        t.channels.last().channel@.leases.len() == 0,
        t.channels.last().metadata matches Some(Ok(m)) && m.cli_id@ == handle.cli_id@
            && m.session@ == s.session && m.name@ == name && m.cwd@ == cwd && m.state
            == CliState::Creating && m.next_sequence == 1 && m.created_at_unix_ms == now
            && text::opt_view(m.launch_marker) == Some(handle.launch_marker@),
        exists|i: int| #[trigger]
            entry_at(t, handle.cli_id@, i) && (t.index[i].entry matches Ok(entry)
                && entry.channel_dir@ == handle.channel_dir@ && entry.identity@.cli_id
                == handle.cli_id@ && entry.identity@.name == name && entry.identity@.cwd == cwd
                && entry.identity@.state == CliState::Creating && entry.identity@.launch_marker
                == Some(handle.launch_marker@)),
        text::pair_views(handle.env@) == seq![
            ("HERDR_DESKTOP_QUEUE_VERSION"@, "1"@),
            ("HERDR_DESKTOP_CLI_ID"@, handle.cli_id@),
            ("HERDR_DESKTOP_QUEUE_DIR"@, root + "/channels/"@ + handle.channel_dir@),
        ],
{
    assert(t.channels.drop_last() =~= s.channels);
    if manager::has_index(s.index, handle.cli_id@) {
        let i = manager::index_at(s.index, handle.cli_id@);
        assert(entry_at(t, handle.cli_id@, i));
    } else {
        assert(entry_at(t, handle.cli_id@, t.index.len() - 1));
    }
}

/// What a new channel's CLI finds in its environment lets it send: it is the capability of
/// that CLI, for the directory of that channel.
pub proof fn lemma_capabilities_open_their_channel(
    root: Seq<char>,
    handle: ChannelHandle,
    env: QueueEnv,
    kind: Seq<char>,
    correlation_id: Option<Seq<char>>,
    words: Seq<char>,
)
    requires
        text::has_prefix(root, "/"@),
        super::valid_id(handle.cli_id@),
        text::opt_view(env.version) == Some(
            reconcile::channel_env(root, handle.cli_id@, handle.channel_dir@)[0].1,
        ),
        text::opt_view(env.cli_id) == Some(
            reconcile::channel_env(root, handle.cli_id@, handle.channel_dir@)[1].1,
        ),
        text::opt_view(env.dir) == Some(
            reconcile::channel_env(root, handle.cli_id@, handle.channel_dir@)[2].1,
        ),
    ensures
        enqueue::capability_objection(env, kind, correlation_id, words)
            == super::message_objection(kind, correlation_id, words),
        (env.cli_id->0)@ == handle.cli_id@,
        (env.dir->0)@ == root + "/channels/"@ + handle.channel_dir@,
{
    let dir = root + "/channels/"@ + handle.channel_dir@;
    reveal_strlit("/");
    assert(dir.subrange(0, 1) =~= root.subrange(0, 1));
    assert(text::has_prefix(dir, "/"@));
}

/// No message goes out without a capability: the version, the identity and an absolute
/// directory.
pub proof fn lemma_no_message_without_a_capability(
    env: QueueEnv,
    kind: Seq<char>,
    correlation_id: Option<Seq<char>>,
    words: Seq<char>,
)
    ensures
        enqueue::capability_objection(env, kind, correlation_id, words) is None <==> {
            &&& super::message_objection(kind, correlation_id, words) is None
            &&& env.version matches Some(v) && v@ == "1"@
            &&& env.cli_id matches Some(id) && super::id_objection("cli_id"@, id@) is None
            &&& env.dir matches Some(dir) && dir@.len() > 0 && dir@[0] == '/'
        },
{
    reveal_strlit("/");
    match env.dir {
        Some(dir) => {
            if dir@.len() > 0 && dir@[0] == '/' {
                assert(dir@.subrange(0, 1) =~= "/"@);
            }
            if text::has_prefix(dir@, "/"@) {
                assert(dir@.subrange(0, 1)[0] == '/');
            }
        },
        None => {},
    }
}

// ---------------------------------------------------------------------------
// Activation and closing

/// An activated CLI is the one that was launched, under its marker, where it was found to
/// run; one that is closed is as it was, but closed.
pub proof fn lemma_identities_change_their_state_only(
    identity: IdentityView,
    cli_id: Seq<char>,
    marker: Seq<char>,
)
    ensures
        ({
            let active = registry::activated(identity, cli_id, marker);
            &&& active.state == CliState::Active && active.cli_id == cli_id
            &&& active.launch_marker == Some(marker)
            &&& active.pane_id == identity.pane_id && active.terminal_id == identity.terminal_id
            &&& active.workspace_id == identity.workspace_id && active.tab_id == identity.tab_id
            &&& active.name == identity.name && active.cwd == identity.cwd
        }),
        ({
            let closed = registry::closed(identity);
            &&& closed.state == CliState::Closed && closed.cli_id == identity.cli_id
            &&& closed.launch_marker == identity.launch_marker
            &&& closed.pane_id == identity.pane_id && closed.terminal_id == identity.terminal_id
            &&& closed.workspace_id == identity.workspace_id && closed.tab_id == identity.tab_id
            &&& closed.name == identity.name && closed.cwd == identity.cwd
        }),
{
}

/// Once an identity is set, the registry and the channel's own record agree on it; who asks
/// for the CLI is told it. Every other entry and channel, and every message, stays.
pub proof fn lemma_set_identities_are_told(
    s: Spool,
    t: Spool,
    cli_id: Seq<char>,
    i: int,
    k: int,
    identity: IdentityView,
    now: u64,
    j: int,
)
    requires
        manager::well_formed(t),
        manager::identity_set(s, t, i, k, identity, now),
        s.index[i].cli_id@ == cli_id,
    ensures
        manager::registered(t, cli_id).identity@ == identity,
        manager::registered(t, cli_id).channel_dir == (s.index[i].entry->Ok_0).channel_dir,
        t.channels[k].metadata matches Some(Ok(m)) && m.state == identity.state && m.identity is Some
            && (m.identity->0)@ == identity,
        t.channels[k].metadata matches Some(Ok(m)) ==> (s.channels[k].metadata matches Some(Ok(b))
            && m.next_sequence == b.next_sequence && m.cli_id == b.cli_id && m.session == b.session
            && m.launch_marker == b.launch_marker && m.updated_at_unix_ms == now),
        t.channels[k].channel == s.channels[k].channel,
        0 <= j < s.index.len() && j != i ==> t.index[j] == s.index[j],
        0 <= j < s.channels.len() && j != k ==> t.channels[j] == s.channels[j],
{
    assert(entry_at(t, cli_id, i));
    lemma_index_at(t, cli_id, i);
}

/// A CLI is activated only while it is being created, and under the marker that it was
/// launched with, on both records.
pub proof fn lemma_only_launched_clis_are_activated(s: Spool, handle: ChannelHandle)
    requires
        manager::well_formed(s),
        registry::activation_objection(s, handle) is None,
    ensures
        exists|i: int| #[trigger]
            entry_at(s, handle.cli_id@, i) && (s.index[i].entry matches Ok(entry)
                && entry.identity@.state == CliState::Creating && entry.identity@.launch_marker
                == Some(handle.launch_marker@) && entry.channel_dir@ == handle.channel_dir@
                && entry.identity@.cli_id == handle.cli_id@),
        exists|k: int|
            0 <= k < s.channels.len() && (#[trigger] s.channels[k]).dir@ == handle.channel_dir@ && (
            s.channels[k].metadata matches Some(Ok(m)) && m.cli_id@ == handle.cli_id@ && m.session@
                == s.session && text::opt_view(m.launch_marker) == Some(handle.launch_marker@)),
{
    let i = manager::index_at(s.index, handle.cli_id@);
    assert(s.index[i].cli_id@ == handle.cli_id@);
    assert(entry_at(s, handle.cli_id@, i));
    let k = manager::dir_at(s.channels, handle.channel_dir@);
    assert(s.channels[k].dir@ == handle.channel_dir@);
}

/// Into a channel that is closed nothing can be sent.
pub proof fn lemma_closed_channels_take_nothing(
    m: Model,
    metadata: ChannelMetadata,
    cli_id: Seq<char>,
    kind: Seq<char>,
    correlation_id: Option<String>,
    words: Seq<char>,
    drawn: Result<String, QueueError>,
    now: u64,
    n: Model,
    r: Result<QueuedMessage, QueueError>,
)
    requires
        metadata.state == CliState::Closed,
        enqueue::begun(m, metadata, cli_id, kind, correlation_id, words, drawn, now, n, r),
    ensures
        r is Err,
        n == m,
{
}

// ---------------------------------------------------------------------------
// What is swept away

/// A channel is swept away exactly if it holds nothing and is closed, or has been in the
/// making for an hour under a marker that no running CLI has.
pub proof fn lemma_only_empty_channels_are_swept_away(
    c: channel::Channel,
    metadata: ChannelMetadata,
    live: Option<Seq<Seq<char>>>,
    now: u64,
)
    ensures
        registry::prunable(c, metadata, live, now) ==> c.pending@.len() == 0
            && enqueue::leased_count(c.leases@) == 0,
        registry::prunable(c, metadata, live, now) <==> c.pending@.len() == 0
            && enqueue::leased_count(c.leases@) == 0 && c.tmp@.len() == 0 && c.receipts@.len() == 0
            && c.quarantine@.len() == 0 && (metadata.state == CliState::Closed || metadata.state == CliState::Creating && (
        metadata.launch_marker matches Some(m) ==> live is Some && !(live->0).contains(m@)) && (
        metadata.updated_at_unix_ms + 3_600_000 <= now || now == u64::MAX)),
{
}

/// Nothing is leased exactly if every lease is empty.
pub proof fn lemma_leased_messages_are_counted(all: Seq<channel::LeaseDir>)
    ensures
        enqueue::leased_count(all) == 0 <==> forall|i: int|
            0 <= i < all.len() ==> (#[trigger] all[i]).files@.len() == 0,
    decreases all.len(),
{
    if all.len() > 0 {
        let front = all.drop_last();
        lemma_leased_messages_are_counted(front);
        assert(forall|i: int| 0 <= i < front.len() ==> front[i] == all[i]);
        assert(all[all.len() - 1] == all.last());
        if enqueue::leased_count(all) == 0 {
            assert forall|i: int| 0 <= i < all.len() implies (#[trigger] all[i]).files@.len()
                == 0 by {
                if i < front.len() {
                    assert(front[i].files@.len() == 0);
                }
            }
        } else if enqueue::leased_count(front) > 0 {
            let i = choose|i: int| 0 <= i < front.len() && (#[trigger] front[i]).files@.len() > 0;
            assert(all[i].files@.len() > 0);
        }
    }
}

/// Sweeping tells of a launch exactly if it takes its channel away and the launch had never
/// come about: the CLI is then told of last, and is no longer registered.
pub proof fn lemma_swept_launches_are_told_of(
    s: Spool,
    file: IndexFile,
    live: Option<Seq<Seq<char>>>,
    now: u64,
    t: Spool,
    before: Seq<Seq<char>>,
    after: Seq<Seq<char>>,
)
    requires
        registry::prune_step(s, file, live, now, t, before, after),
    ensures
        after == before || after == before.push(file.cli_id@),
        after != before ==> t.index == s.index && t.channels.len() < s.channels.len(),
        t.channels.len() < s.channels.len() ==> exists|k: int|
            0 <= k < s.channels.len() && t.channels == s.channels.remove(k) && ({
                let metadata = ((#[trigger] s.channels[k]).metadata->0)->Ok_0;
                &&& after != before <==> metadata.state == CliState::Creating
                &&& metadata.state == CliState::Creating || metadata.state == CliState::Closed
            }),
        t.channels.len() >= s.channels.len() && registry::sound_entry(file) ==> t.index
            == s.index.push(file),
{
    assert(before.push(file.cli_id@).len() == before.len() + 1);
    if registry::sound_entry(file) && manager::has_dir(
        s.channels,
        registry::entry_of(file).channel_dir@,
    ) {
        let k = manager::dir_at(s.channels, registry::entry_of(file).channel_dir@);
        assert(0 <= k < s.channels.len());
        assert(s.channels[k] == s.channels[k]);
    }
}

/// The channel is still there, with all its messages.
pub open spec fn still_holds(s: Spool, c: ChannelRecord) -> bool {
    exists|k: int|
        0 <= k < s.channels.len() && (#[trigger] s.channels[k]).dir@ == c.dir@
            && s.channels[k].channel@.pending == c.channel@.pending
            && s.channels[k].channel@.leases == c.channel@.leases
}

proof fn lemma_receipts_keep_messages(m: Model, cli_id: Seq<char>, now: u64)
    ensures
        channel::receipts_pruned(m, cli_id, now).pending == m.pending,
        channel::receipts_pruned(m, cli_id, now).leases == m.leases,
{
    let bare = Model { receipts: Seq::empty(), ..m };
    laws::lemma_receipts_leave_pending(bare, m.receipts, cli_id, now);
    settled::lemma_receipts_leave_leases(bare, m.receipts, cli_id, now);
}

/// To sweep loses no message: a channel that holds one, pending or leased, is still there
/// with all of them.
pub proof fn lemma_sweeping_loses_no_message(
    s: Spool,
    files: Seq<IndexFile>,
    live: Option<Seq<Seq<char>>>,
    now: u64,
    t: Spool,
    names: Seq<Seq<char>>,
    c: ChannelRecord,
)
    requires
        registry::pruned_by(s, files, live, now, t, names),
        still_holds(s, c),
        c.channel@.pending.len() > 0 || enqueue::leased_count(c.channel@.leases) > 0,
    ensures
        still_holds(t, c),
    decreases files.len(),
{
    if files.len() > 0 {
        let (mid, before) = choose|mid: Spool, before: Seq<Seq<char>>|
            registry::pruned_by(s, files.drop_last(), live, now, mid, before)
                && #[trigger] registry::prune_step(
                mid,
                files.last(),
                live,
                now,
                t,
                before,
                names,
            );
        lemma_sweeping_loses_no_message(s, files.drop_last(), live, now, mid, before, c);
        let file = files.last();
        let at = choose|k: int|
            0 <= k < mid.channels.len() && (#[trigger] mid.channels[k]).dir@ == c.dir@
                && mid.channels[k].channel@.pending == c.channel@.pending
                && mid.channels[k].channel@.leases == c.channel@.leases;
        if registry::sound_entry(file) && manager::has_dir(
            mid.channels,
            registry::entry_of(file).channel_dir@,
        ) {
            let dir = registry::entry_of(file).channel_dir@;
            let k = manager::dir_at(mid.channels, dir);
            assert(mid.channels[k].dir@ == dir);
            if manager::record_objection(mid.root, mid.channels[k], file.cli_id@, mid.session)
                is None {
                let d = choose|d: ChannelRecord|
                    #[trigger] registry::tidied(mid.channels[k], d, file.cli_id@, now) && {
                        let metadata = manager::metadata_of(d)->Ok_0;
                        if registry::prunable(d.channel, metadata, live, now) {
                            &&& t == Spool { channels: mid.channels.remove(k), ..mid }
                            &&& names == if registry::stale_creating(metadata, live, now) {
                                before.push(file.cli_id@)
                            } else {
                                before
                            }
                        } else {
                            &&& t == registry::keep_index(
                                Spool { channels: mid.channels.update(k, d), ..mid },
                                file,
                            )
                            &&& names == before
                        }
                    };
                lemma_receipts_keep_messages(mid.channels[k].channel@, file.cli_id@, now);
                let metadata = manager::metadata_of(d)->Ok_0;
                if registry::prunable(d.channel, metadata, live, now) {
                    assert(at != k);
                    let to = if at < k {
                        at
                    } else {
                        at - 1
                    };
                    assert(t.channels[to] == mid.channels[at]);
                } else if at == k {
                    assert(t.channels[k] == d);
                } else {
                    assert(t.channels[at] == mid.channels[at]);
                }
            } else {
                assert(t.channels[at] == mid.channels[at]);
            }
        } else {
            assert(t.channels[at] == mid.channels[at]);
        }
    }
}

/// A launch that is given up leaves nothing behind that could be taken for a running CLI:
/// either the CLI is no longer registered, or it is registered as closed. Every other CLI
/// stays registered as it is.
pub proof fn lemma_given_up_launches_do_not_run(
    s: Spool,
    handle: ChannelHandle,
    now: u64,
    t: Spool,
    r: Result<(), QueueError>,
    i: int,
)
    requires
        manager::well_formed(s),
        registry::abort_post(s, handle, now, t, r),
        0 <= i < t.index.len(),
    ensures
        r is Ok && t.index[i].cli_id@ == handle.cli_id@ ==> t.index[i].entry is Ok && (
        t.index[i].entry->Ok_0).identity@.state == CliState::Closed,
        t.index[i].cli_id@ != handle.cli_id@ ==> s.index.contains(t.index[i]),
{
    let at = manager::index_at(s.index, handle.cli_id@);
    if manager::has_index(s.index, handle.cli_id@) {
        assert(s.index[at].cli_id@ == handle.cli_id@);
    }
    if t.index.len() == s.index.len() {
        if i != at {
            assert(t.index[i] == s.index[i]);
        }
    } else {
        let from = if i < at {
            i
        } else {
            i + 1
        };
        assert(t.index[i] == s.index[from]);
    }
}

/// A launch that is given up takes its channel away only where this holds nothing; else the
/// channel is closed, and keeps its messages.
pub proof fn lemma_given_up_launches_lose_no_message(
    s: Spool,
    handle: ChannelHandle,
    now: u64,
    t: Spool,
    r: Result<(), QueueError>,
    k: int,
)
    requires
        manager::well_formed(s),
        registry::abort_post(s, handle, now, t, r),
        0 <= k < s.channels.len(),
    ensures
        s.channels[k].dir@ != handle.channel_dir@ || s.channels[k].channel@.pending.len() > 0
            || enqueue::leased_count(s.channels[k].channel@.leases) > 0 ==> still_holds(
            t,
            s.channels[k],
        ),
        r is Ok && s.channels[k].dir@ == handle.channel_dir@ && s.channels[k].channel@.pending.len()
            == 0 && enqueue::leased_count(s.channels[k].channel@.leases) == 0
            ==> !manager::has_dir(t.channels, handle.channel_dir@),
        r is Err ==> t == s,
{
    if manager::has_dir(s.channels, handle.channel_dir@) {
        let j = manager::dir_at(s.channels, handle.channel_dir@);
        assert(s.channels[j].dir@ == handle.channel_dir@);
        if s.channels[j].channel@.pending.len() > 0 || enqueue::leased_count(
            s.channels[j].channel@.leases,
        ) > 0 {
            if r is Ok && j == k {
                assert(t.channels[k].channel == s.channels[k].channel);
            } else {
                assert(t.channels[k] == s.channels[k]);
            }
            if s.channels[k].dir@ == handle.channel_dir@ {
                lemma_dir_at(s, handle.channel_dir@, k);
            }
        } else {
            if k != j {
                let to = if k < j {
                    k
                } else {
                    k - 1
                };
                assert(t.channels[to] == s.channels[k]);
            }
            if manager::has_dir(t.channels, handle.channel_dir@) {
                let n = manager::dir_at(t.channels, handle.channel_dir@);
                assert(t.channels[n].dir@ == handle.channel_dir@);
                let from = if n < j {
                    n
                } else {
                    n + 1
                };
                assert(s.channels[from] == t.channels[n]);
                lemma_dir_at(s, handle.channel_dir@, from);
            }
            if s.channels[k].dir@ == handle.channel_dir@ {
                lemma_dir_at(s, handle.channel_dir@, k);
            }
        }
    } else {
        assert(t.channels[k] == s.channels[k]);
        if s.channels[k].dir@ == handle.channel_dir@ {
            assert(manager::has_dir(s.channels, handle.channel_dir@));
        }
    }
}

/// To reconcile loses no message of a channel that has a record, whether or not this can
/// be believed; a record that can be believed is registered, with its own state.
pub proof fn lemma_reconciling_loses_no_message(
    s: Spool,
    c: ChannelRecord,
    now: u64,
    t: Spool,
    other: ChannelRecord,
)
    requires
        reconcile::reconcile_step(s, c, now, t),
    ensures
        still_holds(s, other) ==> still_holds(t, other),
        c.metadata is Some ==> still_holds(t, c),
        super::channel_name_objection(c.dir@) is None && c.metadata is Some
            && manager::record_objection(
            s.root,
            c,
            super::channel_owner(c.dir@),
            s.session,
        ) is None ==> exists|i: int| #[trigger]
            entry_at(t, super::channel_owner(c.dir@), i) && (t.index[i].entry matches Ok(entry)
                && entry.channel_dir@ == c.dir@ && entry.identity@.cli_id == super::channel_owner(
                c.dir@,
            ) && entry.identity@.state == ((c.metadata->0)->Ok_0).state && ((
            (c.metadata->0)->Ok_0).identity matches Some(known) ==> entry.identity@.pane_id
                == known@.pane_id && entry.identity@.terminal_id == known@.terminal_id
                && entry.identity@.name == known@.name && entry.identity@.cwd == known@.cwd)),
{
    let cli_id = super::channel_owner(c.dir@);
    let n = t.channels.len() - 1;
    if still_holds(s, other) {
        let at = choose|k: int|
            0 <= k < s.channels.len() && (#[trigger] s.channels[k]).dir@ == other.dir@
                && s.channels[k].channel@.pending == other.channel@.pending
                && s.channels[k].channel@.leases == other.channel@.leases;
        assert(t.channels[at] == s.channels[at]);
    }
    if super::channel_name_objection(c.dir@) is Some {
        assert(t.channels[n] == c);
    } else if c.metadata is None {
    } else if manager::record_objection(s.root, c, cli_id, s.session) is Some {
        let d = choose|d: ChannelRecord|
            #[trigger] reconcile::record_set_aside(c, d, now) && t == reconcile::keep_channel(
                reconcile::drop_index(s, cli_id),
                d,
            );
        assert(t.channels[n] == d);
    } else {
        let base = reconcile::cleared(s, cli_id, c.dir@);
        let identity = reconcile::agreed_identity(s, c, cli_id);
        let d = choose|d: ChannelRecord|
            #[trigger] reconcile::record_reconciled(c, d, identity, cli_id, now) && {
                &&& reconcile::index_carries(base.index, t.index, cli_id, c.dir@, identity)
                &&& t == reconcile::keep_channel(Spool { index: t.index, ..base }, d)
            };
        lemma_receipts_keep_messages(c.channel@, cli_id, now);
        assert(t.channels[n] == d);
        if manager::has_index(base.index, cli_id) {
            let i = manager::index_at(base.index, cli_id);
            assert(base.index[i].cli_id@ == cli_id);
            assert(entry_at(t, cli_id, i));
        } else {
            assert(entry_at(t, cli_id, t.index.len() - 1));
        }
    }
}

/// There are never more than thirty-two channels of a session: one more is refused, and
/// where one is created there was room.
pub proof fn lemma_channels_are_limited(
    s: Spool,
    root: Seq<char>,
    name: Seq<char>,
    cwd: Seq<char>,
    now: u64,
    draws: Seq<Result<reconcile::ChannelIds, QueueError>>,
    r: Result<ChannelHandle, QueueError>,
    t: Spool,
)
    requires
        reconcile::creation_post(s, root, name, cwd, now, draws, r, t),
        draws.len() > 0,
        draws[0] is Ok,
    ensures
        exists|m: Spool| #[trigger]
            reconcile::maintained(s, now, m) && (m.index.len() >= 32 ==> r is Err && t == m) && (
            m.index.len() < 32 && !manager::has_dir(
                m.channels,
                ((draws[0])->Ok_0).cli_id@ + "."@ + ((draws[0])->Ok_0).capability@,
            ) ==> (r matches Ok(handle) && handle.cli_id@ == ((draws[0])->Ok_0).cli_id@
                && handle.launch_marker@ == ((draws[0])->Ok_0).launch_marker@
                && handle.channel_dir@ == ((draws[0])->Ok_0).cli_id@ + "."@ + (
            (draws[0])->Ok_0).capability@ && reconcile::channel_added(
                m,
                root,
                name,
                cwd,
                now,
                handle,
                t,
            ))),
{
    let m = choose|m: Spool|
        #[trigger] reconcile::maintained(s, now, m) && if m.index.len() >= super::MAX_CHANNELS {
            &&& super::leases::refused(
                r,
                QueueErrorKind::Full,
                "desktop queue supports at most 32 channels per session"@,
            )
            &&& t == m
        } else {
            reconcile::channel_created(m, root, name, cwd, now, draws, r, t)
        };
    assert(reconcile::maintained(s, now, m));
}

/// A directory without a record is kept for an hour, in which its channel may still be in
/// the making, and is then cleared away; one whose name is no channel's is left alone.
pub proof fn lemma_unrecorded_channels_are_given_an_hour(
    s: Spool,
    c: ChannelRecord,
    now: u64,
    t: Spool,
)
    requires
        reconcile::reconcile_step(s, c, now, t),
    ensures
        t.channels == s.channels || t.channels.len() == s.channels.len() + 1,
        c.metadata is Some || super::channel_name_objection(c.dir@) is Some ==> t.channels.len()
            == s.channels.len() + 1 && t.channels.last().dir@ == c.dir@,
        super::channel_name_objection(c.dir@) is Some ==> t.channels.last() == c && t.index
            == s.index,
        c.metadata is None && super::channel_name_objection(c.dir@) is None && c.modified_ms
            + 3_600_000 <= u64::MAX ==> t.index == s.index && (if now >= c.modified_ms + 3_600_000 {
            t.channels == s.channels
        } else {
            t.channels == s.channels.push(c)
        }),
{
}

/// A temporary file survives a reconciliation exactly if it is no older than an hour, or is
/// none that a write in progress leaves; no other file comes about.
pub proof fn lemma_fresh_files_survive_reconciling(
    s: Spool,
    c: ChannelRecord,
    now: u64,
    t: Spool,
    i: int,
)
    requires
        reconcile::reconcile_step(s, c, now, t),
        super::channel_name_objection(c.dir@) is None,
        c.metadata is Some,
        0 <= i < c.channel.tmp@.len(),
        c.channel.tmp@[i].modified_ms + 3_600_000 <= u64::MAX,
    ensures
        ({
            let f = c.channel.tmp@[i];
            let left = t.channels.last().channel.tmp@;
            &&& left.contains(f) <==> !(text::has_prefix(f.name@, ".tmp-"@) && now
                >= f.modified_ms + 3_600_000)
            &&& left.len() <= c.channel.tmp@.len()
        }),
{
    let fresh = |f: channel::TempFile| !channel::stale_temp(f, now);
    let tmp = c.channel.tmp@;
    let left = tmp.filter(fresh);
    tmp.lemma_filter_len(fresh);
    assert(t.channels.last().channel.tmp@ == left);
    if fresh(tmp[i]) {
        tmp.lemma_filter_contains(fresh, i);
    } else if left.contains(tmp[i]) {
        let k = left.index_of(tmp[i]);
        tmp.lemma_filter_pred(fresh, k);
    }
}

} // verus!
