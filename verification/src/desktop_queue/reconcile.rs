//! Bringing the registry in line with the channels, and adding channels to it.

use vstd::prelude::*;
use vstd::string::*;

use super::channel::{self, Channel, TempFile};
use super::leases;
use super::manager::{self, ChannelRecord, IndexFile, QueueManager, Spool};
use super::registry;
use super::{
    ChannelHandle, ChannelMetadata, CliIdentity, CliState, IdentityView, IndexEntry, QueueError,
    QueueErrorKind, MAX_CHANNELS, QUEUE_SCHEMA_VERSION,
};
use crate::text;

verus! {

pub open spec fn keep_channel(s: Spool, c: ChannelRecord) -> Spool {
    Spool { channels: s.channels.push(c), ..s }
}

/// The registry file of `cli_id`, if there is one, is set aside.
pub open spec fn drop_index(s: Spool, cli_id: Seq<char>) -> Spool {
    if manager::has_index(s.index, cli_id) {
        registry::set_aside(
            Spool { index: s.index.remove(manager::index_at(s.index, cli_id)), ..s },
            cli_id + ".json"@,
        )
    } else {
        s
    }
}

/// The registry already leads to this channel.
pub open spec fn indexed(s: Spool, cli_id: Seq<char>, dir: Seq<char>) -> bool {
    manager::has_index(s.index, cli_id) && {
        let file = s.index[manager::index_at(s.index, cli_id)];
        file.entry is Ok && super::index_objection(file.entry->Ok_0, cli_id) is None && (
        file.entry->Ok_0).channel_dir@ == dir
    }
}

pub open spec fn is_entry(
    f: IndexFile,
    cli_id: Seq<char>,
    dir: Seq<char>,
    identity: IdentityView,
) -> bool {
    &&& f.cli_id@ == cli_id
    &&& f.entry is Ok
    &&& (f.entry->Ok_0).schema_version == QUEUE_SCHEMA_VERSION
    &&& (f.entry->Ok_0).channel_dir@ == dir
    &&& (f.entry->Ok_0).identity@ == identity
}

/// The registry `after` differs from `before` in that it carries this entry.
pub open spec fn index_carries(
    before: Seq<IndexFile>,
    after: Seq<IndexFile>,
    cli_id: Seq<char>,
    dir: Seq<char>,
    identity: IdentityView,
) -> bool {
    if manager::has_index(before, cli_id) {
        let i = manager::index_at(before, cli_id);
        after == before.update(i, after[i]) && is_entry(after[i], cli_id, dir, identity)
    } else {
        &&& after.len() == before.len() + 1
        &&& after == before.push(after.last())
        &&& is_entry(after.last(), cli_id, dir, identity)
    }
}

/// The channel's own record decides its state; of the identity it is the first
/// that is known: the channel's, the registry's, a placeholder.
pub open spec fn reconciled_identity(
    metadata: ChannelMetadata,
    existing: Option<IdentityView>,
    cli_id: Seq<char>,
) -> IdentityView {
    let known = match metadata.identity {
        Some(identity) => identity@,
        None => match existing {
            Some(identity) => identity,
            None => super::placeholder_view(metadata),
        },
    };
    IdentityView { cli_id, state: metadata.state, ..known }
}

pub open spec fn fresh_temp(c: ChannelRecord, now: u64) -> Seq<TempFile> {
    c.channel.tmp@.filter(|f: TempFile| !channel::stale_temp(f, now))
}

/// `d` is `c` after its unreadable record was set aside.
pub open spec fn record_set_aside(c: ChannelRecord, d: ChannelRecord, now: u64) -> bool {
    &&& d.dir == c.dir
    &&& d.modified_ms == c.modified_ms
    &&& d.metadata is None
    &&& d.channel@ == channel::quarantined(c.channel@, "channel.json"@)
    &&& d.channel.tmp@ == fresh_temp(c, now)
}

/// `d` is `c` once its record carries `identity`.
pub open spec fn record_reconciled(
    c: ChannelRecord,
    d: ChannelRecord,
    identity: IdentityView,
    cli_id: Seq<char>,
    now: u64,
) -> bool {
    &&& d.dir == c.dir
    &&& d.modified_ms == c.modified_ms
    &&& d.channel@ == channel::receipts_pruned(c.channel@, cli_id, now)
    &&& d.channel.tmp@ == fresh_temp(c, now)
    &&& d.metadata matches Some(Ok(metadata))
    &&& metadata.identity is Some
    &&& (metadata.identity->0)@ == identity
    &&& metadata == ChannelMetadata {
        identity: metadata.identity,
        ..manager::metadata_of(c)->Ok_0
    }
}

/// The registry without an entry that leads elsewhere.
pub open spec fn cleared(s: Spool, cli_id: Seq<char>, dir: Seq<char>) -> Spool {
    if indexed(s, cli_id, dir) {
        s
    } else {
        drop_index(s, cli_id)
    }
}

/// The identity that the channel and the registry agree on afterwards.
pub open spec fn agreed_identity(s: Spool, c: ChannelRecord, cli_id: Seq<char>) -> IdentityView {
    reconciled_identity(
        manager::metadata_of(c)->Ok_0,
        if indexed(s, cli_id, c.dir@) {
            Some(manager::registered(s, cli_id).identity@)
        } else {
            None
        },
        cli_id,
    )
}

/// What reconciliation does about one channel.
pub open spec fn reconcile_step(s: Spool, c: ChannelRecord, now: u64, t: Spool) -> bool {
    let cli_id = super::channel_owner(c.dir@);
    if super::channel_name_objection(c.dir@) is Some {
        t == keep_channel(s, c)
    } else if c.metadata is None {
        t == if channel::stale(c.modified_ms, now) {
            s
        } else {
            keep_channel(s, c)
        }
    } else if manager::record_objection(s.root, c, cli_id, s.session) is Some {
        exists|d: ChannelRecord|
            #[trigger] record_set_aside(c, d, now) && t == keep_channel(drop_index(s, cli_id), d)
    } else {
        let base = cleared(s, cli_id, c.dir@);
        let identity = agreed_identity(s, c, cli_id);
        exists|d: ChannelRecord|
            #[trigger] record_reconciled(c, d, identity, cli_id, now) && {
                &&& index_carries(base.index, t.index, cli_id, c.dir@, identity)
                &&& t == keep_channel(Spool { index: t.index, ..base }, d)
            }
    }
}

/// Reconciliation goes through the channels in order.
pub open spec fn reconciled_by(s: Spool, channels: Seq<ChannelRecord>, now: u64, t: Spool) -> bool
    decreases channels.len(),
{
    if channels.len() == 0 {
        t == s
    } else {
        exists|mid: Spool|
            reconciled_by(s, channels.drop_last(), now, mid) && #[trigger] reconcile_step(
                mid,
                channels.last(),
                now,
                t,
            )
    }
}

/// Registry files that lead to a channel stay; the others are set aside.
pub open spec fn orphans_dropped(s: Spool, files: Seq<IndexFile>) -> Spool
    decreases files.len(),
{
    if files.len() == 0 {
        Spool { index: Seq::empty(), ..s }
    } else {
        let rest = orphans_dropped(s, files.drop_last());
        let file = files.last();
        if registry::sound_entry(file) && manager::has_dir(
            s.channels,
            registry::entry_of(file).channel_dir@,
        ) {
            registry::keep_index(rest, file)
        } else {
            registry::set_aside(rest, file.cli_id@ + ".json"@)
        }
    }
}

/// Reconcile, prune, drop orphans.
pub open spec fn maintained(s: Spool, now: u64, t: Spool) -> bool {
    exists|a: Spool, b: Spool, names: Seq<Seq<char>>|
        reconciled_by(Spool { channels: Seq::empty(), ..s }, s.channels, now, a)
            && #[trigger] registry::pruned_by(
            Spool { index: Seq::empty(), ..a },
            a.index,
            None,
            now,
            b,
            names,
        ) && t == orphans_dropped(b, b.index)
}

/// The record of a channel that was just created.
pub open spec fn new_record(
    c: ChannelRecord,
    session: Seq<char>,
    dir: Seq<char>,
    identity: IdentityView,
    now: u64,
) -> bool {
    &&& c.dir@ == dir
    &&& c.modified_ms == now
    &&& registry::empty(c.channel)
    &&& c.channel@.leases.len() == 0
    &&& c.metadata matches Some(Ok(metadata))
    &&& metadata.schema_version == QUEUE_SCHEMA_VERSION
    &&& metadata.cli_id@ == identity.cli_id
    &&& metadata.session@ == session
    &&& metadata.name@ == identity.name
    &&& metadata.cwd@ == identity.cwd
    &&& metadata.state == CliState::Creating
    &&& metadata.next_sequence == 1
    &&& metadata.created_at_unix_ms == now
    &&& metadata.updated_at_unix_ms == now
    &&& text::opt_view(metadata.launch_marker) == identity.launch_marker
    &&& metadata.identity is Some
    &&& (metadata.identity->0)@ == identity
}

/// The identity of a CLI that is about to be launched.
pub open spec fn creating_identity(
    cli_id: Seq<char>,
    marker: Seq<char>,
    name: Seq<char>,
    cwd: Seq<char>,
) -> IdentityView {
    IdentityView {
        cli_id,
        pane_id: Seq::empty(),
        terminal_id: Seq::empty(),
        workspace_id: Seq::empty(),
        tab_id: Seq::empty(),
        name,
        cwd,
        state: CliState::Creating,
        launch_marker: Some(marker),
    }
}

/// What the launched CLI finds in its environment.
pub open spec fn channel_env(
    root: Seq<char>,
    cli_id: Seq<char>,
    dir: Seq<char>,
) -> Seq<(Seq<char>, Seq<char>)> {
    seq![
        ("HERDR_DESKTOP_QUEUE_VERSION"@, "1"@),
        ("HERDR_DESKTOP_CLI_ID"@, cli_id),
        ("HERDR_DESKTOP_QUEUE_DIR"@, root + "/channels/"@ + dir),
    ]
}

/// The spool `t` is `s` with the channel of `handle` added.
pub open spec fn channel_added(
    s: Spool,
    root: Seq<char>,
    name: Seq<char>,
    cwd: Seq<char>,
    now: u64,
    handle: ChannelHandle,
    t: Spool,
) -> bool {
    let identity = creating_identity(handle.cli_id@, handle.launch_marker@, name, cwd);
    &&& !manager::has_dir(s.channels, handle.channel_dir@)
    &&& text::pair_views(handle.env@) == channel_env(root, handle.cli_id@, handle.channel_dir@)
    &&& index_carries(s.index, t.index, handle.cli_id@, handle.channel_dir@, identity)
    &&& t.channels.len() == s.channels.len() + 1
    &&& new_record(t.channels.last(), s.session, handle.channel_dir@, identity, now)
    &&& t == Spool { index: t.index, channels: s.channels.push(t.channels.last()), ..s }
}

/// The identifiers that are drawn for a channel.
pub struct ChannelIds {
    pub cli_id: String,
    pub launch_marker: String,
    pub capability: String,
}

/// The directory of a channel is named after its CLI and its capability.
pub open spec fn dir_of(ids: ChannelIds) -> Seq<char> {
    ids.cli_id@ + "."@ + ids.capability@
}

/// How often identifiers are drawn for a channel before it is given up.
pub const MAX_CHANNEL_DRAWS: usize = 16;

/// The identifiers were drawn at random: sixteen bytes for the CLI, sixteen for its
/// marker, thirty-two for the capability. Or the random source failed.
pub open spec fn ids_drawn(draw: Result<ChannelIds, QueueError>) -> bool {
    match draw {
        Ok(ids) => {
            &&& super::id_drawn("cli_"@, 16, Ok(ids.cli_id))
            &&& super::id_drawn("herdr_mcp_"@, 16, Ok(ids.launch_marker))
            &&& super::id_drawn(""@, 32, Ok(ids.capability))
        },
        Err(e) => e.kind == QueueErrorKind::Io && text::has_prefix(
            e.message@,
            "secure random failed: "@,
        ),
    }
}

/// The channel is added under the first of the identifiers whose directory is free.
/// A draw that failed before one was free is the answer; where none was free there
/// is no channel.
pub open spec fn channel_created(
    s: Spool,
    root: Seq<char>,
    name: Seq<char>,
    cwd: Seq<char>,
    now: u64,
    draws: Seq<Result<ChannelIds, QueueError>>,
    r: Result<ChannelHandle, QueueError>,
    t: Spool,
) -> bool
    decreases draws.len(),
{
    if draws.len() == 0 {
        &&& leases::refused(
            r,
            QueueErrorKind::Io,
            "failed to allocate a unique desktop queue channel"@,
        )
        &&& t == s
    } else {
        match draws[0] {
            Err(e) => r == Err::<ChannelHandle, QueueError>(e) && t == s,
            Ok(ids) => if manager::has_dir(s.channels, dir_of(ids)) {
                channel_created(s, root, name, cwd, now, draws.skip(1), r, t)
            } else {
                &&& r matches Ok(handle)
                &&& handle.cli_id@ == ids.cli_id@
                &&& handle.launch_marker@ == ids.launch_marker@
                &&& handle.channel_dir@ == dir_of(ids)
                &&& channel_added(s, root, name, cwd, now, handle, t)
            },
        }
    }
}

/// The spool is brought in order first, and then has room for a channel or not.
pub open spec fn creation_post(
    s: Spool,
    root: Seq<char>,
    name: Seq<char>,
    cwd: Seq<char>,
    now: u64,
    draws: Seq<Result<ChannelIds, QueueError>>,
    r: Result<ChannelHandle, QueueError>,
    t: Spool,
) -> bool {
    exists|m: Spool|
        #[trigger] maintained(s, now, m) && if m.index.len() >= MAX_CHANNELS {
            &&& leases::refused(
                r,
                QueueErrorKind::Full,
                "desktop queue supports at most 32 channels per session"@,
            )
            &&& t == m
        } else {
            channel_created(m, root, name, cwd, now, draws, r, t)
        }
}

/// Where no draw failed, there is no channel only if every name was taken.
pub proof fn lemma_no_channel_only_where_all_are_taken(
    s: Spool,
    root: Seq<char>,
    name: Seq<char>,
    cwd: Seq<char>,
    now: u64,
    draws: Seq<Result<ChannelIds, QueueError>>,
    r: Result<ChannelHandle, QueueError>,
    t: Spool,
)
    requires
        channel_created(s, root, name, cwd, now, draws, r, t),
        forall|i: int| 0 <= i < draws.len() ==> (#[trigger] draws[i]) is Ok,
        r is Err,
    ensures
        t == s,
        forall|i: int|
            0 <= i < draws.len() ==> manager::has_dir(
                s.channels,
                dir_of((#[trigger] draws[i])->Ok_0),
            ),
    decreases draws.len(),
{
    if draws.len() > 0 {
        let rest = draws.skip(1);
        assert(draws[0] is Ok);
        assert forall|i: int| 0 <= i < rest.len() implies (#[trigger] rest[i]) is Ok by {
            assert(rest[i] == draws[i + 1]);
        }
        lemma_no_channel_only_where_all_are_taken(s, root, name, cwd, now, rest, r, t);
        assert forall|i: int| 0 <= i < draws.len() implies manager::has_dir(
            s.channels,
            dir_of((#[trigger] draws[i])->Ok_0),
        ) by {
            if i > 0 {
                assert(rest[i - 1] == draws[i]);
            }
        }
    }
}

fn draw_channel_ids() -> (draw: Result<ChannelIds, QueueError>)
    ensures
        ids_drawn(draw),
{
    let cli_id = match super::draw_id("cli_", 16) {
        Ok(id) => id,
        Err(e) => return Err(e),
    };
    let launch_marker = match super::draw_id("herdr_mcp_", 16) {
        Ok(id) => id,
        Err(e) => return Err(e),
    };
    let capability = match super::draw_id("", 32) {
        Ok(id) => id,
        Err(e) => return Err(e),
    };
    Ok(ChannelIds { cli_id, launch_marker, capability })
}

impl Channel {
    pub fn new() -> (c: Channel)
        ensures
            registry::empty(c),
            c@.leases.len() == 0,
            channel::well_formed(c@),
    {
        let c = Channel {
            pending: Vec::new(),
            leases: Vec::new(),
            receipts: Vec::new(),
            tmp: Vec::new(),
            quarantine: Vec::new(),
        };
        assert(c.leases@ =~= Seq::empty());
        c
    }
}

impl QueueManager {
    fn set_index_aside(&mut self, cli_id: &str)
        requires
            manager::well_formed(old(self)@),
        ensures
            manager::well_formed(final(self)@),
            final(self).root == old(self).root,
            final(self)@ == drop_index(old(self)@, cli_id@),
            !manager::has_index(final(self)@.index, cli_id@),
    {
        match manager::find_index(&self.index, cli_id) {
            Some(i) => {
                let ghost before = self@;
                self.index.remove(i);
                let name = channel::append_json(cli_id);
                self.quarantine.push(name);
                proof {
                    assert(text::views(self.quarantine@) =~= before.quarantine.push(name@));
                    assert forall|j: int| 0 <= j < self.index@.len() implies (
                    #[trigger] self.index@[j]).cli_id@ != cli_id@ by {
                        let o = if j < i { j } else { j + 1 };
                        assert(self.index@[j] == before.index[o]);
                    }
                }
            },
            None => {},
        }
    }

    fn write_index(&mut self, cli_id: &str, dir: &str, identity: CliIdentity)
        requires
            manager::well_formed(old(self)@),
        ensures
            manager::well_formed(final(self)@),
            final(self).root == old(self).root,
            final(self)@ == (Spool { index: final(self)@.index, ..old(self)@ }),
            index_carries(old(self)@.index, final(self)@.index, cli_id@, dir@, identity@),
    {
        let file = IndexFile {
            cli_id: cli_id.to_string(),
            entry: Ok(
                IndexEntry {
                    schema_version: QUEUE_SCHEMA_VERSION,
                    channel_dir: dir.to_string(),
                    identity,
                },
            ),
        };
        match manager::find_index(&self.index, cli_id) {
            Some(i) => {
                self.index.set(i, file);
            },
            None => {
                self.index.push(file);
            },
        }
    }

    fn reconcile_channel(&mut self, c: ChannelRecord, now: u64)
        requires
            manager::well_formed(old(self)@),
            channel::well_formed(c.channel@),
            forall|k: int|
                0 <= k < old(self)@.channels.len() ==> (#[trigger] old(self)@.channels[k]).dir@
                    != c.dir@,
        ensures
            manager::well_formed(final(self)@),
            final(self).root == old(self).root,
            final(self)@.session == old(self)@.session,
            reconcile_step(old(self)@, c, now, final(self)@),
            final(self)@.channels == old(self)@.channels || (final(self)@.channels
                == old(self)@.channels.push(final(self)@.channels.last())
                && final(self)@.channels.last().dir@ == c.dir@),
    {
        let cli_id = match super::parse_channel_name(c.dir.as_str()) {
            Ok((cli_id, _)) => cli_id,
            Err(_) => {
                self.channels.push(c);
                return;
            },
        };
        if c.metadata.is_none() {
            if !channel::path_is_stale(c.modified_ms, now) {
                self.channels.push(c);
            }
            return;
        }
        let ghost given = c;
        let readable = registry::check_record(
            self.root.as_str(),
            &c,
            cli_id.as_str(),
            self.session.as_str(),
        ).is_ok();
        let mut d = c;
        let mut tmp: Vec<TempFile> = Vec::new();
        std::mem::swap(&mut tmp, &mut d.channel.tmp);
        d.channel.tmp = channel::prune_stale_temp_files(tmp, now);
        if !readable {
            d.metadata = None;
            d.channel.set_aside("channel.json".to_string());
            self.set_index_aside(cli_id.as_str());
            assert(record_set_aside(given, d, now));
            self.channels.push(d);
            return;
        }
        d.channel.prune_receipts(cli_id.as_str(), now);
        let ghost start = self@;
        let known_entry = match manager::find_index(&self.index, cli_id.as_str()) {
            Some(i) => match &self.index[i].entry {
                Ok(entry) => {
                    if super::validate_index_entry(entry, cli_id.as_str()).is_ok() && text::str_eq(
                        entry.channel_dir.as_str(),
                        d.dir.as_str(),
                    ) {
                        Some(entry.clone())
                    } else {
                        None
                    }
                },
                Err(_) => None,
            },
            None => None,
        };
        proof {
            assert(known_entry is Some == indexed(start, cli_id@, given.dir@));
            assert(known_entry matches Some(entry) ==> entry == manager::registered(start, cli_id@));
        }
        if known_entry.is_none() {
            self.set_index_aside(cli_id.as_str());
        }
        let ghost base = self@;
        d.metadata = match d.metadata {
            Some(Ok(metadata)) => {
                let known = match &metadata.identity {
                    Some(identity) => identity.clone(),
                    None => match &known_entry {
                        Some(entry) => entry.identity.clone(),
                        None => super::placeholder_identity(&metadata),
                    },
                };
                let identity = CliIdentity {
                    cli_id: cli_id.clone(),
                    state: metadata.state,
                    ..known
                };
                let ghost view = identity@;
                let recorded = match &metadata.identity {
                    Some(own) => own.same(&identity),
                    None => false,
                };
                let registered = match &known_entry {
                    Some(entry) => entry.identity.same(&identity),
                    None => false,
                };
                let metadata = if recorded {
                    metadata
                } else {
                    ChannelMetadata { identity: Some(identity.clone()), ..metadata }
                };
                if !registered {
                    self.write_index(cli_id.as_str(), d.dir.as_str(), identity);
                } else {
                    proof {
                        let i = manager::index_at(base.index, cli_id@);
                        assert(base.index.update(i, base.index[i]) =~= base.index);
                        assert(is_entry(base.index[i], cli_id@, given.dir@, view));
                    }
                }
                assert(index_carries(base.index, self@.index, cli_id@, given.dir@, view));
                Some(Ok(metadata))
            },
            other => other,
        };
        proof {
            let identity = agreed_identity(start, given, cli_id@);
            assert(base == cleared(start, cli_id@, given.dir@));
            assert(index_carries(base.index, self@.index, cli_id@, given.dir@, identity));
            assert(record_reconciled(given, d, identity, cli_id@, now));
        }
        let ghost index = self@.index;
        self.channels.push(d);
        assert(self@ == keep_channel(Spool { index, ..base }, d));
    }

    /// Makes the registry agree with what the channels say of themselves.
    pub fn reconcile_channels(&mut self, now: u64)
        requires
            manager::well_formed(old(self)@),
        ensures
            manager::well_formed(final(self)@),
            final(self).root == old(self).root,
            final(self)@.session == old(self)@.session,
            reconciled_by(
                (Spool { channels: Seq::empty(), ..old(self)@ }),
                old(self)@.channels,
                now,
                final(self)@,
            ),
    {
        let mut rest: Vec<ChannelRecord> = Vec::new();
        std::mem::swap(&mut rest, &mut self.channels);
        let ghost all = rest@;
        let ghost start = self@;
        assert(start == Spool { channels: Seq::empty(), ..old(self)@ });
        let total: usize = rest.len();
        let mut n: usize = 0;
        proof {
            assert(all.take(0) =~= Seq::<ChannelRecord>::empty());
            assert(reconciled_by(start, all.take(0), now, self@));
        }
        while n < total
            invariant
                n <= total == all.len(),
                rest@ == all.skip(n as int),
                manager::distinct_dirs(all),
                forall|k: int|
                    0 <= k < all.len() ==> channel::well_formed((#[trigger] all[k]).channel@),
                manager::well_formed(self@),
                self.root == old(self).root,
                self@.session == start.session,
                forall|i: int, j: int|
                    0 <= i < self.channels@.len() && n <= j < all.len() ==> (
                    #[trigger] self.channels@[i]).dir@ != (#[trigger] all[j]).dir@,
                reconciled_by(start, all.take(n as int), now, self@),
            decreases total - n,
        {
            let c = rest.remove(0);
            let ghost mid = self@;
            proof {
                assert(c == all[n as int]);
                assert(rest@ =~= all.skip(n as int + 1));
                assert(all.take(n as int + 1).drop_last() =~= all.take(n as int));
                assert(all.take(n as int + 1).last() == c);
            }
            self.reconcile_channel(c, now);
            assert(reconcile_step(mid, all.take(n as int + 1).last(), now, self@));
            n += 1;
            assert(reconciled_by(start, all.take(n as int), now, self@));
        }
        assert(all.take(total as int) =~= all);
    }

    /// Sets aside registry files that lead nowhere.
    pub fn prune_orphan_indexes(&mut self)
        requires
            manager::well_formed(old(self)@),
        ensures
            manager::well_formed(final(self)@),
            final(self).root == old(self).root,
            final(self)@ == orphans_dropped(old(self)@, old(self)@.index),
    {
        let mut rest: Vec<IndexFile> = Vec::new();
        std::mem::swap(&mut rest, &mut self.index);
        let ghost all = rest@;
        let ghost given = old(self)@;
        let total: usize = rest.len();
        let mut n: usize = 0;
        assert(all.take(0) =~= Seq::<IndexFile>::empty());
        assert(self@ == orphans_dropped(given, all.take(0)));
        while n < total
            invariant
                n <= total == all.len(),
                rest@ == all.skip(n as int),
                manager::distinct_index(all),
                manager::well_formed(self@),
                self.root == old(self).root,
                self@.channels == given.channels,
                forall|i: int, j: int|
                    0 <= i < self.index@.len() && n <= j < all.len() ==> (
                    #[trigger] self.index@[i]).cli_id@ != (#[trigger] all[j]).cli_id@,
                self@ == orphans_dropped(given, all.take(n as int)),
            decreases total - n,
        {
            let file = rest.remove(0);
            let ghost before = self@;
            proof {
                assert(file == all[n as int]);
                assert(rest@ =~= all.skip(n as int + 1));
                assert(all.take(n as int + 1).drop_last() =~= all.take(n as int));
                assert(all.take(n as int + 1).last() == file);
            }
            let leads = match &file.entry {
                Ok(entry) => super::validate_index_entry(entry, file.cli_id.as_str()).is_ok()
                    && manager::find_dir(&self.channels, entry.channel_dir.as_str()).is_some(),
                Err(_) => false,
            };
            if leads {
                self.index.push(file);
            } else {
                let name = channel::append_json(file.cli_id.as_str());
                self.quarantine.push(name);
                assert(text::views(self.quarantine@) =~= before.quarantine.push(name@));
            }
            n += 1;
        }
        assert(all.take(total as int) =~= all);
    }

    /// What is done each time the queue is opened and before a channel is added.
    pub fn maintain(&mut self, now: u64)
        requires
            manager::well_formed(old(self)@),
        ensures
            manager::well_formed(final(self)@),
            final(self).root == old(self).root,
            maintained(old(self)@, now, final(self)@),
    {
        self.reconcile_channels(now);
        let ghost a = self@;
        let names = self.prune_stale_channels(&None, now);
        let ghost b = self@;
        self.prune_orphan_indexes();
        assert(registry::pruned_by(
            Spool { index: Seq::empty(), ..a },
            a.index,
            None,
            now,
            b,
            text::views(names@),
        ));
    }

    /// Opens the queue on what its directories hold, and brings it in order.
    pub fn new(
        root: String,
        session: String,
        index: Vec<IndexFile>,
        channels: Vec<ChannelRecord>,
        quarantine: Vec<String>,
        now: u64,
    ) -> (r: QueueManager)
        requires
            manager::well_formed(
                (Spool {
                    root: root@,
                    session: session@,
                    index: index@,
                    channels: channels@,
                    quarantine: text::views(quarantine@),
                }),
            ),
        ensures
            manager::well_formed(r@),
            r.root == root,
            maintained(
                (Spool {
                    root: root@,
                    session: session@,
                    index: index@,
                    channels: channels@,
                    quarantine: text::views(quarantine@),
                }),
                now,
                r@,
            ),
    {
        let mut opened = QueueManager { root, session, index, channels, quarantine };
        opened.maintain(now);
        opened
    }

    /// Adds a channel under identifiers that were drawn for it, unless its
    /// directory is taken.
    pub fn add_channel(
        &mut self,
        cli_id: String,
        launch_marker: String,
        capability: &str,
        name: &str,
        cwd: &str,
        now: u64,
    ) -> (r: Option<ChannelHandle>)
        requires
            manager::well_formed(old(self)@),
        ensures
            manager::well_formed(final(self)@),
            final(self).root == old(self).root,
            r is None <==> manager::has_dir(
                old(self)@.channels,
                cli_id@ + "."@ + capability@,
            ),
            r is None ==> final(self)@ == old(self)@,
            r matches Some(handle) ==> {
                &&& handle.cli_id@ == cli_id@
                &&& handle.launch_marker@ == launch_marker@
                &&& handle.channel_dir@ == cli_id@ + "."@ + capability@
                &&& channel_added(
                    old(self)@,
                    old(self).root@,
                    name@,
                    cwd@,
                    now,
                    handle,
                    final(self)@,
                )
            },
    {
        let mut dir = cli_id.clone();
        dir.append(".");
        dir.append(capability);
        if manager::find_dir(&self.channels, dir.as_str()).is_some() {
            return None;
        }
        let ghost before = self@;
        let identity = CliIdentity {
            cli_id: cli_id.clone(),
            pane_id: String::new(),
            terminal_id: String::new(),
            workspace_id: String::new(),
            tab_id: String::new(),
            name: name.to_string(),
            cwd: cwd.to_string(),
            state: CliState::Creating,
            launch_marker: Some(launch_marker.clone()),
        };
        let metadata = ChannelMetadata {
            schema_version: QUEUE_SCHEMA_VERSION,
            cli_id: cli_id.clone(),
            session: self.session.clone(),
            name: name.to_string(),
            cwd: cwd.to_string(),
            state: CliState::Creating,
            next_sequence: 1,
            created_at_unix_ms: now,
            updated_at_unix_ms: now,
            launch_marker: Some(launch_marker.clone()),
            identity: Some(identity.clone()),
        };
        self.channels.push(
            ChannelRecord {
                dir: dir.clone(),
                modified_ms: now,
                metadata: Some(Ok(metadata)),
                channel: Channel::new(),
            },
        );
        self.write_index(cli_id.as_str(), dir.as_str(), identity);
        let mut path = self.root.clone();
        path.append("/channels/");
        path.append(dir.as_str());
        let mut env: Vec<(String, String)> = Vec::new();
        env.push(("HERDR_DESKTOP_QUEUE_VERSION".to_string(), "1".to_string()));
        env.push(("HERDR_DESKTOP_CLI_ID".to_string(), cli_id.clone()));
        env.push(("HERDR_DESKTOP_QUEUE_DIR".to_string(), path));
        assert(text::pair_views(env@) =~= channel_env(old(self).root@, cli_id@, dir@));
        Some(ChannelHandle { cli_id, launch_marker, env, channel_dir: dir })
    }

    /// Adds a channel for a CLI that is about to be launched, under the first of
    /// these identifiers that are free.
    pub fn create_channel_as(
        &mut self,
        draws: Vec<Result<ChannelIds, QueueError>>,
        name: &str,
        cwd: &str,
        now: u64,
    ) -> (r: Result<ChannelHandle, QueueError>)
        requires
            manager::well_formed(old(self)@),
        ensures
            manager::well_formed(final(self)@),
            final(self).root == old(self).root,
            creation_post(
                old(self)@,
                old(self).root@,
                name@,
                cwd@,
                now,
                draws@,
                r,
                final(self)@,
            ),
    {
        self.maintain(now);
        let ghost m = self@;
        let ghost root = self.root@;
        let ghost all = draws@;
        assert(maintained(old(self)@, now, m));
        if self.index.len() >= MAX_CHANNELS {
            return Err(
                QueueError::new(
                    QueueErrorKind::Full,
                    "desktop queue supports at most 32 channels per session",
                ),
            );
        }
        let mut left = draws;
        while left.len() > 0
            invariant
                manager::well_formed(self@),
                self.root == old(self).root,
                root == self.root@,
                self@ == m,
                all == draws@,
                m.index.len() < MAX_CHANNELS,
                maintained(old(self)@, now, m),
                forall|r: Result<ChannelHandle, QueueError>, t: Spool| #[trigger]
                    channel_created(m, root, name@, cwd@, now, left@, r, t) == channel_created(
                        m,
                        root,
                        name@,
                        cwd@,
                        now,
                        all,
                        r,
                        t,
                    ),
            decreases left@.len(),
        {
            let ghost before = left@;
            let draw = left.remove(0);
            assert(draw == before[0]);
            assert(left@ =~= before.skip(1));
            let ids = match draw {
                Ok(ids) => ids,
                Err(e) => {
                    let failed = Err(e);
                    assert(channel_created(m, root, name@, cwd@, now, before, failed, self@));
                    return failed;
                },
            };
            match self.add_channel(
                ids.cli_id,
                ids.launch_marker,
                ids.capability.as_str(),
                name,
                cwd,
                now,
            ) {
                Some(handle) => {
                    let added = Ok(handle);
                    assert(channel_created(m, root, name@, cwd@, now, before, added, self@));
                    return added;
                },
                None => {
                    assert forall|r: Result<ChannelHandle, QueueError>, t: Spool| #[trigger]
                        channel_created(
                            m,
                            root,
                            name@,
                            cwd@,
                            now,
                            left@,
                            r,
                            t,
                        ) == channel_created(m, root, name@, cwd@, now, all, r, t) by {
                        assert(channel_created(m, root, name@, cwd@, now, before, r, t)
                            == channel_created(m, root, name@, cwd@, now, left@, r, t));
                    }
                },
            }
        }
        let none = Err(
            QueueError::new(
                QueueErrorKind::Io,
                "failed to allocate a unique desktop queue channel",
            ),
        );
        assert(channel_created(m, root, name@, cwd@, now, left@, none, self@));
        none
    }

    /// Adds a channel for a CLI that is about to be launched.
    pub fn create_channel(&mut self, name: &str, cwd: &str, now: u64) -> (r: Result<
        ChannelHandle,
        QueueError,
    >)
        requires
            manager::well_formed(old(self)@),
        ensures
            manager::well_formed(final(self)@),
            final(self).root == old(self).root,
            exists|draws: Seq<Result<ChannelIds, QueueError>>|
                {
                    &&& draws.len() == MAX_CHANNEL_DRAWS
                    &&& forall|i: int| 0 <= i < draws.len() ==> ids_drawn(#[trigger] draws[i])
                    &&& #[trigger] creation_post(
                        old(self)@,
                        old(self).root@,
                        name@,
                        cwd@,
                        now,
                        draws,
                        r,
                        final(self)@,
                    )
                },
    {
        let mut draws: Vec<Result<ChannelIds, QueueError>> = Vec::new();
        while draws.len() < MAX_CHANNEL_DRAWS
            invariant
                draws@.len() <= MAX_CHANNEL_DRAWS,
                forall|i: int| 0 <= i < draws@.len() ==> ids_drawn(#[trigger] draws@[i]),
            decreases MAX_CHANNEL_DRAWS - draws@.len(),
        {
            draws.push(draw_channel_ids());
        }
        self.create_channel_as(draws, name, cwd, now)
    }
}

} // verus!
