//! All channels of one session, and the registry that finds them.

use vstd::prelude::*;
use vstd::string::*;

use super::channel::{self, Channel};
use super::leases;
use super::{
    AckResult, ChannelMetadata, CliIdentity, DrainResult, IdentityView, IndexEntry, Objection,
    QueueError, QueueErrorKind,
};
use crate::text;

verus! {

/// A registry file, named after the CLI it registers.
pub struct IndexFile {
    pub cli_id: String,
    pub entry: Result<IndexEntry, QueueError>,
}

/// A channel directory.
pub struct ChannelRecord {
    pub dir: String,
    pub modified_ms: u64,
    /// The channel's own record, where the file is there.
    pub metadata: Option<Result<ChannelMetadata, QueueError>>,
    pub channel: Channel,
}

/// The queue of one session.
pub struct QueueManager {
    pub root: String,
    pub session: String,
    pub index: Vec<IndexFile>,
    pub channels: Vec<ChannelRecord>,
    pub quarantine: Vec<String>,
}

pub struct Spool {
    pub root: Seq<char>,
    pub session: Seq<char>,
    pub index: Seq<IndexFile>,
    pub channels: Seq<ChannelRecord>,
    pub quarantine: Seq<Seq<char>>,
}

impl View for QueueManager {
    type V = Spool;

    open spec fn view(&self) -> Spool {
        Spool {
            root: self.root@,
            session: self.session@,
            index: self.index@,
            channels: self.channels@,
            quarantine: text::views(self.quarantine@),
        }
    }
}

pub open spec fn distinct_index(index: Seq<IndexFile>) -> bool {
    forall|i: int, j: int|
        0 <= i < j < index.len() ==> (#[trigger] index[i]).cli_id@ != (#[trigger] index[j]).cli_id@
}

pub open spec fn distinct_dirs(channels: Seq<ChannelRecord>) -> bool {
    forall|i: int, j: int|
        0 <= i < j < channels.len() ==> (#[trigger] channels[i]).dir@ != (
        #[trigger] channels[j]).dir@
}

/// What directory listings guarantee: no name occurs twice.
pub open spec fn well_formed(s: Spool) -> bool {
    &&& distinct_index(s.index)
    &&& distinct_dirs(s.channels)
    &&& forall|k: int|
        0 <= k < s.channels.len() ==> channel::well_formed((#[trigger] s.channels[k]).channel@)
}

pub open spec fn has_index(index: Seq<IndexFile>, cli_id: Seq<char>) -> bool {
    exists|i: int| 0 <= i < index.len() && (#[trigger] index[i]).cli_id@ == cli_id
}

pub open spec fn index_at(index: Seq<IndexFile>, cli_id: Seq<char>) -> int {
    choose|i: int| 0 <= i < index.len() && (#[trigger] index[i]).cli_id@ == cli_id
}

pub open spec fn has_dir(channels: Seq<ChannelRecord>, dir: Seq<char>) -> bool {
    exists|k: int| 0 <= k < channels.len() && (#[trigger] channels[k]).dir@ == dir
}

pub open spec fn dir_at(channels: Seq<ChannelRecord>, dir: Seq<char>) -> int {
    choose|k: int| 0 <= k < channels.len() && (#[trigger] channels[k]).dir@ == dir
}

/// Why the registry has no answer for `cli_id`.
pub open spec fn registry_objection(s: Spool, cli_id: Seq<char>) -> Objection {
    if !has_index(s.index, cli_id) {
        Some(
            (QueueErrorKind::CliNotFound, "desktop CLI "@ + cli_id + " is not registered"@),
        )
    } else {
        match s.index[index_at(s.index, cli_id)].entry {
            Err(e) => Some((e.kind, e.message@)),
            Ok(entry) => super::index_objection(entry, cli_id),
        }
    }
}

pub open spec fn registered(s: Spool, cli_id: Seq<char>) -> IndexEntry {
    s.index[index_at(s.index, cli_id)].entry->Ok_0
}

/// Where a channel lies.
pub open spec fn channel_path(root: Seq<char>, dir: Seq<char>) -> Seq<char> {
    root + "/channels/"@ + dir
}

/// What is said of an operation on something that is not there.
pub open spec fn absent(operation: Seq<char>, path: Seq<char>) -> Seq<char> {
    operation + " "@ + path + ": No such file or directory (os error 2)"@
}

pub open spec fn missing_dir(root: Seq<char>, dir: Seq<char>) -> (QueueErrorKind, Seq<char>) {
    (QueueErrorKind::NotFound, absent("inspect private directory"@, channel_path(root, dir)))
}

/// A lock cannot be made in a directory that is not there.
pub open spec fn missing_lock(root: Seq<char>, dir: Seq<char>) -> (QueueErrorKind, Seq<char>) {
    (
        QueueErrorKind::Io,
        absent("create private file"@, channel_path(root, dir) + "/queue.lock"@),
    )
}

pub open spec fn missing_record(root: Seq<char>, dir: Seq<char>) -> (QueueErrorKind, Seq<char>) {
    (
        QueueErrorKind::Io,
        absent("open private file"@, channel_path(root, dir) + "/channel.json"@),
    )
}

fn absence(
    kind: QueueErrorKind,
    operation: &str,
    root: &str,
    dir: &str,
    below: &str,
) -> (e: QueueError)
    ensures
        e.kind == kind,
        e.message@ == absent(operation@, channel_path(root@, dir@) + below@),
{
    let mut path = root.to_string();
    path.append("/channels/");
    path.append(dir);
    path.append(below);
    let mut message = operation.to_string();
    message.append(" ");
    message.append(path.as_str());
    message.append(": No such file or directory (os error 2)");
    QueueError { kind, message }
}

pub(crate) fn dir_error(root: &str, dir: &str) -> (e: QueueError)
    ensures
        (e.kind, e.message@) == missing_dir(root@, dir@),
{
    proof {
        reveal_strlit("");
        assert(channel_path(root@, dir@) + ""@ =~= channel_path(root@, dir@));
    }
    absence(QueueErrorKind::NotFound, "inspect private directory", root, dir, "")
}

pub(crate) fn lock_error(root: &str, dir: &str) -> (e: QueueError)
    ensures
        (e.kind, e.message@) == missing_lock(root@, dir@),
{
    absence(QueueErrorKind::Io, "create private file", root, dir, "/queue.lock")
}

pub(crate) fn record_error(root: &str, dir: &str) -> (e: QueueError)
    ensures
        (e.kind, e.message@) == missing_record(root@, dir@),
{
    absence(QueueErrorKind::Io, "open private file", root, dir, "/channel.json")
}

/// Why the registered channel cannot be used.
pub open spec fn channel_objection(s: Spool, cli_id: Seq<char>) -> Objection {
    if registry_objection(s, cli_id) is Some {
        registry_objection(s, cli_id)
    } else if !has_dir(s.channels, registered(s, cli_id).channel_dir@) {
        Some(missing_dir(s.root, registered(s, cli_id).channel_dir@))
    } else {
        None
    }
}

/// The channel that the registry gives for `cli_id`.
pub open spec fn channel_of(s: Spool, cli_id: Seq<char>) -> int {
    dir_at(s.channels, registered(s, cli_id).channel_dir@)
}

pub open spec fn with_channel_contents(s: Spool, k: int, c: ChannelRecord) -> Spool {
    Spool { channels: s.channels.update(k, c), ..s }
}

/// Only the contents of the channel at `k` differ between two spools.
pub open spec fn only_contents_changed(s: Spool, t: Spool, k: int) -> bool {
    &&& 0 <= k < s.channels.len()
    &&& t.channels.len() == s.channels.len()
    &&& t == with_channel_contents(s, k, t.channels[k])
    &&& t.channels[k].dir == s.channels[k].dir
    &&& t.channels[k].modified_ms == s.channels[k].modified_ms
    &&& t.channels[k].metadata == s.channels[k].metadata
    &&& t.channels[k].channel.tmp == s.channels[k].channel.tmp
}

/// A registry entry and a channel record now carry this identity and state.
pub open spec fn identity_set(
    s: Spool,
    t: Spool,
    i: int,
    k: int,
    identity: IdentityView,
    now: u64,
) -> bool {
    &&& 0 <= i < s.index.len()
    &&& 0 <= k < s.channels.len()
    &&& s.index[i].entry is Ok
    &&& s.channels[k].metadata matches Some(Ok(_))
    &&& t.index.len() == s.index.len()
    &&& t.channels.len() == s.channels.len()
    &&& t == Spool {
        index: s.index.update(i, t.index[i]),
        channels: s.channels.update(k, t.channels[k]),
        ..s
    }
    &&& t.index[i].cli_id == s.index[i].cli_id
    &&& t.index[i].entry is Ok
    &&& (t.index[i].entry->Ok_0).schema_version == (s.index[i].entry->Ok_0).schema_version
    &&& (t.index[i].entry->Ok_0).channel_dir == (s.index[i].entry->Ok_0).channel_dir
    &&& (t.index[i].entry->Ok_0).identity@ == identity
    &&& t.channels[k] == ChannelRecord { metadata: t.channels[k].metadata, ..s.channels[k] }
    &&& t.channels[k].metadata matches Some(Ok(metadata))
    &&& metadata.identity is Some
    &&& (metadata.identity->0)@ == identity
    &&& metadata == ChannelMetadata {
        state: identity.state,
        updated_at_unix_ms: now,
        identity: metadata.identity,
        ..(s.channels[k].metadata->0)->Ok_0
    }
}

/// The record of a channel, where it can be read.
pub open spec fn metadata_of(c: ChannelRecord) -> Result<ChannelMetadata, QueueError> {
    c.metadata->0
}

/// Why a channel's own record cannot be believed.
pub open spec fn record_objection(
    root: Seq<char>,
    c: ChannelRecord,
    cli_id: Seq<char>,
    session: Seq<char>,
) -> Objection {
    match c.metadata {
        None => Some(missing_record(root, c.dir@)),
        Some(Err(e)) => Some((e.kind, e.message@)),
        Some(Ok(metadata)) => super::metadata_objection(metadata, cli_id, session),
    }
}

pub(crate) fn find_index(index: &Vec<IndexFile>, cli_id: &str) -> (r: Option<usize>)
    requires
        distinct_index(index@),
    ensures
        match r {
            Some(i) => i < index@.len() && has_index(index@, cli_id@) && i == index_at(
                index@,
                cli_id@,
            ) && index@[i as int].cli_id@ == cli_id@,
            None => !has_index(index@, cli_id@),
        },
{
    let mut i: usize = 0;
    while i < index.len()
        invariant
            i <= index@.len(),
            distinct_index(index@),
            forall|j: int| 0 <= j < i ==> (#[trigger] index@[j]).cli_id@ != cli_id@,
        decreases index@.len() - i,
    {
        if text::str_eq(index[i].cli_id.as_str(), cli_id) {
            proof {
                assert(index@[i as int].cli_id@ == cli_id@);
                let k = index_at(index@, cli_id@);
                assert(index@[k].cli_id@ == cli_id@);
            }
            return Some(i);
        }
        i += 1;
    }
    None
}

pub(crate) fn find_dir(channels: &Vec<ChannelRecord>, dir: &str) -> (r: Option<usize>)
    requires
        distinct_dirs(channels@),
    ensures
        match r {
            Some(k) => k < channels@.len() && has_dir(channels@, dir@) && k == dir_at(
                channels@,
                dir@,
            ) && channels@[k as int].dir@ == dir@,
            None => !has_dir(channels@, dir@),
        },
{
    let mut k: usize = 0;
    while k < channels.len()
        invariant
            k <= channels@.len(),
            distinct_dirs(channels@),
            forall|j: int| 0 <= j < k ==> (#[trigger] channels@[j]).dir@ != dir@,
        decreases channels@.len() - k,
    {
        if text::str_eq(channels[k].dir.as_str(), dir) {
            proof {
                assert(channels@[k as int].dir@ == dir@);
                let j = dir_at(channels@, dir@);
                assert(channels@[j].dir@ == dir@);
            }
            return Some(k);
        }
        k += 1;
    }
    None
}

fn not_registered(cli_id: &str) -> (e: QueueError)
    ensures
        e.kind == QueueErrorKind::CliNotFound,
        e.message@ == "desktop CLI "@ + cli_id@ + " is not registered"@,
{
    let mut message = "desktop CLI ".to_string();
    message.append(cli_id);
    message.append(" is not registered");
    QueueError { kind: QueueErrorKind::CliNotFound, message }
}

impl QueueManager {
    /// Where the registry keeps its entry for `cli_id`.
    pub(crate) fn read_index(&self, cli_id: &str) -> (r: Result<usize, QueueError>)
        requires
            distinct_index(self@.index),
        ensures
            super::objection(r) == registry_objection(self@, cli_id@),
            r matches Ok(i) ==> i < self@.index.len() && i == index_at(self@.index, cli_id@)
                && self@.index[i as int].cli_id@ == cli_id@ && self@.index[i as int].entry is Ok,
    {
        match find_index(&self.index, cli_id) {
            None => Err(not_registered(cli_id)),
            Some(i) => match &self.index[i].entry {
                Err(e) => Err(e.clone()),
                Ok(entry) => match super::validate_index_entry(entry, cli_id) {
                    Ok(()) => Ok(i),
                    Err(e) => Err(e),
                },
            },
        }
    }

    /// The registry entry and the channel of `cli_id`.
    pub(crate) fn locate(&self, cli_id: &str) -> (r: Result<(usize, usize), QueueError>)
        requires
            well_formed(self@),
        ensures
            super::objection(r) == channel_objection(self@, cli_id@),
            r matches Ok((i, k)) ==> i < self@.index.len() && i == index_at(self@.index, cli_id@)
                && k < self@.channels.len() && k == channel_of(self@, cli_id@)
                && self@.index[i as int].entry is Ok,
    {
        let i: usize = match self.read_index(cli_id) {
            Ok(i) => i,
            Err(e) => return Err(e),
        };
        match &self.index[i].entry {
            Ok(entry) => match find_dir(&self.channels, entry.channel_dir.as_str()) {
                Some(k) => Ok((i, k)),
                None => Err(dir_error(self.root.as_str(), entry.channel_dir.as_str())),
            },
            Err(e) => Err(e.clone()),
        }
    }

    /// The identity registered for a CLI.
    pub fn lookup_cli(&self, cli_id: &str) -> (r: Result<CliIdentity, QueueError>)
        requires
            well_formed(self@),
        ensures
            super::objection(r) == if super::id_objection("cli_id"@, cli_id@) is Some {
                super::id_objection("cli_id"@, cli_id@)
            } else {
                registry_objection(self@, cli_id@)
            },
            r matches Ok(identity) ==> identity == registered(self@, cli_id@).identity,
    {
        match super::validate_id("cli_id", cli_id) {
            Ok(()) => {},
            Err(e) => return Err(e),
        }
        match self.read_index(cli_id) {
            Ok(i) => match &self.index[i].entry {
                Ok(entry) => Ok(entry.identity.clone()),
                Err(e) => Err(e.clone()),
            },
            Err(e) => Err(e),
        }
    }

    /// Leases pending messages of a CLI, oldest first, up to `limit` of them and
    /// as far as `fits` agrees, under a lease that was drawn for them.
    pub fn drain_bounded<F: Fn(&DrainResult) -> bool>(
        &mut self,
        cli_id: &str,
        limit: usize,
        fits: F,
        now: u64,
    ) -> (r: Result<DrainResult, QueueError>)
        requires
            well_formed(old(self)@),
            forall|d: DrainResult| #[trigger] call_requires(fits, (&d,)),
        ensures
            well_formed(final(self)@),
            final(self).root == old(self).root,
            exists|drawn: Result<String, QueueError>| #[trigger]
                super::id_drawn("lease_"@, 16, drawn) && drain_post(
                    old(self)@,
                    fits,
                    cli_id@,
                    limit as int,
                    drawn,
                    now,
                    final(self)@,
                    r,
                ),
    {
        let drawn = super::draw_id("lease_", 16);
        assert(super::id_drawn("lease_"@, 16, drawn));
        self.drain_as(cli_id, limit, fits, drawn, now)
    }

    /// Leases pending messages of a CLI, oldest first, up to `limit` of them and
    /// as far as `fits` agrees, under the lease that was drawn.
    pub fn drain_as<F: Fn(&DrainResult) -> bool>(
        &mut self,
        cli_id: &str,
        limit: usize,
        fits: F,
        drawn: Result<String, QueueError>,
        now: u64,
    ) -> (r: Result<DrainResult, QueueError>)
        requires
            well_formed(old(self)@),
            forall|d: DrainResult| #[trigger] call_requires(fits, (&d,)),
        ensures
            well_formed(final(self)@),
            final(self).root == old(self).root,
            drain_post(
                old(self)@,
                fits,
                cli_id@,
                limit as int,
                drawn,
                now,
                final(self)@,
                r,
            ),
    {
        match super::validate_id("cli_id", cli_id) {
            Ok(()) => {},
            Err(e) => return Err(e),
        }
        if limit == 0 || limit > 100 {
            return Err(
                QueueError::new(
                    QueueErrorKind::Invalid,
                    "drain limit must be between 1 and 100",
                ),
            );
        }
        let k: usize = match self.locate(cli_id) {
            Ok((_, k)) => k,
            Err(e) => return Err(e),
        };
        let ghost before = self@;
        let mut record = self.channels.remove(k);
        let r = record.channel.lease_pending(cli_id, limit, fits, drawn, now);
        self.channels.insert(k, record);
        assert(self@.channels =~= before.channels.update(k as int, record));
        r
    }

    /// Gives a lease back.
    pub fn release(&mut self, cli_id: &str, lease_id: &str) -> (r: Result<(), QueueError>)
        requires
            well_formed(old(self)@),
        ensures
            well_formed(final(self)@),
            final(self).root == old(self).root,
            if super::id_objection("cli_id"@, cli_id@) is Some {
                super::objection(r) == super::id_objection("cli_id"@, cli_id@) && final(self)@
                    == old(self)@
            } else if super::id_objection("lease_id"@, lease_id@) is Some {
                super::objection(r) == super::id_objection("lease_id"@, lease_id@) && final(self)@
                    == old(self)@
            } else if channel_objection(old(self)@, cli_id@) is Some {
                super::objection(r) == channel_objection(old(self)@, cli_id@) && final(self)@
                    == old(self)@
            } else {
                let k = channel_of(old(self)@, cli_id@);
                &&& only_contents_changed(old(self)@, final(self)@, k)
                &&& leases::release_post(
                    old(self)@.channels[k].channel@,
                    cli_id@,
                    lease_id@,
                    final(self)@.channels[k].channel@,
                    r,
                )
            },
    {
        match super::validate_id("cli_id", cli_id) {
            Ok(()) => {},
            Err(e) => return Err(e),
        }
        match super::validate_id("lease_id", lease_id) {
            Ok(()) => {},
            Err(e) => return Err(e),
        }
        let k: usize = match self.locate(cli_id) {
            Ok((_, k)) => k,
            Err(e) => return Err(e),
        };
        let ghost before = self@;
        let mut record = self.channels.remove(k);
        let r = record.channel.release_lease(cli_id, lease_id);
        self.channels.insert(k, record);
        assert(self@.channels =~= before.channels.update(k as int, record));
        r
    }

    /// Acknowledges a lease.
    pub fn ack(&mut self, cli_id: &str, lease_id: &str, now: u64) -> (r: Result<
        AckResult,
        QueueError,
    >)
        requires
            well_formed(old(self)@),
        ensures
            well_formed(final(self)@),
            final(self).root == old(self).root,
            if super::id_objection("cli_id"@, cli_id@) is Some {
                super::objection(r) == super::id_objection("cli_id"@, cli_id@) && final(self)@
                    == old(self)@
            } else if super::id_objection("lease_id"@, lease_id@) is Some {
                super::objection(r) == super::id_objection("lease_id"@, lease_id@) && final(self)@
                    == old(self)@
            } else if channel_objection(old(self)@, cli_id@) is Some {
                super::objection(r) == channel_objection(old(self)@, cli_id@) && final(self)@
                    == old(self)@
            } else {
                let k = channel_of(old(self)@, cli_id@);
                &&& only_contents_changed(old(self)@, final(self)@, k)
                &&& leases::ack_post(
                    old(self)@.channels[k].channel@,
                    cli_id@,
                    lease_id@,
                    now,
                    final(self)@.channels[k].channel@,
                    r,
                )
            },
    {
        match super::validate_id("cli_id", cli_id) {
            Ok(()) => {},
            Err(e) => return Err(e),
        }
        match super::validate_id("lease_id", lease_id) {
            Ok(()) => {},
            Err(e) => return Err(e),
        }
        let k: usize = match self.locate(cli_id) {
            Ok((_, k)) => k,
            Err(e) => return Err(e),
        };
        let ghost before = self@;
        let mut record = self.channels.remove(k);
        let r = record.channel.ack_lease(cli_id, lease_id, now);
        self.channels.insert(k, record);
        assert(self@.channels =~= before.channels.update(k as int, record));
        r
    }
}

/// What draining does to the spool, and what it answers.
pub open spec fn drain_post<F: Fn(&DrainResult) -> bool>(
    before: Spool,
    fits: F,
    cli_id: Seq<char>,
    limit: int,
    drawn: Result<String, QueueError>,
    now: u64,
    after: Spool,
    r: Result<DrainResult, QueueError>,
) -> bool {
    if super::id_objection("cli_id"@, cli_id) is Some {
        super::objection(r) == super::id_objection("cli_id"@, cli_id) && after == before
    } else if limit == 0 || limit > 100 {
        leases::refused(r, QueueErrorKind::Invalid, "drain limit must be between 1 and 100"@)
            && after == before
    } else if channel_objection(before, cli_id) is Some {
        super::objection(r) == channel_objection(before, cli_id) && after == before
    } else {
        let k = channel_of(before, cli_id);
        &&& only_contents_changed(before, after, k)
        &&& leases::drained(
            before.channels[k].channel@,
            after.channels[k].channel@,
            fits,
            cli_id,
            limit,
            drawn,
            now,
            r,
        )
    }
}

} // verus!
