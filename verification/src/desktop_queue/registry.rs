//! Registering channels, activating and closing them, and putting the registry
//! right after an interruption.

use vstd::prelude::*;
use vstd::string::*;

use super::channel::{self, Channel};
use super::enqueue;
use super::leases;
use super::manager::{self, ChannelRecord, IndexFile, QueueManager, Spool};
use super::{
    ChannelHandle, ChannelMetadata, CliIdentity, CliState, IdentityView, IndexEntry, Objection,
    QueueError, QueueErrorKind, STALE_RECORD_DURATION_MS,
};
use crate::text;

verus! {

/// Why a launched CLI cannot be activated.
pub open spec fn activation_objection(s: Spool, handle: ChannelHandle) -> Objection {
    let cli_id = handle.cli_id@;
    if manager::registry_objection(s, cli_id) is Some {
        manager::registry_objection(s, cli_id)
    } else {
        let entry = manager::registered(s, cli_id);
        if entry.channel_dir@ != handle.channel_dir@ || entry.identity.state != CliState::Creating
            || entry.identity@.launch_marker != Some(handle.launch_marker@) {
            Some(
                (QueueErrorKind::Corrupt, "desktop queue channel changed during CLI launch"@),
            )
        } else if !manager::has_dir(s.channels, handle.channel_dir@) {
            Some(manager::missing_lock(s.root, handle.channel_dir@))
        } else {
            let c = s.channels[manager::dir_at(s.channels, handle.channel_dir@)];
            if manager::record_objection(s.root, c, cli_id, s.session) is Some {
                manager::record_objection(s.root, c, cli_id, s.session)
            } else if text::opt_view((manager::metadata_of(c)->Ok_0).launch_marker) != Some(
                handle.launch_marker@,
            ) {
                Some(
                    (
                        QueueErrorKind::Corrupt,
                        "desktop queue launch marker changed during CLI launch"@,
                    ),
                )
            } else {
                None
            }
        }
    }
}

/// Why a launch that was interrupted cannot be taken up again.
pub open spec fn reconciliation_objection(
    s: Spool,
    cli_id: Seq<char>,
    marker: Seq<char>,
) -> Objection {
    if super::id_objection("cli_id"@, cli_id) is Some {
        super::id_objection("cli_id"@, cli_id)
    } else if super::id_objection("launch_marker"@, marker) is Some {
        super::id_objection("launch_marker"@, marker)
    } else if manager::registry_objection(s, cli_id) is Some {
        manager::registry_objection(s, cli_id)
    } else {
        let entry = manager::registered(s, cli_id);
        if entry.identity.state != CliState::Creating || entry.identity@.launch_marker != Some(
            marker,
        ) {
            Some(
                (
                    QueueErrorKind::Corrupt,
                    "desktop queue launch record changed during reconciliation"@,
                ),
            )
        } else if manager::channel_objection(s, cli_id) is Some {
            manager::channel_objection(s, cli_id)
        } else {
            let c = s.channels[manager::channel_of(s, cli_id)];
            if manager::record_objection(s.root, c, cli_id, s.session) is Some {
                manager::record_objection(s.root, c, cli_id, s.session)
            } else if (manager::metadata_of(c)->Ok_0).state != CliState::Creating
                || text::opt_view((manager::metadata_of(c)->Ok_0).launch_marker) != Some(marker) {
                Some(
                    (
                        QueueErrorKind::Corrupt,
                        "desktop queue launch metadata changed during reconciliation"@,
                    ),
                )
            } else {
                None
            }
        }
    }
}

/// The identity of a CLI that runs.
pub open spec fn activated(
    identity: IdentityView,
    cli_id: Seq<char>,
    marker: Seq<char>,
) -> IdentityView {
    IdentityView { cli_id, state: CliState::Active, launch_marker: Some(marker), ..identity }
}

pub open spec fn closed(identity: IdentityView) -> IdentityView {
    IdentityView { state: CliState::Closed, ..identity }
}

/// The channel's own record cannot be read.
pub open spec fn unreadable(root: Seq<char>, c: ChannelRecord) -> Objection {
    match c.metadata {
        None => Some(manager::missing_record(root, c.dir@)),
        Some(Err(e)) => Some((e.kind, e.message@)),
        Some(Ok(_)) => None,
    }
}

/// Why a CLI cannot be marked as closed.
pub open spec fn closing_objection(s: Spool, cli_id: Seq<char>) -> Objection {
    if super::id_objection("cli_id"@, cli_id) is Some {
        super::id_objection("cli_id"@, cli_id)
    } else if manager::channel_objection(s, cli_id) is Some {
        manager::channel_objection(s, cli_id)
    } else {
        unreadable(s.root, s.channels[manager::channel_of(s, cli_id)])
    }
}

/// Nothing in the channel is worth keeping.
pub open spec fn empty(c: Channel) -> bool {
    &&& c.pending@.len() == 0
    &&& enqueue::leased_count(c.leases@) == 0
    &&& c.tmp@.len() == 0
    &&& c.receipts@.len() == 0
    &&& c.quarantine@.len() == 0
}

/// The launch is known not to be running.
pub open spec fn confirmed_absent(marker: Option<Seq<char>>, live: Option<Seq<Seq<char>>>) -> bool {
    match marker {
        None => true,
        Some(m) => live is Some && !(live->0).contains(m),
    }
}

pub open spec fn stale_creating(
    metadata: ChannelMetadata,
    live: Option<Seq<Seq<char>>>,
    now: u64,
) -> bool {
    &&& metadata.state == CliState::Creating
    &&& confirmed_absent(text::opt_view(metadata.launch_marker), live)
    &&& channel::saturating_sum(metadata.updated_at_unix_ms, STALE_RECORD_DURATION_MS) <= now
}

/// The channel may be removed.
pub open spec fn prunable(
    c: Channel,
    metadata: ChannelMetadata,
    live: Option<Seq<Seq<char>>>,
    now: u64,
) -> bool {
    empty(c) && (metadata.state == CliState::Closed || stale_creating(metadata, live, now))
}

/// `d` is `c` with stale temporary files and receipts gone.
pub open spec fn tidied(c: ChannelRecord, d: ChannelRecord, cli_id: Seq<char>, now: u64) -> bool {
    &&& d.dir == c.dir
    &&& d.modified_ms == c.modified_ms
    &&& d.metadata == c.metadata
    &&& d.channel@ == channel::receipts_pruned(c.channel@, cli_id, now)
    &&& d.channel.tmp@ == c.channel.tmp@.filter(
        |f: channel::TempFile| !channel::stale_temp(f, now),
    )
}

pub open spec fn sound_entry(file: IndexFile) -> bool {
    file.entry is Ok && super::index_objection(file.entry->Ok_0, file.cli_id@) is None
}

pub open spec fn entry_of(file: IndexFile) -> IndexEntry {
    file.entry->Ok_0
}

pub open spec fn keep_index(s: Spool, file: IndexFile) -> Spool {
    Spool { index: s.index.push(file), ..s }
}

pub open spec fn set_aside(s: Spool, name: Seq<char>) -> Spool {
    Spool { quarantine: s.quarantine.push(name), ..s }
}

/// What pruning does about one registry file.
pub open spec fn prune_step(
    s: Spool,
    file: IndexFile,
    live: Option<Seq<Seq<char>>>,
    now: u64,
    t: Spool,
    before: Seq<Seq<char>>,
    after: Seq<Seq<char>>,
) -> bool {
    if !sound_entry(file) {
        t == set_aside(s, file.cli_id@ + ".json"@) && after == before
    } else if !manager::has_dir(s.channels, entry_of(file).channel_dir@) {
        t == keep_index(s, file) && after == before
    } else {
        let k = manager::dir_at(s.channels, entry_of(file).channel_dir@);
        if manager::record_objection(s.root, s.channels[k], file.cli_id@, s.session) is Some {
            t == keep_index(s, file) && after == before
        } else {
            exists|d: ChannelRecord|
                #[trigger] tidied(s.channels[k], d, file.cli_id@, now) && {
                    let metadata = manager::metadata_of(d)->Ok_0;
                    if prunable(d.channel, metadata, live, now) {
                        &&& t == Spool { channels: s.channels.remove(k), ..s }
                        &&& after == if stale_creating(metadata, live, now) {
                            before.push(file.cli_id@)
                        } else {
                            before
                        }
                    } else {
                        &&& t == keep_index(Spool { channels: s.channels.update(k, d), ..s }, file)
                        &&& after == before
                    }
                }
        }
    }
}

/// Pruning goes through the registry files in order.
pub open spec fn pruned_by(
    s: Spool,
    files: Seq<IndexFile>,
    live: Option<Seq<Seq<char>>>,
    now: u64,
    t: Spool,
    names: Seq<Seq<char>>,
) -> bool
    decreases files.len(),
{
    if files.len() == 0 {
        t == s && names == Seq::<Seq<char>>::empty()
    } else {
        exists|mid: Spool, before: Seq<Seq<char>>|
            pruned_by(s, files.drop_last(), live, now, mid, before) && #[trigger] prune_step(
                mid,
                files.last(),
                live,
                now,
                t,
                before,
                names,
            )
    }
}

pub open spec fn opt_views(v: Option<Vec<String>>) -> Option<Seq<Seq<char>>> {
    match v {
        Some(names) => Some(text::views(names@)),
        None => None,
    }
}

fn marker_is(marker: &Option<String>, expected: &str) -> (r: bool)
    ensures
        r == (text::opt_view(*marker) == Some(expected@)),
{
    match marker {
        Some(m) => text::str_eq(m.as_str(), expected),
        None => false,
    }
}

pub(crate) fn check_record(root: &str, c: &ChannelRecord, cli_id: &str, session: &str) -> (r: Result<
    (),
    QueueError,
>)
    ensures
        super::objection(r) == manager::record_objection(root@, *c, cli_id@, session@),
{
    match &c.metadata {
        None => Err(manager::record_error(root, c.dir.as_str())),
        Some(Err(e)) => Err(e.clone()),
        Some(Ok(metadata)) => super::validate_channel_metadata(metadata, cli_id, session),
    }
}

impl QueueManager {
    fn set_identity(&mut self, i: usize, k: usize, identity: &CliIdentity, now: u64)
        requires
            manager::well_formed(old(self)@),
            i < old(self)@.index.len(),
            k < old(self)@.channels.len(),
            old(self)@.index[i as int].entry is Ok,
            old(self)@.channels[k as int].metadata matches Some(Ok(_)),
        ensures
            manager::well_formed(final(self)@),
            manager::identity_set(
                old(self)@,
                final(self)@,
                i as int,
                k as int,
                identity@,
                now,
            ),
            final(self).root == old(self).root,
    {
        let ghost before = self@;
        let mut file = self.index.remove(i);
        file.entry = match file.entry {
            Ok(entry) => Ok(IndexEntry { identity: identity.clone(), ..entry }),
            Err(e) => Err(e),
        };
        self.index.insert(i, file);
        let mut record = self.channels.remove(k);
        record.metadata = match record.metadata {
            Some(Ok(metadata)) => Some(
                Ok(
                    ChannelMetadata {
                        state: identity.state,
                        updated_at_unix_ms: now,
                        identity: Some(identity.clone()),
                        ..metadata
                    },
                ),
            ),
            other => other,
        };
        self.channels.insert(k, record);
        proof {
            assert(self@.index =~= before.index.update(i as int, file));
            assert(self@.channels =~= before.channels.update(k as int, record));
        }
    }

    /// Marks a CLI that was just launched as running.
    pub fn activate_channel(
        &mut self,
        handle: &ChannelHandle,
        identity: CliIdentity,
        now: u64,
    ) -> (r: Result<CliIdentity, QueueError>)
        requires
            manager::well_formed(old(self)@),
        ensures
            manager::well_formed(final(self)@),
            final(self).root == old(self).root,
            super::objection(r) == activation_objection(old(self)@, *handle),
            r is Err ==> final(self)@ == old(self)@,
            r matches Ok(active) ==> {
                &&& active@ == activated(identity@, handle.cli_id@, handle.launch_marker@)
                &&& manager::identity_set(
                    old(self)@,
                    final(self)@,
                    manager::index_at(old(self)@.index, handle.cli_id@),
                    manager::dir_at(old(self)@.channels, handle.channel_dir@),
                    active@,
                    now,
                )
            },
    {
        let cli_id = handle.cli_id.as_str();
        let i: usize = match self.read_index(cli_id) {
            Ok(i) => i,
            Err(e) => return Err(e),
        };
        let matching = match &self.index[i].entry {
            Ok(entry) => text::str_eq(entry.channel_dir.as_str(), handle.channel_dir.as_str())
                && entry.identity.state == CliState::Creating && marker_is(
                &entry.identity.launch_marker,
                handle.launch_marker.as_str(),
            ),
            Err(_) => false,
        };
        if !matching {
            return Err(
                QueueError::new(
                    QueueErrorKind::Corrupt,
                    "desktop queue channel changed during CLI launch",
                ),
            );
        }
        let k: usize = match manager::find_dir(&self.channels, handle.channel_dir.as_str()) {
            Some(k) => k,
            None => return Err(
                manager::lock_error(self.root.as_str(), handle.channel_dir.as_str()),
            ),
        };
        match check_record(
            self.root.as_str(),
            &self.channels[k],
            cli_id,
            self.session.as_str(),
        ) {
            Ok(()) => {},
            Err(e) => return Err(e),
        }
        let same_launch = match &self.channels[k].metadata {
            Some(Ok(metadata)) => marker_is(
                &metadata.launch_marker,
                handle.launch_marker.as_str(),
            ),
            _ => false,
        };
        if !same_launch {
            return Err(
                QueueError::new(
                    QueueErrorKind::Corrupt,
                    "desktop queue launch marker changed during CLI launch",
                ),
            );
        }
        let active = CliIdentity {
            cli_id: handle.cli_id.clone(),
            state: CliState::Active,
            launch_marker: Some(handle.launch_marker.clone()),
            ..identity
        };
        self.set_identity(i, k, &active, now);
        Ok(active)
    }

    /// Takes up a launch that was interrupted before it was recorded.
    pub fn activate_reconciled(
        &mut self,
        cli_id: &str,
        launch_marker: &str,
        identity: CliIdentity,
        now: u64,
    ) -> (r: Result<CliIdentity, QueueError>)
        requires
            manager::well_formed(old(self)@),
        ensures
            manager::well_formed(final(self)@),
            final(self).root == old(self).root,
            super::objection(r) == reconciliation_objection(old(self)@, cli_id@, launch_marker@),
            r is Err ==> final(self)@ == old(self)@,
            r matches Ok(active) ==> {
                &&& active@ == activated(identity@, cli_id@, launch_marker@)
                &&& manager::identity_set(
                    old(self)@,
                    final(self)@,
                    manager::index_at(old(self)@.index, cli_id@),
                    manager::channel_of(old(self)@, cli_id@),
                    active@,
                    now,
                )
            },
    {
        match super::validate_id("cli_id", cli_id) {
            Ok(()) => {},
            Err(e) => return Err(e),
        }
        match super::validate_id("launch_marker", launch_marker) {
            Ok(()) => {},
            Err(e) => return Err(e),
        }
        let i: usize = match self.read_index(cli_id) {
            Ok(i) => i,
            Err(e) => return Err(e),
        };
        let creating = match &self.index[i].entry {
            Ok(entry) => entry.identity.state == CliState::Creating && marker_is(
                &entry.identity.launch_marker,
                launch_marker,
            ),
            Err(_) => false,
        };
        if !creating {
            return Err(
                QueueError::new(
                    QueueErrorKind::Corrupt,
                    "desktop queue launch record changed during reconciliation",
                ),
            );
        }
        let k: usize = match self.locate(cli_id) {
            Ok((_, k)) => k,
            Err(e) => return Err(e),
        };
        match check_record(
            self.root.as_str(),
            &self.channels[k],
            cli_id,
            self.session.as_str(),
        ) {
            Ok(()) => {},
            Err(e) => return Err(e),
        }
        let same_launch = match &self.channels[k].metadata {
            Some(Ok(metadata)) => metadata.state == CliState::Creating && marker_is(
                &metadata.launch_marker,
                launch_marker,
            ),
            _ => false,
        };
        if !same_launch {
            return Err(
                QueueError::new(
                    QueueErrorKind::Corrupt,
                    "desktop queue launch metadata changed during reconciliation",
                ),
            );
        }
        let active = CliIdentity {
            cli_id: cli_id.to_string(),
            state: CliState::Active,
            launch_marker: Some(launch_marker.to_string()),
            ..identity
        };
        self.set_identity(i, k, &active, now);
        Ok(active)
    }

    /// Records that a CLI no longer runs.
    pub fn mark_closed(&mut self, cli_id: &str, now: u64) -> (r: Result<CliIdentity, QueueError>)
        requires
            manager::well_formed(old(self)@),
        ensures
            manager::well_formed(final(self)@),
            final(self).root == old(self).root,
            super::objection(r) == closing_objection(old(self)@, cli_id@),
            r is Err ==> final(self)@ == old(self)@,
            r matches Ok(identity) ==> {
                &&& identity@ == closed(manager::registered(old(self)@, cli_id@).identity@)
                &&& manager::identity_set(
                    old(self)@,
                    final(self)@,
                    manager::index_at(old(self)@.index, cli_id@),
                    manager::channel_of(old(self)@, cli_id@),
                    identity@,
                    now,
                )
            },
    {
        match super::validate_id("cli_id", cli_id) {
            Ok(()) => {},
            Err(e) => return Err(e),
        }
        let (i, k): (usize, usize) = match self.locate(cli_id) {
            Ok(found) => found,
            Err(e) => return Err(e),
        };
        self.close_at(i, k, now)
    }

    fn close_at(&mut self, i: usize, k: usize, now: u64) -> (r: Result<CliIdentity, QueueError>)
        requires
            manager::well_formed(old(self)@),
            i < old(self)@.index.len(),
            k < old(self)@.channels.len(),
            old(self)@.index[i as int].entry is Ok,
        ensures
            manager::well_formed(final(self)@),
            final(self).root == old(self).root,
            super::objection(r) == unreadable(
                old(self)@.root,
                old(self)@.channels[k as int],
            ),
            r is Err ==> final(self)@ == old(self)@,
            r matches Ok(identity) ==> {
                &&& identity@ == closed(entry_of(old(self)@.index[i as int]).identity@)
                &&& manager::identity_set(
                    old(self)@,
                    final(self)@,
                    i as int,
                    k as int,
                    identity@,
                    now,
                )
            },
    {
        match &self.channels[k].metadata {
            None => return Err(
                manager::record_error(self.root.as_str(), self.channels[k].dir.as_str()),
            ),
            Some(Err(e)) => return Err(e.clone()),
            Some(Ok(_)) => {},
        }
        match &self.index[i].entry {
            Ok(entry) => {
                let identity = CliIdentity { state: CliState::Closed, ..entry.identity.clone() };
                self.set_identity(i, k, &identity, now);
                Ok(identity)
            },
            Err(e) => Err(e.clone()),
        }
    }

    /// Undoes a launch that failed: the channel goes away, unless messages
    /// already arrived in it; then it is closed and keeps them.
    pub fn abort_empty_channel(&mut self, handle: &ChannelHandle, now: u64) -> (r: Result<
        (),
        QueueError,
    >)
        requires
            manager::well_formed(old(self)@),
        ensures
            manager::well_formed(final(self)@),
            final(self).root == old(self).root,
            abort_post(old(self)@, *handle, now, final(self)@, r),
    {
        let k: usize = match manager::find_dir(&self.channels, handle.channel_dir.as_str()) {
            Some(k) => k,
            None => return Err(
                manager::dir_error(self.root.as_str(), handle.channel_dir.as_str()),
            ),
        };
        let occupied = self.channels[k].channel.pending.len() > 0
            || self.channels[k].channel.lease_message_count() > 0;
        if occupied {
            let i: usize = match self.read_index(handle.cli_id.as_str()) {
                Ok(i) => i,
                Err(e) => return Err(e),
            };
            return match self.close_at(i, k, now) {
                Ok(_) => Ok(()),
                Err(e) => Err(e),
            };
        }
        match manager::find_index(&self.index, handle.cli_id.as_str()) {
            Some(i) => {
                self.index.remove(i);
            },
            None => {},
        }
        self.channels.remove(k);
        Ok(())
    }

    fn tidy_channel(&mut self, k: usize, cli_id: &str, now: u64)
        requires
            manager::well_formed(old(self)@),
            k < old(self)@.channels.len(),
        ensures
            manager::well_formed(final(self)@),
            final(self).root == old(self).root,
            final(self)@ == (Spool {
                channels: old(self)@.channels.update(
                    k as int,
                    final(self)@.channels[k as int],
                ),
                ..old(self)@
            }),
            tidied(
                old(self)@.channels[k as int],
                final(self)@.channels[k as int],
                cli_id@,
                now,
            ),
    {
        let ghost before = self@;
        let mut record = self.channels.remove(k);
        record.channel.prune_receipts(cli_id, now);
        let mut tmp: Vec<channel::TempFile> = Vec::new();
        std::mem::swap(&mut tmp, &mut record.channel.tmp);
        record.channel.tmp = channel::prune_stale_temp_files(tmp, now);
        self.channels.insert(k, record);
        assert(self@.channels =~= before.channels.update(k as int, record));
    }

    /// Removes channels that hold nothing and belong to no running CLI. Returns
    /// the CLIs whose launch never completed.
    pub fn prune_stale_channels(&mut self, live_markers: &Option<Vec<String>>, now: u64) -> (names:
        Vec<String>)
        requires
            manager::well_formed(old(self)@),
        ensures
            manager::well_formed(final(self)@),
            final(self).root == old(self).root,
            pruned_by(
                (Spool { index: Seq::empty(), ..old(self)@ }),
                old(self)@.index,
                opt_views(*live_markers),
                now,
                final(self)@,
                text::views(names@),
            ),
    {
        let mut rest: Vec<IndexFile> = Vec::new();
        std::mem::swap(&mut rest, &mut self.index);
        let ghost all = rest@;
        let ghost start = self@;
        let ghost live = opt_views(*live_markers);
        assert(start == Spool { index: Seq::empty(), ..old(self)@ });
        let mut names: Vec<String> = Vec::new();
        let total: usize = rest.len();
        let mut n: usize = 0;
        proof {
            assert(all.take(0) =~= Seq::<IndexFile>::empty());
            assert(text::views(names@) =~= Seq::<Seq<char>>::empty());
            assert(pruned_by(start, all.take(0), live, now, self@, text::views(names@)));
        }
        while n < total
            invariant
                n <= total == all.len(),
                rest@ == all.skip(n as int),
                live == opt_views(*live_markers),
                manager::distinct_index(all),
                manager::well_formed(self@),
                self.root == old(self).root,
                forall|i: int, j: int|
                    0 <= i < self.index@.len() && n <= j < all.len() ==> (
                    #[trigger] self.index@[i]).cli_id@ != (#[trigger] all[j]).cli_id@,
                pruned_by(start, all.take(n as int), live, now, self@, text::views(names@)),
            decreases total - n,
        {
            let file = rest.remove(0);
            let ghost mid = self@;
            let ghost before = text::views(names@);
            let ghost named = before.push(file.cli_id@);
            proof {
                assert(file == all[n as int]);
                assert(rest@ =~= all.skip(n as int + 1));
                assert(all.take(n as int + 1).drop_last() =~= all.take(n as int));
                assert(all.take(n as int + 1).last() == file);
            }
            match self.prune_entry(file, live_markers, now) {
                Some(cli_id) => {
                    names.push(cli_id);
                    assert(text::views(names@) =~= before.push(cli_id@));
                },
                None => {},
            }
            assert(text::views(names@) == before || text::views(names@) == named);
            assert(prune_step(
                mid,
                all.take(n as int + 1).last(),
                live,
                now,
                self@,
                before,
                text::views(names@),
            ));
            n += 1;
            assert(pruned_by(start, all.take(n as int), live, now, self@, text::views(names@)));
        }
        assert(all.take(total as int) =~= all);
        names
    }

    fn prune_entry(&mut self, file: IndexFile, live_markers: &Option<Vec<String>>, now: u64) -> (r:
        Option<String>)
        requires
            manager::well_formed(old(self)@),
            forall|i: int|
                0 <= i < old(self)@.index.len() ==> (#[trigger] old(self)@.index[i]).cli_id@
                    != file.cli_id@,
        ensures
            manager::well_formed(final(self)@),
            final(self).root == old(self).root,
            final(self)@.index == old(self)@.index || final(self)@.index
                == old(self)@.index.push(file),
            r matches Some(cli_id) ==> cli_id@ == file.cli_id@,
            forall|before: Seq<Seq<char>>|
                prune_step(
                    old(self)@,
                    file,
                    opt_views(*live_markers),
                    now,
                    final(self)@,
                    before,
                    if r is Some {
                        #[trigger] before.push(file.cli_id@)
                    } else {
                        before
                    },
                ),
    {
        let dir = match &file.entry {
            Ok(entry) => match super::validate_index_entry(entry, file.cli_id.as_str()) {
                Ok(()) => Some(entry.channel_dir.clone()),
                Err(_) => None,
            },
            Err(_) => None,
        };
        let dir = match dir {
            Some(dir) => dir,
            None => {
                let ghost before = text::views(self.quarantine@);
                let name = channel::append_json(file.cli_id.as_str());
                self.quarantine.push(name);
                assert(text::views(self.quarantine@) =~= before.push(name@));
                return None;
            },
        };
        let k: usize = match manager::find_dir(&self.channels, dir.as_str()) {
            Some(k) => k,
            None => {
                self.index.push(file);
                return None;
            },
        };
        if check_record(
            self.root.as_str(),
            &self.channels[k],
            file.cli_id.as_str(),
            self.session.as_str(),
        ).is_err() {
            self.index.push(file);
            return None;
        }
        let ghost start = self@;
        self.tidy_channel(k, file.cli_id.as_str(), now);
        let c = &self.channels[k];
        let is_empty = c.channel.pending.len() == 0 && c.channel.lease_message_count() == 0
            && c.channel.tmp.len() == 0 && c.channel.receipts.len() == 0
            && c.channel.quarantine.len() == 0;
        let (is_closed, is_stale) = match &c.metadata {
            Some(Ok(metadata)) => {
                let absent = match &metadata.launch_marker {
                    None => true,
                    Some(marker) => match live_markers {
                        Some(markers) => !text::contains_string(markers, marker.as_str()),
                        None => false,
                    },
                };
                (
                    metadata.state == CliState::Closed,
                    metadata.state == CliState::Creating && absent
                        && metadata.updated_at_unix_ms.saturating_add(STALE_RECORD_DURATION_MS)
                        <= now,
                )
            },
            _ => (false, false),
        };
        let ghost d = self@.channels[k as int];
        assert(tidied(start.channels[k as int], d, file.cli_id@, now));
        if is_empty && (is_closed || is_stale) {
            self.channels.remove(k);
            assert(self@.channels =~= start.channels.remove(k as int));
            if is_stale {
                return Some(file.cli_id.clone());
            }
            None
        } else {
            self.index.push(file);
            None
        }
    }

    /// Removes launches that are known not to be running.
    pub fn prune_stale_creating(&mut self, live_markers: Vec<String>, now: u64) -> (names: Vec<
        String,
    >)
        requires
            manager::well_formed(old(self)@),
        ensures
            manager::well_formed(final(self)@),
            final(self).root == old(self).root,
            pruned_by(
                (Spool { index: Seq::empty(), ..old(self)@ }),
                old(self)@.index,
                Some(text::views(live_markers@)),
                now,
                final(self)@,
                text::views(names@),
            ),
    {
        self.prune_stale_channels(&Some(live_markers), now)
    }
}

/// What undoing a launch does.
pub open spec fn abort_post(
    s: Spool,
    handle: ChannelHandle,
    now: u64,
    t: Spool,
    r: Result<(), QueueError>,
) -> bool {
    if !manager::has_dir(s.channels, handle.channel_dir@) {
        &&& super::objection(r) == Some(manager::missing_dir(s.root, handle.channel_dir@))
        &&& t == s
    } else {
        let k = manager::dir_at(s.channels, handle.channel_dir@);
        let i = manager::index_at(s.index, handle.cli_id@);
        if s.channels[k].channel@.pending.len() > 0 || enqueue::leased_count(
            s.channels[k].channel@.leases,
        ) > 0 {
            if manager::registry_objection(s, handle.cli_id@) is Some {
                super::objection(r) == manager::registry_objection(s, handle.cli_id@) && t == s
            } else if unreadable(s.root, s.channels[k]) is Some {
                super::objection(r) == unreadable(s.root, s.channels[k]) && t == s
            } else {
                r is Ok && manager::identity_set(
                    s,
                    t,
                    i,
                    k,
                    closed(entry_of(s.index[i]).identity@),
                    now,
                )
            }
        } else {
            r is Ok && t == Spool {
                index: if manager::has_index(s.index, handle.cli_id@) {
                    s.index.remove(i)
                } else {
                    s.index
                },
                channels: s.channels.remove(k),
                ..s
            }
        }
    }
}

} // verus!
