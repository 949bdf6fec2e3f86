//! Which records, files and directories of the queue are believed.

use vstd::prelude::*;
use vstd::string::*;

use super::lifecycle;
use super::manager::{self, Spool};
use super::private::{self, EntryFacts, IoFault};
use super::registry;
use super::{AckReceipt, ChannelMetadata, CliState, IndexEntry, QueueErrorKind};
use crate::text;

verus! {

/// A directory is used exactly if it is one, is the user's own, and only the user can do
/// anything with it.
pub proof fn lemma_directories_are_the_users_alone(
    path: Seq<char>,
    found: Result<EntryFacts, (IoFault, String)>,
    euid: u32,
)
    ensures
        private::private_dir_objection(path, found, euid) is None <==> found is Ok && (
        found->Ok_0).is_dir && (found->Ok_0).uid == euid && (found->Ok_0).mode & 0o777 == 0o700,
        found is Ok && private::private_dir_objection(path, found, euid) is Some ==> (
        private::private_dir_objection(path, found, euid)->0).0 == QueueErrorKind::PermissionDenied,
{
}

/// A file is used exactly if it is a plain one, is the user's own and only the user can read
/// or write it, and has no other name.
pub proof fn lemma_files_are_the_users_alone(path: Seq<char>, f: EntryFacts, euid: u32)
    ensures
        private::private_file_objection(path, f, euid) is None <==> f.is_file && f.uid == euid
            && f.mode & 0o777 == 0o600 && f.links == 1,
        private::entry_objection(path, f) is Some <==> f.is_symlink,
{
}

/// A file operation that was not permitted is told as such, and any other failure as one of
/// the file system.
pub proof fn lemma_faults_are_told(fault: IoFault)
    ensures
        private::io_kind(fault) == QueueErrorKind::PermissionDenied <==> fault
            == IoFault::PermissionDenied,
        private::io_kind(fault) == QueueErrorKind::Io <==> fault != IoFault::PermissionDenied,
{
}

/// The name of a channel's directory is that of its CLI, a full stop, and sixty-four
/// hexadecimal digits; and every such name is one.
pub proof fn lemma_channels_are_named_by_their_cli(name: Seq<char>)
    requires
        super::channel_name_objection(name) is None,
    ensures
        super::id_objection("cli_id"@, super::channel_owner(name)) is None,
        exists|capability: Seq<char>|
            name == super::channel_owner(name).push('.') + capability && #[trigger] capability_like(
                capability,
            ),
        !name.contains('/'),
{
    reveal_strlit(".");
    text::lemma_split_surrounds(name, "."@);
    let (cli_id, capability) = text::split_first(name, "."@)->0;
    assert(cli_id + "."@ =~= cli_id.push('.'));
    assert forall|i: int| 0 <= i < capability.len() implies (('0' <= #[trigger] capability[i]
        <= '9') || ('a' <= capability[i] <= 'f')) by {
        assert(super::is_hex_char(capability[i]));
    }
    assert(capability_like(capability));
}

/// Sixty-four hexadecimal digits.
pub open spec fn capability_like(s: Seq<char>) -> bool {
    text::utf8_len(s) == 64 && forall|i: int|
        0 <= i < s.len() ==> (('0' <= #[trigger] s[i] <= '9') || ('a' <= s[i] <= 'f'))
}

/// A channel's record is believed exactly if it is of this version, this CLI and this
/// session, its marker is an identifier, and the identity in it, if any, is of this CLI and
/// this launch.
pub proof fn lemma_believed_records_are_of_their_channel(
    metadata: ChannelMetadata,
    cli_id: Seq<char>,
    session: Seq<char>,
)
    ensures
        super::metadata_objection(metadata, cli_id, session) is None <==> {
            &&& metadata.schema_version == 1
            &&& metadata.cli_id@ == cli_id
            &&& metadata.session@ == session
            &&& metadata.launch_marker is Some ==> super::id_objection(
                "launch_marker"@,
                (metadata.launch_marker->0)@,
            ) is None
            &&& metadata.identity is Some ==> (metadata.identity->0)@.cli_id == cli_id && (
            metadata.identity->0)@.launch_marker == text::opt_view(metadata.launch_marker)
        },
{
}

/// An entry of the registry is believed exactly if it is of this version and this CLI, and
/// its channel is one of this CLI's own.
pub proof fn lemma_believed_entries_are_of_their_cli(entry: IndexEntry, cli_id: Seq<char>)
    ensures
        super::index_objection(entry, cli_id) is None <==> {
            &&& entry.schema_version == 1
            &&& entry.identity@.cli_id == cli_id
            &&& super::id_objection("cli_id"@, cli_id) is None
            &&& entry.identity@.launch_marker is Some ==> super::id_objection(
                "launch_marker"@,
                entry.identity@.launch_marker->0,
            ) is None
            &&& super::channel_name_objection(entry.channel_dir@) is None
            &&& super::channel_owner(entry.channel_dir@) == cli_id
        },
{
}

/// A receipt is believed exactly if it is of this version, this CLI and this lease; one on
/// file is of the lease that its name gives.
pub proof fn lemma_believed_receipts_are_of_their_lease(
    receipt: AckReceipt,
    cli_id: Seq<char>,
    lease_id: Seq<char>,
)
    ensures
        super::receipt_objection(receipt, cli_id, lease_id) is None <==> receipt.schema_version == 1
            && receipt.cli_id@ == cli_id && receipt.lease_id@ == lease_id,
        super::receipt_file_objection(lease_id, receipt, cli_id) is None <==> receipt.schema_version
            == 1 && receipt.cli_id@ == cli_id && receipt.lease_id@ == lease_id
            && super::id_objection("lease_id"@, lease_id) is None,
{
}

/// A launch is taken up again only while it is being created, on both records, and under the
/// marker that both have.
pub proof fn lemma_only_open_launches_are_taken_up(s: Spool, cli_id: Seq<char>, marker: Seq<char>)
    requires
        manager::well_formed(s),
        registry::reconciliation_objection(s, cli_id, marker) is None,
    ensures
        exists|i: int| #[trigger]
            lifecycle::entry_at(s, cli_id, i) && (s.index[i].entry matches Ok(entry)
                && entry.identity@.state == CliState::Creating && entry.identity@.launch_marker
                == Some(marker) && entry.identity@.cli_id == cli_id && exists|k: int|
                0 <= k < s.channels.len() && (#[trigger] s.channels[k]).dir@ == entry.channel_dir@
                    && (s.channels[k].metadata matches Some(Ok(m)) && m.state == CliState::Creating
                    && text::opt_view(m.launch_marker) == Some(marker) && m.cli_id@ == cli_id)),
{
    let i = manager::index_at(s.index, cli_id);
    assert(s.index[i].cli_id@ == cli_id);
    assert(lifecycle::entry_at(s, cli_id, i));
    let k = manager::channel_of(s, cli_id);
    assert(s.channels[k].dir@ == manager::registered(s, cli_id).channel_dir@);
}

/// A CLI can be closed exactly if it is registered with a channel whose record can be read;
/// in what state it is does not matter.
pub proof fn lemma_registered_clis_can_be_closed(s: Spool, cli_id: Seq<char>)
    requires
        manager::well_formed(s),
    ensures
        registry::closing_objection(s, cli_id) is None ==> exists|i: int| #[trigger]
            lifecycle::entry_at(s, cli_id, i) && (s.index[i].entry matches Ok(entry) && exists|
                k: int,
            |
                0 <= k < s.channels.len() && (#[trigger] s.channels[k]).dir@ == entry.channel_dir@
                    && (s.channels[k].metadata matches Some(Ok(_)))),
        forall|i: int, k: int|
            #![trigger s.index[i], s.channels[k]]
            lifecycle::entry_at(s, cli_id, i) && 0 <= k < s.channels.len() && (
            s.index[i].entry matches Ok(entry) && super::index_objection(entry, cli_id) is None
                && s.channels[k].dir@ == entry.channel_dir@) && (
            s.channels[k].metadata matches Some(Ok(_))) ==> registry::closing_objection(s, cli_id)
                is None,
{
    if registry::closing_objection(s, cli_id) is None {
        let i = manager::index_at(s.index, cli_id);
        assert(s.index[i].cli_id@ == cli_id);
        assert(lifecycle::entry_at(s, cli_id, i));
        let k = manager::channel_of(s, cli_id);
        assert(s.channels[k].dir@ == manager::registered(s, cli_id).channel_dir@);
    }
    assert forall|i: int, k: int|
        #![trigger s.index[i], s.channels[k]]
        lifecycle::entry_at(s, cli_id, i) && 0 <= k < s.channels.len() && (
        s.index[i].entry matches Ok(entry) && super::index_objection(entry, cli_id) is None
            && s.channels[k].dir@ == entry.channel_dir@) && (
        s.channels[k].metadata matches Some(Ok(_))) implies registry::closing_objection(s, cli_id)
        is None by {
        lifecycle::lemma_index_at(s, cli_id, i);
        lifecycle::lemma_dir_at(s, (s.index[i].entry->Ok_0).channel_dir@, k);
    }
}

} // verus!
