//! Accepting a message into a channel.

use vstd::prelude::*;
use vstd::string::*;

use super::channel::{self, Channel, LeaseDir, MessageFile, Model};
use super::{
    leases, order, ChannelMetadata, CliState, EnqueueReceipt, Objection, QueueError, QueueErrorKind,
    QueuedMessage, MAX_CHANNEL_BYTES, MAX_MESSAGES_PER_CHANNEL, QUEUE_SCHEMA_VERSION,
};
use crate::text;

verus! {

/// What a CLI finds in its environment: the queue version, its own identity,
/// and the directory that is its capability.
pub struct QueueEnv {
    pub version: Option<String>,
    pub cli_id: Option<String>,
    pub dir: Option<String>,
}

pub open spec fn capability_objection(
    env: QueueEnv,
    kind: Seq<char>,
    correlation_id: Option<Seq<char>>,
    text: Seq<char>,
) -> Objection {
    if super::message_objection(kind, correlation_id, text) is Some {
        super::message_objection(kind, correlation_id, text)
    } else if text::opt_view(env.version) != Some("1"@) {
        Some((QueueErrorKind::PermissionDenied, "desktop queue capability is unavailable"@))
    } else if env.cli_id is None {
        Some((QueueErrorKind::PermissionDenied, "desktop queue CLI identity is unavailable"@))
    } else if super::id_objection("cli_id"@, (env.cli_id->0)@) is Some {
        super::id_objection("cli_id"@, (env.cli_id->0)@)
    } else if env.dir is None {
        Some(
            (
                QueueErrorKind::PermissionDenied,
                "desktop queue capability directory is unavailable"@,
            ),
        )
    } else if !text::has_prefix((env.dir->0)@, "/"@) {
        Some(
            (
                QueueErrorKind::PermissionDenied,
                "desktop queue capability directory must be absolute"@,
            ),
        )
    } else {
        None
    }
}

/// Reads the CLI identity and channel directory out of the environment, once
/// the message itself is acceptable.
pub fn open_capability(
    env: &QueueEnv,
    kind: &str,
    correlation_id: &Option<String>,
    text: &str,
) -> (r: Result<(String, String), QueueError>)
    ensures
        super::objection(r) == capability_objection(
            *env,
            kind@,
            text::opt_view(*correlation_id),
            text@,
        ),
        r matches Ok((cli_id, dir)) ==> env.cli_id == Some(cli_id) && env.dir == Some(dir),
{
    match super::validate_message(kind, correlation_id, text) {
        Ok(()) => {},
        Err(e) => return Err(e),
    }
    let enabled = match &env.version {
        Some(version) => text::str_eq(version.as_str(), "1"),
        None => false,
    };
    if !enabled {
        return Err(
            QueueError::new(
                QueueErrorKind::PermissionDenied,
                "desktop queue capability is unavailable",
            ),
        );
    }
    let cli_id = match &env.cli_id {
        Some(cli_id) => cli_id,
        None => return Err(
            QueueError::new(
                QueueErrorKind::PermissionDenied,
                "desktop queue CLI identity is unavailable",
            ),
        ),
    };
    match super::validate_id("cli_id", cli_id.as_str()) {
        Ok(()) => {},
        Err(e) => return Err(e),
    }
    let dir = match &env.dir {
        Some(dir) => dir,
        None => return Err(
            QueueError::new(
                QueueErrorKind::PermissionDenied,
                "desktop queue capability directory is unavailable",
            ),
        ),
    };
    if !text::prefixed(dir.as_str(), "/") {
        return Err(
            QueueError::new(
                QueueErrorKind::PermissionDenied,
                "desktop queue capability directory must be absolute",
            ),
        );
    }
    Ok((cli_id.clone(), dir.clone()))
}

pub open spec fn contents_size(files: Seq<MessageFile>) -> nat
    decreases files.len(),
{
    if files.len() == 0 {
        0
    } else {
        contents_size(files.drop_last()) + files.last().content@.len()
    }
}

pub open spec fn leased_count(leases: Seq<LeaseDir>) -> nat
    decreases leases.len(),
{
    if leases.len() == 0 {
        0
    } else {
        leased_count(leases.drop_last()) + leases.last().files@.len()
    }
}

pub open spec fn leased_size(leases: Seq<LeaseDir>) -> nat
    decreases leases.len(),
{
    if leases.len() == 0 {
        0
    } else {
        leased_size(leases.drop_last()) + contents_size(leases.last().files@)
    }
}

/// Messages that a channel holds, pending or leased.
pub open spec fn message_count(m: Model) -> nat {
    m.pending.len() + leased_count(m.leases)
}

/// Bytes that those messages take up.
pub open spec fn message_bytes(m: Model) -> nat {
    contents_size(m.pending) + leased_size(m.leases)
}

pub open spec fn capped(n: nat) -> nat {
    if n > usize::MAX {
        usize::MAX as nat
    } else {
        n
    }
}

fn add_sizes(files: &Vec<MessageFile>, count: usize, bytes: usize, Ghost(c): Ghost<nat>, Ghost(b): Ghost<nat>) -> (r: (
    usize,
    usize,
))
    requires
        count == capped(c),
        bytes == capped(b),
    ensures
        r.0 == capped(c + files@.len()),
        r.1 == capped(b + contents_size(files@)),
{
    let mut n: usize = count;
    let mut s: usize = bytes;
    let mut i: usize = 0;
    assert(files@.take(0) =~= Seq::<MessageFile>::empty());
    while i < files.len()
        invariant
            i <= files@.len(),
            n == capped(c + i as nat),
            s == capped(b + contents_size(files@.take(i as int))),
        decreases files@.len() - i,
    {
        assert(files@.take(i as int + 1).drop_last() =~= files@.take(i as int));
        n = n.saturating_add(1);
        s = s.saturating_add(files[i].content.len());
        i += 1;
    }
    assert(files@.take(files@.len() as int) =~= files@);
    (n, s)
}

/// A file is written into the pending queue, over one of the same name.
pub open spec fn stored(m: Model, f: MessageFile, n: Model) -> bool {
    if channel::has_name(m.pending, f.name@) {
        exists|i: int|
            0 <= i < m.pending.len() && m.pending[i].name@ == f.name@ && n == (Model {
                pending: #[trigger] m.pending.update(i, f),
                ..m
            })
    } else {
        n == Model { pending: m.pending.insert(channel::rank(m.pending, f.name@), f), ..m }
    }
}

pub open spec fn over_quota(m: Model, encoded_len: nat) -> bool {
    message_count(m) >= MAX_MESSAGES_PER_CHANNEL || message_bytes(m) + encoded_len
        > MAX_CHANNEL_BYTES
}

/// `f` is the file that holds `message`, encoded as `encoded`.
pub open spec fn file_of(f: MessageFile, message: QueuedMessage, encoded: Seq<u8>) -> bool {
    &&& f.name@ == super::message_file_name(message.sequence, message.message_id@)
    &&& f.content@ == encoded
    &&& f.encoded_len == encoded.len()
    &&& f.message == Ok::<QueuedMessage, QueueError>(message)
}

/// What beginning to enqueue a message does to a channel, and what it answers.
pub open spec fn begun(
    m: Model,
    metadata: ChannelMetadata,
    cli_id: Seq<char>,
    kind: Seq<char>,
    correlation_id: Option<String>,
    text: Seq<char>,
    drawn: Result<String, QueueError>,
    now: u64,
    n: Model,
    r: Result<QueuedMessage, QueueError>,
) -> bool {
    if metadata.schema_version != QUEUE_SCHEMA_VERSION || metadata.cli_id@ != cli_id {
        &&& leases::refused(
            r,
            QueueErrorKind::PermissionDenied,
            "desktop queue capability does not match this CLI"@,
        )
        &&& n == m
    } else if metadata.state == CliState::Closed {
        &&& leases::refused(r, QueueErrorKind::Closed, "desktop queue channel is closed"@)
        &&& n == m
    } else {
        &&& n == leases::settled(m, cli_id, now)
        &&& match drawn {
            Err(e) => r == Err::<QueuedMessage, QueueError>(e),
            Ok(id) => {
                &&& r matches Ok(message)
                &&& message.schema_version == QUEUE_SCHEMA_VERSION
                &&& message.message_id@ == id@
                &&& message.sequence == metadata.next_sequence
                &&& message.cli_id@ == cli_id
                &&& message.created_at_unix_ms == now
                &&& message.kind@ == kind
                &&& message.correlation_id == correlation_id
                &&& message.text@ == text
            },
        }
    }
}

/// What storing a message that was begun does to a channel and its record, and what it
/// answers.
pub open spec fn finished(
    m: Model,
    before: ChannelMetadata,
    message: QueuedMessage,
    encoded: Seq<u8>,
    n: Model,
    after: ChannelMetadata,
    r: Result<EnqueueReceipt, QueueError>,
) -> bool {
    if over_quota(m, encoded.len()) {
        &&& leases::refused(r, QueueErrorKind::Full, "desktop queue channel quota is full"@)
        &&& n == m
        &&& after == before
    } else if before.next_sequence == u64::MAX {
        &&& leases::refused(r, QueueErrorKind::Full, "desktop queue sequence is exhausted"@)
        &&& n == m
        &&& after == before
    } else {
        &&& after == (ChannelMetadata {
            next_sequence: (before.next_sequence + 1) as u64,
            updated_at_unix_ms: message.created_at_unix_ms,
            ..before
        })
        &&& exists|f: MessageFile| #[trigger] file_of(f, message, encoded) && stored(m, f, n)
        &&& r matches Ok(receipt)
        &&& receipt.cli_id@ == message.cli_id@
        &&& receipt.message_id@ == message.message_id@
        &&& receipt.sequence == message.sequence
        &&& receipt.created_at_unix_ms == message.created_at_unix_ms
    }
}

impl Channel {
    /// How many messages the channel holds, and their size in bytes.
    pub fn queued_usage(&self) -> (r: (usize, usize))
        ensures
            r.0 == capped(message_count(self@)),
            r.1 == capped(message_bytes(self@)),
    {
        let (mut count, mut bytes): (usize, usize) = add_sizes(
            &self.pending,
            0,
            0,
            Ghost(0),
            Ghost(0),
        );
        let ghost c = self.pending@.len();
        let ghost b = contents_size(self.pending@);
        let mut i: usize = 0;
        assert(self.leases@.take(0) =~= Seq::<LeaseDir>::empty());
        while i < self.leases.len()
            invariant
                i <= self.leases@.len(),
                count == capped(c + leased_count(self.leases@.take(i as int))),
                bytes == capped(b + leased_size(self.leases@.take(i as int))),
            decreases self.leases@.len() - i,
        {
            let ghost before = self.leases@.take(i as int);
            assert(self.leases@.take(i as int + 1).drop_last() =~= before);
            let r = add_sizes(
                &self.leases[i].files,
                count,
                bytes,
                Ghost(c + leased_count(before)),
                Ghost(b + leased_size(before)),
            );
            count = r.0;
            bytes = r.1;
            i += 1;
        }
        assert(self.leases@.take(self.leases@.len() as int) =~= self.leases@);
        (count, bytes)
    }

    /// Messages that are out on lease.
    pub fn lease_message_count(&self) -> (n: usize)
        ensures
            n == capped(leased_count(self@.leases)),
    {
        let mut count: usize = 0;
        let mut i: usize = 0;
        assert(self.leases@.take(0) =~= Seq::<LeaseDir>::empty());
        while i < self.leases.len()
            invariant
                i <= self.leases@.len(),
                count == capped(leased_count(self.leases@.take(i as int))),
            decreases self.leases@.len() - i,
        {
            assert(self.leases@.take(i as int + 1).drop_last() =~= self.leases@.take(i as int));
            count = count.saturating_add(self.leases[i].files.len());
            i += 1;
        }
        assert(self.leases@.take(self.leases@.len() as int) =~= self.leases@);
        count
    }

    /// Settles the channel and gives the message its place in line, under an
    /// identifier that was drawn for it.
    pub fn begin_enqueue(
        &mut self,
        metadata: &ChannelMetadata,
        cli_id: &str,
        kind: &str,
        correlation_id: &Option<String>,
        text: &str,
        now: u64,
    ) -> (r: Result<QueuedMessage, QueueError>)
        requires
            channel::well_formed(old(self)@),
        ensures
            channel::well_formed(final(self)@),
            final(self).tmp == old(self).tmp,
            exists|drawn: Result<String, QueueError>| #[trigger]
                super::id_drawn("msg_"@, 16, drawn) && begun(
                    old(self)@,
                    *metadata,
                    cli_id@,
                    kind@,
                    *correlation_id,
                    text@,
                    drawn,
                    now,
                    final(self)@,
                    r,
                ),
    {
        let drawn = super::draw_id("msg_", 16);
        assert(super::id_drawn("msg_"@, 16, drawn));
        self.begin_enqueue_as(metadata, cli_id, kind, correlation_id, text, drawn, now)
    }

    /// Settles the channel and gives the message its place in line, under the
    /// identifier that was drawn.
    pub fn begin_enqueue_as(
        &mut self,
        metadata: &ChannelMetadata,
        cli_id: &str,
        kind: &str,
        correlation_id: &Option<String>,
        text: &str,
        drawn: Result<String, QueueError>,
        now: u64,
    ) -> (r: Result<QueuedMessage, QueueError>)
        requires
            channel::well_formed(old(self)@),
        ensures
            channel::well_formed(final(self)@),
            final(self).tmp == old(self).tmp,
            begun(
                old(self)@,
                *metadata,
                cli_id@,
                kind@,
                *correlation_id,
                text@,
                drawn,
                now,
                final(self)@,
                r,
            ),
    {
        if metadata.schema_version != QUEUE_SCHEMA_VERSION || !text::str_eq(
            metadata.cli_id.as_str(),
            cli_id,
        ) {
            return Err(
                QueueError::new(
                    QueueErrorKind::PermissionDenied,
                    "desktop queue capability does not match this CLI",
                ),
            );
        }
        if metadata.state == CliState::Closed {
            return Err(QueueError::new(QueueErrorKind::Closed, "desktop queue channel is closed"));
        }
        self.recover_expired_leases(cli_id, now);
        self.prune_receipts(cli_id, now);
        let message_id = match drawn {
            Ok(id) => id,
            Err(e) => return Err(e),
        };
        Ok(
            QueuedMessage {
                schema_version: QUEUE_SCHEMA_VERSION,
                message_id,
                sequence: metadata.next_sequence,
                cli_id: cli_id.to_string(),
                created_at_unix_ms: now,
                kind: kind.to_string(),
                correlation_id: text::clone_opt(correlation_id),
                text: text.to_string(),
            },
        )
    }

    /// Stores a message that was begun, unless the channel is full.
    pub fn finish_enqueue(
        &mut self,
        metadata: &mut ChannelMetadata,
        message: QueuedMessage,
        encoded: Vec<u8>,
    ) -> (r: Result<EnqueueReceipt, QueueError>)
        requires
            channel::well_formed(old(self)@),
        ensures
            channel::well_formed(final(self)@),
            final(self).tmp == old(self).tmp,
            finished(
                old(self)@,
                *old(metadata),
                message,
                encoded@,
                final(self)@,
                *final(metadata),
                r,
            ),
    {
        let (count, bytes) = self.queued_usage();
        if count >= MAX_MESSAGES_PER_CHANNEL || bytes.saturating_add(encoded.len())
            > MAX_CHANNEL_BYTES {
            return Err(
                QueueError::new(QueueErrorKind::Full, "desktop queue channel quota is full"),
            );
        }
        match metadata.next_sequence.checked_add(1) {
            Some(next) => {
                metadata.next_sequence = next;
            },
            None => return Err(
                QueueError::new(QueueErrorKind::Full, "desktop queue sequence is exhausted"),
            ),
        }
        metadata.updated_at_unix_ms = message.created_at_unix_ms;
        let receipt = EnqueueReceipt {
            cli_id: message.cli_id.clone(),
            message_id: message.message_id.clone(),
            sequence: message.sequence,
            created_at_unix_ms: message.created_at_unix_ms,
        };
        let name = super::file_name_for(message.sequence, message.message_id.as_str());
        let encoded_len: usize = encoded.len();
        let file = MessageFile { name, content: encoded, encoded_len, message: Ok(message) };
        assert(file_of(file, message, encoded@));
        let ghost before = self@;
        match channel::find_name(&self.pending, file.name.as_str()) {
            Some(i) => {
                proof {
                    let q = before.pending.update(i as int, file);
                    assert forall|a: int, b: int| 0 <= a < b < q.len() implies order::name_lt(
                        (#[trigger] q[a]).name@,
                        (#[trigger] q[b]).name@,
                    ) by {
                        assert(order::name_lt(before.pending[a].name@, before.pending[b].name@));
                    }
                    assert(before.pending[i as int].name@ == file.name@);
                }
                self.pending.set(i, file);
            },
            None => {
                proof {
                    channel::lemma_put_back_sorted(before, file);
                }
                let at: usize = channel::rank_of(&self.pending, file.name.as_str());
                self.pending.insert(at, file);
            },
        }
        assert(stored(before, file, self@));
        Ok(receipt)
    }
}

} // verus!
