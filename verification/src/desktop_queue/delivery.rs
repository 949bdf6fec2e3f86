//! What becomes of a message between its sender and whoever drains the channel.

use vstd::prelude::*;
use vstd::string::*;

use super::channel::{self, LeaseDir, MessageFile, Model};
use super::enqueue;
use super::laws;
use super::leases;
use super::manager::{self, Spool};
use super::order;
use super::settled;
use super::{
    ChannelMetadata, CliState, DrainResult, EnqueueReceipt, QueueError, QueueErrorKind,
    QueuedMessage,
};
use crate::text;

verus! {

// ---------------------------------------------------------------------------
// What arrives

/// The message says what its sender gave: of that kind, about that correlation id, in
/// those words.
pub open spec fn says(
    message: QueuedMessage,
    kind: Seq<char>,
    correlation_id: Option<Seq<char>>,
    words: Seq<char>,
) -> bool {
    &&& message.kind@ == kind
    &&& text::opt_view(message.correlation_id) == correlation_id
    &&& message.text@ == words
}

/// A message was accepted into a channel: begun under the identifier `id`, and stored.
pub open spec fn accepted(
    m: Model,
    metadata: ChannelMetadata,
    cli_id: Seq<char>,
    kind: Seq<char>,
    correlation_id: Option<String>,
    words: Seq<char>,
    id: String,
    now: u64,
    between: Model,
    message: QueuedMessage,
    encoded: Seq<u8>,
    n: Model,
    after: ChannelMetadata,
    receipt: EnqueueReceipt,
) -> bool {
    &&& super::message_objection(kind, text::opt_view(correlation_id), words) is None
    &&& super::valid_id(id@)
    &&& enqueue::begun(
        m,
        metadata,
        cli_id,
        kind,
        correlation_id,
        words,
        Ok(id),
        now,
        between,
        Ok(message),
    )
    &&& enqueue::finished(between, metadata, message, encoded, n, after, Ok(receipt))
}

proof fn lemma_stored_is_pending(m: Model, f: MessageFile, n: Model)
    requires
        enqueue::stored(m, f, n),
    ensures
        n.pending.contains(f),
{
    if channel::has_name(m.pending, f.name@) {
        let i = choose|i: int|
            0 <= i < m.pending.len() && m.pending[i].name@ == f.name@ && n == (Model {
                pending: #[trigger] m.pending.update(i, f),
                ..m
            });
        assert(n.pending[i] == f);
    } else {
        laws::lemma_rank_range(m.pending, f.name@);
        assert(n.pending[channel::rank(m.pending, f.name@)] == f);
    }
}

/// A message that is accepted is answered with its own identifier and the next number,
/// and the channel counts on. It is pending, as its sender gave it.
pub proof fn lemma_accepted_messages_are_pending(
    m: Model,
    metadata: ChannelMetadata,
    cli_id: Seq<char>,
    kind: Seq<char>,
    correlation_id: Option<String>,
    words: Seq<char>,
    id: String,
    now: u64,
    between: Model,
    message: QueuedMessage,
    encoded: Seq<u8>,
    n: Model,
    after: ChannelMetadata,
    receipt: EnqueueReceipt,
) -> (f: MessageFile)
    requires
        accepted(
            m,
            metadata,
            cli_id,
            kind,
            correlation_id,
            words,
            id,
            now,
            between,
            message,
            encoded,
            n,
            after,
            receipt,
        ),
    ensures
        n.pending.contains(f),
        channel::valid_file(f, cli_id),
        f.content@ == encoded,
        f.message matches Ok(kept) && kept == message && says(
            kept,
            kind,
            text::opt_view(correlation_id),
            words,
        ) && kept.message_id@ == id@ && kept.sequence == metadata.next_sequence && kept.cli_id@
            == cli_id && kept.created_at_unix_ms == now,
        receipt.message_id@ == id@,
        receipt.sequence == metadata.next_sequence,
        receipt.cli_id@ == cli_id,
        receipt.created_at_unix_ms == now,
        after.next_sequence == metadata.next_sequence + 1,
        after.updated_at_unix_ms == now,
        after.cli_id == metadata.cli_id,
        after.state == metadata.state,
        metadata.cli_id@ == cli_id,
        metadata.state != CliState::Closed,
{
    let f = choose|f: MessageFile|
        #[trigger] enqueue::file_of(f, message, encoded) && enqueue::stored(between, f, n);
    lemma_stored_is_pending(between, f, n);
    f
}

proof fn lemma_drained_at(
    m: Model,
    n: Model,
    cli_id: Seq<char>,
    now: u64,
    drain: DrainResult,
    i: int,
)
    requires
        drain.messages@ == leases::messages_of(
            leases::drainable(m, cli_id, now).pending.take(drain.messages@.len() as int),
        ),
        drain.messages@.len() <= leases::drainable(m, cli_id, now).pending.len(),
        0 <= i < drain.messages@.len(),
    ensures
        drain.messages@[i] == leases::drainable(m, cli_id, now).pending[i].message->Ok_0,
{
    let k = drain.messages@.len() as int;
    let files = leases::drainable(m, cli_id, now).pending.take(k);
    assert(leases::messages_of(files)[i] == files[i].message->Ok_0);
}

/// A message that was accepted is handed out by the drain that follows as its sender gave
/// it: with the same kind, correlation id and text. Or the drain does not come to it, and
/// it is pending still, unchanged.
pub proof fn lemma_messages_arrive_as_they_were_sent<F: Fn(&DrainResult) -> bool>(
    m: Model,
    metadata: ChannelMetadata,
    cli_id: Seq<char>,
    kind: Seq<char>,
    correlation_id: Option<String>,
    words: Seq<char>,
    id: String,
    now: u64,
    between: Model,
    message: QueuedMessage,
    encoded: Seq<u8>,
    n: Model,
    after: ChannelMetadata,
    receipt: EnqueueReceipt,
    fits: F,
    limit: int,
    lease_id: String,
    later: u64,
    left: Model,
    drain: DrainResult,
)
    requires
        accepted(
            m,
            metadata,
            cli_id,
            kind,
            correlation_id,
            words,
            id,
            now,
            between,
            message,
            encoded,
            n,
            after,
            receipt,
        ),
        channel::well_formed(n),
        leases::drained(n, left, fits, cli_id, limit, Ok(lease_id), later, Ok(drain)),
    ensures
        (exists|i: int|
            0 <= i < drain.messages@.len() && (#[trigger] drain.messages@[i]).message_id@ == id@
                && says(drain.messages@[i], kind, text::opt_view(correlation_id), words)) || (
        exists|i: int|
            0 <= i < left.pending.len() && ((#[trigger] left.pending[i]).message matches Ok(kept)
                && kept.message_id@ == id@ && says(
                kept,
                kind,
                text::opt_view(correlation_id),
                words,
            ))),
        forall|i: int|
            0 <= i < drain.messages@.len() && (#[trigger] drain.messages@[i]).message_id@ == id@
                && drain.messages@[i].sequence == receipt.sequence ==> says(
                drain.messages@[i],
                kind,
                text::opt_view(correlation_id),
                words,
            ),
{
    let f = lemma_accepted_messages_are_pending(
        m,
        metadata,
        cli_id,
        kind,
        correlation_id,
        words,
        id,
        now,
        between,
        message,
        encoded,
        n,
        after,
        receipt,
    );
    settled::lemma_pending_is_drainable(n, cli_id, later, f);
    laws::lemma_drainable_is_sound(n, cli_id, later);
    let d = leases::drainable(n, cli_id, later).pending;
    let k = drain.messages@.len() as int;
    let p = d.index_of(f);
    if p < k {
        lemma_drained_at(n, left, cli_id, later, drain, p);
    } else {
        assert(left.pending[p - k] == f);
    }
    assert forall|i: int|
        0 <= i < drain.messages@.len() && (#[trigger] drain.messages@[i]).message_id@ == id@
            && drain.messages@[i].sequence == receipt.sequence implies says(
        drain.messages@[i],
        kind,
        text::opt_view(correlation_id),
        words,
    ) by {
        lemma_drained_at(n, left, cli_id, later, drain, i);
        assert(channel::valid_file(d[i], cli_id));
        assert(channel::valid_file(d[p], cli_id));
        assert(d[i].name@ == d[p].name@);
        order::lemma_name_lt_irreflexive(f.name@);
        assert(i == p);
    }
}

/// The one message of a channel is handed out by the first drain that has room for it,
/// as its sender gave it, for ten minutes.
pub proof fn lemma_the_only_message_is_handed_out<F: Fn(&DrainResult) -> bool>(
    m: Model,
    metadata: ChannelMetadata,
    cli_id: Seq<char>,
    kind: Seq<char>,
    correlation_id: Option<String>,
    words: Seq<char>,
    id: String,
    now: u64,
    between: Model,
    message: QueuedMessage,
    encoded: Seq<u8>,
    n: Model,
    after: ChannelMetadata,
    receipt: EnqueueReceipt,
    fits: F,
    limit: int,
    lease_id: String,
    later: u64,
    left: Model,
    drain: DrainResult,
)
    requires
        accepted(
            m,
            metadata,
            cli_id,
            kind,
            correlation_id,
            words,
            id,
            now,
            between,
            message,
            encoded,
            n,
            after,
            receipt,
        ),
        n.pending.len() == 1,
        n.leases.len() == 0,
        channel::well_formed(n),
        encoded.len() <= 1_048_576,
        limit >= 1,
        later + 600_000 <= u64::MAX,
        forall|d: DrainResult| !#[trigger] call_ensures(fits, (&d,), false),
        leases::drained(n, left, fits, cli_id, limit, Ok(lease_id), later, Ok(drain)),
    ensures
        drain.messages@.len() == 1,
        says(drain.messages@[0], kind, text::opt_view(correlation_id), words),
        drain.messages@[0].message_id@ == id@,
        drain.messages@[0].sequence == metadata.next_sequence,
        drain.messages@[0].cli_id@ == cli_id,
        drain.remaining == 0,
        drain.quarantined == 0,
        drain.lease_id@ == lease_id@,
        drain.lease_expires_at_unix_ms == later + 600_000,
        left.pending.len() == 0,
        left.leases.len() == 1,
        left.leases[0].lease_id@ == lease_id@,
        left.leases[0].files@ == n.pending,
{
    let f = choose|f: MessageFile|
        #[trigger] enqueue::file_of(f, message, encoded) && enqueue::stored(between, f, n);
    lemma_stored_is_pending(between, f, n);
    assert(n.pending[0] == f);
    assert(n.pending =~= seq![f]);
    assert(channel::valid_file(f, cli_id));
    let settled = leases::settled(n, cli_id, later);
    let recovered = channel::recovered(n, cli_id, later);
    assert(recovered == n) by {
        assert(n.leases =~= Seq::<LeaseDir>::empty());
    }
    laws::lemma_receipts_leave_pending(
        Model { receipts: Seq::empty(), ..recovered },
        recovered.receipts,
        cli_id,
        later,
    );
    settled::lemma_receipts_leave_leases(
        Model { receipts: Seq::empty(), ..recovered },
        recovered.receipts,
        cli_id,
        later,
    );
    assert(settled.pending == n.pending);
    assert(settled.leases == n.leases);
    let d = leases::drainable(n, cli_id, later);
    reveal_with_fuel(leases::sift, 2);
    assert(settled.pending.drop_last() =~= Seq::<MessageFile>::empty());
    assert(d.pending =~= seq![f]);
    assert(d.leases == n.leases);
    let k = drain.messages@.len() as int;
    assert(k <= 1);
    if k == 0 {
        assert(d.pending.take(1) =~= seq![f]);
        assert(d.pending.take(1).drop_last() =~= Seq::<MessageFile>::empty());
        reveal_with_fuel(leases::encoded_size, 2);
        assert(leases::encoded_size(d.pending.take(1)) == encoded.len());
        assert(false);
    }
    lemma_drained_at(n, left, cli_id, later, drain, 0);
    assert(d.pending.take(1) =~= n.pending);
}

// ---------------------------------------------------------------------------
// What is refused

/// A CLI is refused exactly where its channel is another's, is of another version, or is
/// closed; nothing changes then. Else its message is begun under the identifier that was
/// drawn, unless none could be drawn.
pub proof fn lemma_channels_take_messages_of_their_own_cli(
    m: Model,
    metadata: ChannelMetadata,
    cli_id: Seq<char>,
    kind: Seq<char>,
    correlation_id: Option<String>,
    words: Seq<char>,
    drawn: Result<String, QueueError>,
    now: u64,
    n: Model,
    r: Result<QueuedMessage, QueueError>,
)
    requires
        enqueue::begun(m, metadata, cli_id, kind, correlation_id, words, drawn, now, n, r),
        drawn is Ok,
    ensures
        r is Ok <==> metadata.schema_version == 1 && metadata.cli_id@ == cli_id && metadata.state
            != CliState::Closed,
        r is Err ==> n == m,
        r matches Err(e) ==> e.kind == QueueErrorKind::PermissionDenied || e.kind
            == QueueErrorKind::Closed,
        r matches Err(e) ==> (e.kind == QueueErrorKind::Closed <==> metadata.schema_version == 1
            && metadata.cli_id@ == cli_id),
        r matches Ok(message) ==> says(message, kind, text::opt_view(correlation_id), words),
{
}

/// A message is stored exactly while the channel holds fewer than a thousand and there is
/// room for its bytes in eight mebibytes, and while there is a number left. One that is not
/// stored leaves the channel and its record as they were.
pub proof fn lemma_channels_refuse_only_beyond_their_quota(
    m: Model,
    before: ChannelMetadata,
    message: QueuedMessage,
    encoded: Seq<u8>,
    n: Model,
    after: ChannelMetadata,
    r: Result<EnqueueReceipt, QueueError>,
)
    requires
        enqueue::finished(m, before, message, encoded, n, after, r),
    ensures
        r is Ok <==> enqueue::message_count(m) < 1000 && enqueue::message_bytes(m) + encoded.len()
            <= 8_388_608 && before.next_sequence < u64::MAX,
        r is Err ==> n == m && after == before,
        r matches Err(e) ==> e.kind == QueueErrorKind::Full,
        r is Ok ==> n.leases == m.leases && n.receipts == m.receipts && n.quarantine
            == m.quarantine,
{
}

proof fn lemma_contents_of_parts(files: Seq<MessageFile>, k: int)
    requires
        0 <= k <= files.len(),
    ensures
        enqueue::contents_size(files) == enqueue::contents_size(files.take(k))
            + enqueue::contents_size(files.skip(k)),
    decreases files.len() - k,
{
    if k == files.len() {
        assert(files.take(k) =~= files);
        assert(files.skip(k).len() == 0);
    } else {
        lemma_contents_of_parts(files, k + 1);
        assert(files.take(k + 1).drop_last() =~= files.take(k));
        lemma_contents_front(files.skip(k));
        assert(files.skip(k).skip(1) =~= files.skip(k + 1));
    }
}

proof fn lemma_contents_front(files: Seq<MessageFile>)
    requires
        files.len() > 0,
    ensures
        enqueue::contents_size(files) == files[0].content@.len() + enqueue::contents_size(
            files.skip(1),
        ),
    decreases files.len(),
{
    if files.len() == 1 {
        assert(enqueue::contents_size(files.drop_last()) == 0);
        assert(enqueue::contents_size(files.skip(1)) == 0);
    } else {
        lemma_contents_front(files.drop_last());
        assert(files.skip(1).last() == files.last());
        assert(files.drop_last().skip(1) =~= files.skip(1).drop_last());
    }
}

/// What is handed out still counts against the quota: a drain changes neither how many
/// messages the channel holds nor how many bytes they take up.
pub proof fn lemma_drained_messages_still_count<F: Fn(&DrainResult) -> bool>(
    m: Model,
    n: Model,
    fits: F,
    cli_id: Seq<char>,
    limit: int,
    lease_id: String,
    now: u64,
    drain: DrainResult,
)
    requires
        leases::drained(m, n, fits, cli_id, limit, Ok(lease_id), now, Ok(drain)),
    ensures
        enqueue::message_count(n) == enqueue::message_count(leases::drainable(m, cli_id, now)),
        enqueue::message_bytes(n) == enqueue::message_bytes(leases::drainable(m, cli_id, now)),
        drain.messages@.len() + drain.remaining == leases::drainable(
            m,
            cli_id,
            now,
        ).pending.len(),
        drain.messages@.len() <= limit,
{
    let d = leases::drainable(m, cli_id, now);
    let k = drain.messages@.len() as int;
    assert(n.leases.drop_last() =~= d.leases);
    lemma_contents_of_parts(d.pending, k);
}

// ---------------------------------------------------------------------------
// Whose channel

/// A drain is of one CLI: it takes messages from the channel that this CLI is registered
/// with, and leaves every other channel, and the registry, as they were. It hands out
/// between one and a hundred of them, or is refused.
pub proof fn lemma_drains_touch_the_registered_channel<F: Fn(&DrainResult) -> bool>(
    s: Spool,
    fits: F,
    cli_id: Seq<char>,
    limit: int,
    drawn: Result<String, QueueError>,
    now: u64,
    t: Spool,
    r: Result<DrainResult, QueueError>,
    j: int,
)
    requires
        manager::well_formed(s),
        manager::drain_post(s, fits, cli_id, limit, drawn, now, t, r),
        0 <= j < s.channels.len(),
        limit >= 0,
    ensures
        t.index == s.index && t.session == s.session && t.root == s.root,
        t.channels.len() == s.channels.len(),
        t.channels[j].dir == s.channels[j].dir && t.channels[j].metadata == s.channels[j].metadata,
        (forall|i: int|
            0 <= i < s.index.len() && (#[trigger] s.index[i]).cli_id@ == cli_id ==> (
            s.index[i].entry matches Ok(entry) ==> entry.channel_dir@ != s.channels[j].dir@))
            ==> t.channels[j] == s.channels[j],
        r is Ok ==> 1 <= limit <= 100 && super::valid_id(cli_id) && (exists|i: int, k: int|
            0 <= i < s.index.len() && (#[trigger] s.index[i]).cli_id@ == cli_id && (
            s.index[i].entry matches Ok(entry) && 0 <= k < s.channels.len() && (
            #[trigger] s.channels[k]).dir@ == entry.channel_dir@ && leases::drained(
                s.channels[k].channel@,
                t.channels[k].channel@,
                fits,
                cli_id,
                limit,
                drawn,
                now,
                r,
            ))),
        r matches Ok(drain) ==> drain.messages@.len() <= 100,
{
    let i = manager::index_at(s.index, cli_id);
    let k = manager::channel_of(s, cli_id);
    if super::valid_id(cli_id) && 1 <= limit <= 100 && manager::channel_objection(s, cli_id)
        is None {
        assert(manager::has_index(s.index, cli_id));
        assert(s.index[i].cli_id@ == cli_id);
        assert(s.index[i].entry is Ok);
        assert(manager::has_dir(s.channels, (s.index[i].entry->Ok_0).channel_dir@));
        assert(s.channels[k].dir@ == (s.index[i].entry->Ok_0).channel_dir@);
    }
}

} // verus!
