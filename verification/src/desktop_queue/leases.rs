//! Draining, returning and acknowledging messages.

use vstd::prelude::*;
use vstd::string::*;

use super::channel::{self, Channel, LeaseDir, MessageFile, Model, ReceiptFile};
use super::{
    AckReceipt, AckResult, DrainResult, LeaseMetadata, QueueError, QueueErrorKind, QueuedMessage,
    LEASE_DURATION_MS, MAX_DRAIN_BYTES, QUEUE_SCHEMA_VERSION, RECEIPT_DURATION_MS,
};
use crate::text;

verus! {

pub open spec fn has_lease(leases: Seq<LeaseDir>, lease_id: Seq<char>) -> bool {
    exists|i: int| 0 <= i < leases.len() && (#[trigger] leases[i]).lease_id@ == lease_id
}

pub open spec fn lease_index(leases: Seq<LeaseDir>, lease_id: Seq<char>) -> int {
    choose|i: int| 0 <= i < leases.len() && (#[trigger] leases[i]).lease_id@ == lease_id
}

pub open spec fn without_lease(m: Model, i: int) -> Model {
    Model { leases: m.leases.remove(i), ..m }
}

/// Pending files that can be believed, in order; the others are set aside.
pub open spec fn sift(m: Model, files: Seq<MessageFile>, cli_id: Seq<char>) -> Model
    decreases files.len(),
{
    if files.len() == 0 {
        Model { pending: Seq::empty(), ..m }
    } else {
        let rest = sift(m, files.drop_last(), cli_id);
        if channel::valid_file(files.last(), cli_id) {
            Model { pending: rest.pending.push(files.last()), ..rest }
        } else {
            channel::quarantined(rest, files.last().name@)
        }
    }
}

/// The channel as a drain finds it: leases recovered, receipts pruned, pending
/// files sifted.
pub open spec fn settled(m: Model, cli_id: Seq<char>, now: u64) -> Model {
    channel::receipts_pruned(channel::recovered(m, cli_id, now), cli_id, now)
}

pub open spec fn drainable(m: Model, cli_id: Seq<char>, now: u64) -> Model {
    sift(settled(m, cli_id, now), settled(m, cli_id, now).pending, cli_id)
}

pub open spec fn messages_of(files: Seq<MessageFile>) -> Seq<QueuedMessage> {
    files.map_values(|f: MessageFile| f.message->Ok_0)
}

pub open spec fn encoded_size(files: Seq<MessageFile>) -> nat
    decreases files.len(),
{
    if files.len() == 0 {
        0
    } else {
        encoded_size(files.drop_last()) + files.last().encoded_len as nat
    }
}

/// `d` is the answer that hands out the first `n` of `files`.
pub open spec fn offers(
    d: DrainResult,
    files: Seq<MessageFile>,
    n: int,
    lease_id: Seq<char>,
    now: u64,
    quarantined: int,
) -> bool {
    &&& d.lease_id@ == lease_id
    &&& d.lease_expires_at_unix_ms == channel::saturating_sum(now, LEASE_DURATION_MS)
    &&& d.messages@ == messages_of(files.take(n))
    &&& d.remaining == files.len() - n
    &&& d.quarantined == quarantined
}

/// The first `n` files fit, and either one more would not or there is a reason
/// to stop.
pub open spec fn longest_fit<F: Fn(&DrainResult) -> bool>(
    fits: F,
    files: Seq<MessageFile>,
    n: int,
    limit: int,
    lease_id: Seq<char>,
    now: u64,
    quarantined: int,
) -> bool {
    &&& 0 <= n <= files.len()
    &&& n <= limit
    &&& encoded_size(files.take(n)) <= MAX_DRAIN_BYTES
    &&& forall|i: int|
        1 <= i <= n ==> #[trigger] judged(fits, files, i, lease_id, now, quarantined, true)
    &&& {
        ||| n == limit
        ||| n == files.len()
        ||| encoded_size(files.take(n + 1)) > MAX_DRAIN_BYTES
        ||| judged(fits, files, n + 1, lease_id, now, quarantined, false)
    }
}

/// The caller's limit was asked about the first `n` files and said `verdict`.
pub open spec fn judged<F: Fn(&DrainResult) -> bool>(
    fits: F,
    files: Seq<MessageFile>,
    n: int,
    lease_id: Seq<char>,
    now: u64,
    quarantined: int,
    verdict: bool,
) -> bool {
    exists|d: DrainResult|
        offers(d, files, n, lease_id, now, quarantined) && #[trigger] call_ensures(
            fits,
            (&d,),
            verdict,
        )
}

/// `l` is a fresh lease on `files`.
pub open spec fn is_lease_of(
    l: LeaseDir,
    files: Seq<MessageFile>,
    cli_id: Seq<char>,
    lease_id: Seq<char>,
    now: u64,
) -> bool {
    &&& l.lease_id@ == lease_id
    &&& l.metadata_present
    &&& l.metadata is Ok
    &&& (l.metadata->Ok_0).schema_version == QUEUE_SCHEMA_VERSION
    &&& (l.metadata->Ok_0).cli_id@ == cli_id
    &&& (l.metadata->Ok_0).lease_id@ == lease_id
    &&& (l.metadata->Ok_0).expires_at_unix_ms == channel::saturating_sum(now, LEASE_DURATION_MS)
    &&& text::views((l.metadata->Ok_0).files@) == channel::file_names(files)
    &&& l.files@ == files
}

/// `r` records that a lease on `deleted` messages was acknowledged at `now`.
pub open spec fn is_receipt_for(
    r: ReceiptFile,
    cli_id: Seq<char>,
    lease_id: Seq<char>,
    now: u64,
    deleted: int,
) -> bool {
    &&& r.lease_id@ == lease_id
    &&& r.receipt is Ok
    &&& (r.receipt->Ok_0).schema_version == QUEUE_SCHEMA_VERSION
    &&& (r.receipt->Ok_0).cli_id@ == cli_id
    &&& (r.receipt->Ok_0).lease_id@ == lease_id
    &&& (r.receipt->Ok_0).acked_at_unix_ms == now
    &&& (r.receipt->Ok_0).deleted == deleted
}

pub open spec fn refused<T>(r: Result<T, QueueError>, kind: QueueErrorKind, message: Seq<char>) -> bool {
    super::objection(r) == Some((kind, message))
}

/// What acknowledging a lease does once no receipt stands in the way.
pub open spec fn ack_lease_post(
    m: Model,
    cli_id: Seq<char>,
    lease_id: Seq<char>,
    now: u64,
    n: Model,
    r: Result<AckResult, QueueError>,
) -> bool {
    if !has_lease(m.leases, lease_id) {
        refused(r, QueueErrorKind::LeaseNotFound, "message lease was not found"@) && n == m
    } else {
        let i = lease_index(m.leases, lease_id);
        let l = m.leases[i];
        match l.metadata {
            Err(e) => refused(r, e.kind, e.message@) && n == m,
            Ok(lease) => match channel::lease_objection(l.lease_id@, lease, l.files@, cli_id) {
                Some((_, text)) => refused(
                    r,
                    QueueErrorKind::Corrupt,
                    "invalid message lease: "@ + text,
                ) && n == channel::recover_corrupt(without_lease(m, i), l, cli_id),
                None => if lease.expires_at_unix_ms <= now {
                    refused(
                        r,
                        QueueErrorKind::LeaseExpired,
                        "message lease expired and was returned to the queue"@,
                    ) && n == channel::put_back_all(without_lease(m, i), l.files@)
                } else {
                    &&& r matches Ok(ack)
                    &&& ack.lease_id@ == lease_id
                    &&& !ack.already_acked
                    &&& ack.deleted == l.files@.len()
                    &&& n.receipts.len() == m.receipts.len() + 1
                    &&& is_receipt_for(n.receipts.last(), cli_id, lease_id, now, ack.deleted as int)
                    &&& n == Model {
                        receipts: m.receipts.push(n.receipts.last()),
                        ..without_lease(m, i)
                    }
                },
            },
        }
    }
}

/// What acknowledging a lease does.
pub open spec fn ack_post(
    m: Model,
    cli_id: Seq<char>,
    lease_id: Seq<char>,
    now: u64,
    n: Model,
    r: Result<AckResult, QueueError>,
) -> bool {
    if !channel::has_receipt(m.receipts, lease_id) {
        ack_lease_post(m, cli_id, lease_id, now, n, r)
    } else {
        let i = channel::receipt_index(m.receipts, lease_id);
        match m.receipts[i].receipt {
            Err(e) => refused(
                r,
                QueueErrorKind::Corrupt,
                "invalid acknowledgment receipt: "@ + e.message@,
            ) && n == channel::without_receipt(m, i),
            Ok(receipt) => match super::receipt_objection(receipt, cli_id, lease_id) {
                Some((_, text)) => refused(
                    r,
                    QueueErrorKind::Corrupt,
                    "invalid acknowledgment receipt: "@ + text,
                ) && n == channel::without_receipt(m, i),
                None => if channel::receipt_expired(receipt.acked_at_unix_ms, now) {
                    ack_lease_post(
                        Model { receipts: m.receipts.remove(i), ..m },
                        cli_id,
                        lease_id,
                        now,
                        n,
                        r,
                    )
                } else {
                    &&& r matches Ok(ack)
                    &&& ack.lease_id@ == lease_id
                    &&& ack.already_acked
                    &&& ack.deleted == receipt.deleted
                    &&& n == m
                },
            },
        }
    }
}

/// What giving a lease back does.
pub open spec fn release_post(
    m: Model,
    cli_id: Seq<char>,
    lease_id: Seq<char>,
    n: Model,
    r: Result<(), QueueError>,
) -> bool {
    if !has_lease(m.leases, lease_id) {
        refused(r, QueueErrorKind::LeaseNotFound, "message lease was not found"@) && n == m
    } else {
        let i = lease_index(m.leases, lease_id);
        let l = m.leases[i];
        match l.metadata {
            Err(e) => refused(r, e.kind, e.message@) && n == m,
            Ok(lease) => match channel::lease_objection(l.lease_id@, lease, l.files@, cli_id) {
                Some((kind, text)) => refused(r, kind, text) && n == m,
                None => r is Ok && n == channel::put_back_all(without_lease(m, i), l.files@),
            },
        }
    }
}

fn find_lease(leases: &Vec<LeaseDir>, lease_id: &str) -> (r: Option<usize>)
    requires
        channel::distinct_leases(leases@),
    ensures
        match r {
            Some(i) => i < leases@.len() && has_lease(leases@, lease_id@) && i == lease_index(
                leases@,
                lease_id@,
            ),
            None => !has_lease(leases@, lease_id@),
        },
{
    let mut i: usize = 0;
    while i < leases.len()
        invariant
            i <= leases@.len(),
            channel::distinct_leases(leases@),
            forall|j: int| 0 <= j < i ==> (#[trigger] leases@[j]).lease_id@ != lease_id@,
        decreases leases@.len() - i,
    {
        if text::str_eq(leases[i].lease_id.as_str(), lease_id) {
            proof {
                assert(leases@[i as int].lease_id@ == lease_id@);
                let k = lease_index(leases@, lease_id@);
                assert(leases@[k].lease_id@ == lease_id@);
            }
            return Some(i);
        }
        i += 1;
    }
    None
}

fn first_messages(files: &Vec<MessageFile>, n: usize) -> (r: Vec<QueuedMessage>)
    requires
        n <= files@.len(),
        forall|i: int| 0 <= i < files@.len() ==> (#[trigger] files@[i]).message is Ok,
    ensures
        r@ == messages_of(files@.take(n as int)),
{
    let mut out: Vec<QueuedMessage> = Vec::new();
    let mut i: usize = 0;
    while i < n
        invariant
            i <= n <= files@.len(),
            forall|k: int| 0 <= k < files@.len() ==> (#[trigger] files@[k]).message is Ok,
            out@ == messages_of(files@.take(i as int)),
        decreases n - i,
    {
        if let Ok(message) = &files[i].message {
            out.push(message.clone());
        }
        i += 1;
        assert(out@ =~= messages_of(files@.take(i as int)));
    }
    out
}

fn first_names(files: &Vec<MessageFile>, n: usize) -> (r: Vec<String>)
    requires
        n <= files@.len(),
    ensures
        text::views(r@) == channel::file_names(files@.take(n as int)),
{
    let mut out: Vec<String> = Vec::new();
    let mut i: usize = 0;
    while i < n
        invariant
            i <= n <= files@.len(),
            out@.len() == i,
            forall|k: int| 0 <= k < i ==> (#[trigger] out@[k])@ == files@[k].name@,
        decreases n - i,
    {
        out.push(files[i].name.clone());
        i += 1;
    }
    assert(text::views(out@) =~= channel::file_names(files@.take(n as int)));
    out
}

/// How many of `files` one lease may hold.
pub fn select<F: Fn(&DrainResult) -> bool>(
    fits: &F,
    files: &Vec<MessageFile>,
    limit: usize,
    lease_id: &String,
    now: u64,
    quarantined: usize,
) -> (n: usize)
    requires
        forall|d: DrainResult| #[trigger] call_requires(*fits, (&d,)),
        forall|i: int| 0 <= i < files@.len() ==> (#[trigger] files@[i]).message is Ok,
    ensures
        longest_fit(*fits, files@, n as int, limit as int, lease_id@, now, quarantined as int),
{
    let expires: u64 = now.saturating_add(LEASE_DURATION_MS);
    let total: usize = files.len();
    let mut used: usize = 0;
    let mut n: usize = 0;
    assert(files@.take(0) =~= Seq::<MessageFile>::empty());
    while n < total && n < limit
        invariant
            n <= total == files@.len(),
            n <= limit,
            expires == channel::saturating_sum(now, LEASE_DURATION_MS),
            forall|d: DrainResult| #[trigger] call_requires(*fits, (&d,)),
            forall|i: int| 0 <= i < files@.len() ==> (#[trigger] files@[i]).message is Ok,
            used == encoded_size(files@.take(n as int)),
            used <= MAX_DRAIN_BYTES,
            forall|i: int|
                1 <= i <= n ==> #[trigger] judged(
                    *fits,
                    files@,
                    i,
                    lease_id@,
                    now,
                    quarantined as int,
                    true,
                ),
        decreases total - n,
    {
        assert(files@.take(n as int + 1).drop_last() =~= files@.take(n as int));
        let grown: usize = used.saturating_add(files[n].encoded_len);
        if grown > MAX_DRAIN_BYTES {
            return n;
        }
        let proposed = DrainResult {
            lease_id: lease_id.clone(),
            lease_expires_at_unix_ms: expires,
            messages: first_messages(files, n + 1),
            remaining: total - (n + 1),
            quarantined,
        };
        assert(offers(proposed, files@, n + 1, lease_id@, now, quarantined as int));
        let ok = fits(&proposed);
        assert(call_ensures(*fits, (&proposed,), ok));
        assert(judged(*fits, files@, n + 1, lease_id@, now, quarantined as int, ok));
        if !ok {
            return n;
        }
        used = grown;
        n += 1;
    }
    n
}

/// What draining does to a channel, and what it answers.
pub open spec fn drained<F: Fn(&DrainResult) -> bool>(
    m: Model,
    n: Model,
    fits: F,
    cli_id: Seq<char>,
    limit: int,
    drawn: Result<String, QueueError>,
    now: u64,
    r: Result<DrainResult, QueueError>,
) -> bool {
    let d = drainable(m, cli_id, now);
    let set_aside = settled(m, cli_id, now).pending.len() - d.pending.len();
    match drawn {
        Err(e) => r == Err::<DrainResult, QueueError>(e) && n == d,
        Ok(lease_id) => if has_lease(d.leases, lease_id@) {
            refused(r, QueueErrorKind::Io, "desktop message lease already exists"@) && n == d
        } else {
            &&& r matches Ok(drain)
            &&& ({
                let k = drain.messages@.len() as int;
                &&& longest_fit(fits, d.pending, k, limit, lease_id@, now, set_aside)
                &&& offers(drain, d.pending, k, lease_id@, now, set_aside)
                &&& n.leases.len() == d.leases.len() + 1
                &&& is_lease_of(n.leases.last(), d.pending.take(k), cli_id, lease_id@, now)
                &&& n == Model {
                    pending: d.pending.skip(k),
                    leases: d.leases.push(n.leases.last()),
                    ..d
                }
            })
        },
    }
}

impl Channel {
    /// Takes back what was leased and never acknowledged in time, finishes what
    /// was acknowledged, and takes apart leases that cannot be believed.
    pub fn recover_expired_leases(&mut self, cli_id: &str, now: u64)
        requires
            channel::well_formed(old(self)@),
        ensures
            final(self)@ == channel::recovered(old(self)@, cli_id@, now),
            channel::well_formed(final(self)@),
            final(self).tmp == old(self).tmp,
    {
        let mut rest: Vec<LeaseDir> = Vec::new();
        let ghost tmp = self.tmp;
        std::mem::swap(&mut rest, &mut self.leases);
        let ghost all = rest@;
        let ghost start = self@;
        assert(start == Model { leases: Seq::empty(), ..old(self)@ });
        let total: usize = rest.len();
        let mut n: usize = 0;
        assert(all.take(0) =~= Seq::<LeaseDir>::empty());
        while n < total
            invariant
                n <= total == all.len(),
                rest@ == all.skip(n as int),
                channel::distinct_leases(all),
                forall|i: int| 0 <= i < all.len() ==> channel::sorted((#[trigger] all[i]).files@),
                channel::well_formed(self@),
                forall|i: int, j: int|
                    0 <= i < self.leases@.len() && n <= j < all.len() ==> (
                    #[trigger] self.leases@[i]).lease_id@ != (#[trigger] all[j]).lease_id@,
                self@ == channel::recover_leases(start, all.take(n as int), cli_id@, now),
                self.tmp == tmp,
            decreases total - n,
        {
            let l = rest.remove(0);
            proof {
                assert(l == all[n as int]);
                assert(rest@ =~= all.skip(n as int + 1));
                assert(all.take(n as int + 1).drop_last() =~= all.take(n as int));
                assert(all.take(n as int + 1).last() == l);
            }
            self.recover_lease(l, cli_id, now);
            n += 1;
        }
        assert(all.take(total as int) =~= all);
    }

    fn recover_lease(&mut self, l: LeaseDir, cli_id: &str, now: u64)
        requires
            channel::well_formed(old(self)@),
            channel::sorted(l.files@),
            forall|i: int|
                0 <= i < old(self)@.leases.len() ==> (#[trigger] old(self)@.leases[i]).lease_id@
                    != l.lease_id@,
        ensures
            final(self)@ == channel::recover_step(old(self)@, l, cli_id@, now),
            channel::well_formed(final(self)@),
            final(self)@.leases == old(self)@.leases || final(self)@.leases
                == old(self)@.leases.push(l),
            final(self).tmp == old(self).tmp,
    {
        if !channel::lease_is_valid(&l, cli_id) {
            self.recover_corrupt_lease(l, cli_id);
            return;
        }
        match channel::find_receipt(&self.receipts, l.lease_id.as_str()) {
            Some(i) => {
                let believed = match &self.receipts[i].receipt {
                    Ok(receipt) => super::validate_receipt(
                        receipt,
                        cli_id,
                        l.lease_id.as_str(),
                    ).is_ok(),
                    Err(_) => false,
                };
                if believed {
                    return;
                }
                self.drop_receipt(i);
            },
            None => {},
        }
        let expired = match &l.metadata {
            Ok(lease) => lease.expires_at_unix_ms <= now,
            Err(_) => false,
        };
        if expired {
            self.requeue_files(l.files);
        } else {
            self.leases.push(l);
        }
    }

    fn drop_receipt(&mut self, i: usize)
        requires
            channel::well_formed(old(self)@),
            i < old(self)@.receipts.len(),
        ensures
            final(self)@ == channel::without_receipt(old(self)@, i as int),
            channel::well_formed(final(self)@),
            final(self).tmp == old(self).tmp,
    {
        let r = self.receipts.remove(i);
        self.set_aside(channel::append_json(r.lease_id.as_str()));
    }

    /// Drops receipts that ran out.
    pub fn prune_receipts(&mut self, cli_id: &str, now: u64)
        requires
            channel::well_formed(old(self)@),
        ensures
            final(self)@ == channel::receipts_pruned(old(self)@, cli_id@, now),
            channel::well_formed(final(self)@),
            final(self).tmp == old(self).tmp,
    {
        let mut rest: Vec<ReceiptFile> = Vec::new();
        let ghost tmp = self.tmp;
        std::mem::swap(&mut rest, &mut self.receipts);
        let ghost all = rest@;
        let ghost start = self@;
        assert(start == Model { receipts: Seq::empty(), ..old(self)@ });
        let total: usize = rest.len();
        let mut n: usize = 0;
        assert(all.take(0) =~= Seq::<ReceiptFile>::empty());
        while n < total
            invariant
                n <= total == all.len(),
                rest@ == all.skip(n as int),
                channel::distinct_receipts(all),
                channel::well_formed(self@),
                forall|i: int, j: int|
                    0 <= i < self.receipts@.len() && n <= j < all.len() ==> (
                    #[trigger] self.receipts@[i]).lease_id@ != (#[trigger] all[j]).lease_id@,
                self@ == channel::prune_receipts_of(start, all.take(n as int), cli_id@, now),
                self.tmp == tmp,
            decreases total - n,
        {
            let r = rest.remove(0);
            proof {
                assert(r == all[n as int]);
                assert(rest@ =~= all.skip(n as int + 1));
                assert(all.take(n as int + 1).drop_last() =~= all.take(n as int));
                assert(all.take(n as int + 1).last() == r);
            }
            let believed = match &r.receipt {
                Ok(receipt) => super::validate_receipt_file(
                    r.lease_id.as_str(),
                    receipt,
                    cli_id,
                ).is_ok(),
                Err(_) => false,
            };
            if believed {
                let expired = match &r.receipt {
                    Ok(receipt) => receipt.acked_at_unix_ms.saturating_add(RECEIPT_DURATION_MS)
                        <= now,
                    Err(_) => false,
                };
                if !expired {
                    self.receipts.push(r);
                }
            } else {
                self.set_aside(channel::append_json(r.lease_id.as_str()));
            }
            n += 1;
        }
        assert(all.take(total as int) =~= all);
    }

    fn sift_pending(&mut self, cli_id: &str) -> (quarantined: usize)
        requires
            channel::well_formed(old(self)@),
        ensures
            final(self)@ == sift(old(self)@, old(self)@.pending, cli_id@),
            channel::well_formed(final(self)@),
            quarantined == old(self)@.pending.len() - final(self)@.pending.len(),
            forall|i: int|
                0 <= i < final(self)@.pending.len() ==> channel::valid_file(
                    #[trigger] final(self)@.pending[i],
                    cli_id@,
                ),
            final(self).tmp == old(self).tmp,
    {
        let mut rest: Vec<MessageFile> = Vec::new();
        let ghost tmp = self.tmp;
        std::mem::swap(&mut rest, &mut self.pending);
        let ghost all = rest@;
        let total: usize = rest.len();
        let mut n: usize = 0;
        let mut quarantined: usize = 0;
        assert(all.take(0) =~= Seq::<MessageFile>::empty());
        while n < total
            invariant
                n <= total == all.len(),
                rest@ == all.skip(n as int),
                channel::sorted(all),
                channel::well_formed(self@),
                forall|i: int, j: int|
                    0 <= i < self.pending@.len() && n <= j < all.len()
                        ==> super::order::name_lt(
                        (#[trigger] self.pending@[i]).name@,
                        (#[trigger] all[j]).name@,
                    ),
                forall|i: int|
                    0 <= i < self.pending@.len() ==> channel::valid_file(
                        #[trigger] self.pending@[i],
                        cli_id@,
                    ),
                quarantined == n - self.pending@.len(),
                self@ == sift(old(self)@, all.take(n as int), cli_id@),
                self.tmp == tmp,
            decreases total - n,
        {
            let f = rest.remove(0);
            proof {
                assert(f == all[n as int]);
                assert(rest@ =~= all.skip(n as int + 1));
                assert(all.take(n as int + 1).drop_last() =~= all.take(n as int));
                assert(all.take(n as int + 1).last() == f);
            }
            if channel::file_is_valid(&f, cli_id) {
                self.pending.push(f);
            } else {
                self.set_aside(f.name);
                quarantined += 1;
            }
            n += 1;
        }
        assert(all.take(total as int) =~= all);
        quarantined
    }

    /// Hands out pending messages, oldest first, under a new lease.
    pub fn lease_pending<F: Fn(&DrainResult) -> bool>(
        &mut self,
        cli_id: &str,
        limit: usize,
        fits: F,
        drawn: Result<String, QueueError>,
        now: u64,
    ) -> (r: Result<DrainResult, QueueError>)
        requires
            channel::well_formed(old(self)@),
            forall|d: DrainResult| #[trigger] call_requires(fits, (&d,)),
        ensures
            channel::well_formed(final(self)@),
            final(self).tmp == old(self).tmp,
            drained(old(self)@, final(self)@, fits, cli_id@, limit as int, drawn, now, r),
    {
        self.recover_expired_leases(cli_id, now);
        self.prune_receipts(cli_id, now);
        let quarantined: usize = self.sift_pending(cli_id);
        let ghost d = self@;
        let lease_id = match drawn {
            Ok(id) => id,
            Err(e) => return Err(e),
        };
        match find_lease(&self.leases, lease_id.as_str()) {
            Some(_) => return Err(
                QueueError::new(QueueErrorKind::Io, "desktop message lease already exists"),
            ),
            None => {},
        }
        let n: usize = select(&fits, &self.pending, limit, &lease_id, now, quarantined);
        let messages = first_messages(&self.pending, n);
        let names = first_names(&self.pending, n);
        let rest = self.pending.split_off(n);
        let mut files: Vec<MessageFile> = Vec::new();
        std::mem::swap(&mut files, &mut self.pending);
        self.pending = rest;
        let remaining: usize = self.pending.len();
        let expires: u64 = now.saturating_add(LEASE_DURATION_MS);
        proof {
            assert(files@ =~= d.pending.take(n as int));
            assert(self.pending@ =~= d.pending.skip(n as int));
        }
        self.leases.push(
            LeaseDir {
                lease_id: lease_id.clone(),
                metadata_present: true,
                metadata: Ok(
                    LeaseMetadata {
                        schema_version: QUEUE_SCHEMA_VERSION,
                        cli_id: cli_id.to_string(),
                        lease_id: lease_id.clone(),
                        expires_at_unix_ms: expires,
                        files: names,
                    },
                ),
                files,
            },
        );
        let drain = DrainResult {
            lease_id,
            lease_expires_at_unix_ms: expires,
            messages,
            remaining,
            quarantined,
        };
        assert(drain.messages@.len() == n);
        Ok(drain)
    }

    /// Gives a lease back: its messages are pending again.
    pub fn release_lease(&mut self, cli_id: &str, lease_id: &str) -> (r: Result<(), QueueError>)
        requires
            channel::well_formed(old(self)@),
        ensures
            release_post(old(self)@, cli_id@, lease_id@, final(self)@, r),
            channel::well_formed(final(self)@),
            final(self).tmp == old(self).tmp,
    {
        let i: usize = match find_lease(&self.leases, lease_id) {
            Some(i) => i,
            None => return Err(
                QueueError::new(QueueErrorKind::LeaseNotFound, "message lease was not found"),
            ),
        };
        match &self.leases[i].metadata {
            Err(e) => return Err(e.clone()),
            Ok(lease) => match channel::validate_lease(
                self.leases[i].lease_id.as_str(),
                lease,
                &self.leases[i].files,
                cli_id,
            ) {
                Ok(()) => {},
                Err(e) => return Err(e),
            },
        }
        let l = self.leases.remove(i);
        self.requeue_files(l.files);
        Ok(())
    }

    /// Acknowledges a lease: its messages are gone for good.
    pub fn ack_lease(&mut self, cli_id: &str, lease_id: &str, now: u64) -> (r: Result<
        AckResult,
        QueueError,
    >)
        requires
            channel::well_formed(old(self)@),
        ensures
            ack_post(old(self)@, cli_id@, lease_id@, now, final(self)@, r),
            channel::well_formed(final(self)@),
            final(self).tmp == old(self).tmp,
    {
        match channel::find_receipt(&self.receipts, lease_id) {
            Some(i) => {
                let refusal = match &self.receipts[i].receipt {
                    Err(e) => Some(e.clone()),
                    Ok(receipt) => match super::validate_receipt(receipt, cli_id, lease_id) {
                        Err(e) => Some(e),
                        Ok(()) => {
                            if receipt.acked_at_unix_ms.saturating_add(RECEIPT_DURATION_MS) > now {
                                return Ok(
                                    AckResult {
                                        lease_id: lease_id.to_string(),
                                        already_acked: true,
                                        deleted: receipt.deleted,
                                    },
                                );
                            }
                            None
                        },
                    },
                };
                match refusal {
                    Some(e) => {
                        self.drop_receipt(i);
                        let mut message = "invalid acknowledgment receipt: ".to_string();
                        message.append(e.message.as_str());
                        return Err(QueueError { kind: QueueErrorKind::Corrupt, message });
                    },
                    None => {
                        self.receipts.remove(i);
                    },
                }
            },
            None => {},
        }
        assert(!channel::has_receipt(self@.receipts, lease_id@));
        self.ack_unreceipted(cli_id, lease_id, now)
    }

    fn ack_unreceipted(&mut self, cli_id: &str, lease_id: &str, now: u64) -> (r: Result<
        AckResult,
        QueueError,
    >)
        requires
            channel::well_formed(old(self)@),
            !channel::has_receipt(old(self)@.receipts, lease_id@),
        ensures
            ack_lease_post(old(self)@, cli_id@, lease_id@, now, final(self)@, r),
            channel::well_formed(final(self)@),
            final(self).tmp == old(self).tmp,
    {
        let i: usize = match find_lease(&self.leases, lease_id) {
            Some(i) => i,
            None => return Err(
                QueueError::new(QueueErrorKind::LeaseNotFound, "message lease was not found"),
            ),
        };
        let mut expired = false;
        let objection = match &self.leases[i].metadata {
            Err(e) => return Err(e.clone()),
            Ok(lease) => {
                expired = lease.expires_at_unix_ms <= now;
                channel::validate_lease(
                    self.leases[i].lease_id.as_str(),
                    lease,
                    &self.leases[i].files,
                    cli_id,
                )
            },
        };
        let l = self.leases.remove(i);
        match objection {
            Err(e) => {
                self.recover_corrupt_lease(l, cli_id);
                let mut message = "invalid message lease: ".to_string();
                message.append(e.message.as_str());
                return Err(QueueError { kind: QueueErrorKind::Corrupt, message });
            },
            Ok(()) => {},
        }
        if expired {
            self.requeue_files(l.files);
            return Err(
                QueueError::new(
                    QueueErrorKind::LeaseExpired,
                    "message lease expired and was returned to the queue",
                ),
            );
        }
        let deleted: usize = l.files.len();
        self.receipts.push(
            ReceiptFile {
                lease_id: lease_id.to_string(),
                receipt: Ok(
                    AckReceipt {
                        schema_version: QUEUE_SCHEMA_VERSION,
                        cli_id: cli_id.to_string(),
                        lease_id: lease_id.to_string(),
                        acked_at_unix_ms: now,
                        deleted,
                    },
                ),
            },
        );
        Ok(AckResult { lease_id: lease_id.to_string(), already_acked: false, deleted })
    }
}

} // verus!
