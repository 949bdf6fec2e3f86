//! The contents of one channel directory and what the queue does to them.

use vstd::prelude::*;
use vstd::string::*;

use super::order;
use super::{
    AckReceipt, LeaseMetadata, Objection, QueueError, QueueErrorKind, QueuedMessage,
    QUEUE_SCHEMA_VERSION, RECEIPT_DURATION_MS, STALE_RECORD_DURATION_MS,
};
use crate::text;

verus! {

/// A message file: its name, its bytes, and what the bytes decode to.
pub struct MessageFile {
    pub name: String,
    pub content: Vec<u8>,
    /// Length of the message's encoding when it is written anew.
    pub encoded_len: usize,
    pub message: Result<QueuedMessage, QueueError>,
}

/// A lease directory: message files handed out under one lease.
pub struct LeaseDir {
    pub lease_id: String,
    pub metadata_present: bool,
    pub metadata: Result<LeaseMetadata, QueueError>,
    pub files: Vec<MessageFile>,
}

/// A receipt file, named after the lease it acknowledges.
pub struct ReceiptFile {
    pub lease_id: String,
    pub receipt: Result<AckReceipt, QueueError>,
}

pub struct TempFile {
    pub name: String,
    pub modified_ms: u64,
}

/// The contents of a channel directory.
pub struct Channel {
    pub pending: Vec<MessageFile>,
    pub leases: Vec<LeaseDir>,
    pub receipts: Vec<ReceiptFile>,
    pub tmp: Vec<TempFile>,
    pub quarantine: Vec<String>,
}

/// What the queue rules speak of: the files by directory, the quarantine as
/// the names that went into it.
pub struct Model {
    pub pending: Seq<MessageFile>,
    pub leases: Seq<LeaseDir>,
    pub receipts: Seq<ReceiptFile>,
    pub quarantine: Seq<Seq<char>>,
}

impl View for Channel {
    type V = Model;

    open spec fn view(&self) -> Model {
        Model {
            pending: self.pending@,
            leases: self.leases@,
            receipts: self.receipts@,
            quarantine: text::views(self.quarantine@),
        }
    }
}

pub open spec fn sorted(files: Seq<MessageFile>) -> bool {
    forall|i: int, j: int|
        0 <= i < j < files.len() ==> order::name_lt(
            (#[trigger] files[i]).name@,
            (#[trigger] files[j]).name@,
        )
}

pub open spec fn distinct_leases(leases: Seq<LeaseDir>) -> bool {
    forall|i: int, j: int|
        0 <= i < j < leases.len() ==> (#[trigger] leases[i]).lease_id@ != (
        #[trigger] leases[j]).lease_id@
}

pub open spec fn distinct_receipts(receipts: Seq<ReceiptFile>) -> bool {
    forall|i: int, j: int|
        0 <= i < j < receipts.len() ==> (#[trigger] receipts[i]).lease_id@ != (
        #[trigger] receipts[j]).lease_id@
}

/// What a directory listing guarantees: names are sorted and occur once.
pub open spec fn well_formed(m: Model) -> bool {
    &&& sorted(m.pending)
    &&& forall|i: int| 0 <= i < m.leases.len() ==> sorted((#[trigger] m.leases[i]).files@)
    &&& distinct_leases(m.leases)
    &&& distinct_receipts(m.receipts)
}

pub open spec fn has_name(files: Seq<MessageFile>, name: Seq<char>) -> bool {
    exists|i: int| 0 <= i < files.len() && (#[trigger] files[i]).name@ == name
}

pub open spec fn named(files: Seq<MessageFile>, name: Seq<char>) -> MessageFile {
    files[choose|i: int| 0 <= i < files.len() && (#[trigger] files[i]).name@ == name]
}

pub open spec fn file_names(files: Seq<MessageFile>) -> Seq<Seq<char>> {
    files.map_values(|f: MessageFile| f.name@)
}

/// The file holds a message that its channel may believe.
pub open spec fn valid_file(f: MessageFile, cli_id: Seq<char>) -> bool {
    f.message is Ok && super::queued_message_objection(f.name@, f.message->Ok_0, cli_id) is None
}

/// Where a file of this name belongs among sorted files.
pub open spec fn rank(files: Seq<MessageFile>, name: Seq<char>) -> int
    decreases files.len(),
{
    if files.len() == 0 {
        0
    } else if order::name_lt(files.last().name@, name) {
        files.len() as int
    } else {
        rank(files.drop_last(), name)
    }
}

pub open spec fn quarantined(m: Model, name: Seq<char>) -> Model {
    Model { quarantine: m.quarantine.push(name), ..m }
}

/// A leased message goes back to the pending queue. A pending file of the same
/// name wins: an identical copy is dropped, any other is set aside.
pub open spec fn put_back(m: Model, f: MessageFile) -> Model {
    if has_name(m.pending, f.name@) {
        if named(m.pending, f.name@).content@ == f.content@ {
            m
        } else {
            quarantined(m, f.name@)
        }
    } else {
        Model { pending: m.pending.insert(rank(m.pending, f.name@), f), ..m }
    }
}

pub open spec fn put_back_all(m: Model, files: Seq<MessageFile>) -> Model
    decreases files.len(),
{
    if files.len() == 0 {
        m
    } else {
        put_back(put_back_all(m, files.drop_last()), files.last())
    }
}

/// Files of a lease that cannot be believed: sound messages return to the
/// queue, everything else is set aside.
pub open spec fn salvage_all(m: Model, files: Seq<MessageFile>, cli_id: Seq<char>) -> Model
    decreases files.len(),
{
    if files.len() == 0 {
        m
    } else {
        let rest = salvage_all(m, files.drop_last(), cli_id);
        if valid_file(files.last(), cli_id) {
            put_back(rest, files.last())
        } else {
            quarantined(rest, files.last().name@)
        }
    }
}

pub open spec fn recover_corrupt(m: Model, l: LeaseDir, cli_id: Seq<char>) -> Model {
    salvage_all(
        if l.metadata_present {
            quarantined(m, "lease.json"@)
        } else {
            m
        },
        l.files@,
        cli_id,
    )
}

pub open spec fn lease_name_objection(name: Seq<char>) -> Objection {
    if super::component_objection("leased message"@, name) is Some {
        super::component_objection("leased message"@, name)
    } else if name == "lease.json"@ || !text::has_suffix(name, ".json"@) {
        Some((QueueErrorKind::Corrupt, "message lease contains an invalid file name"@))
    } else {
        None
    }
}

/// The first objection to a listed file name.
pub open spec fn lease_names_objection(names: Seq<String>) -> Objection
    decreases names.len(),
{
    if names.len() == 0 {
        None
    } else if lease_names_objection(names.drop_last()) is Some {
        lease_names_objection(names.drop_last())
    } else {
        lease_name_objection(names.last()@)
    }
}

pub open spec fn file_objection(f: MessageFile, cli_id: Seq<char>) -> Objection {
    match f.message {
        Err(e) => Some((e.kind, e.message@)),
        Ok(message) => super::queued_message_objection(f.name@, message, cli_id),
    }
}

/// The first objection to a leased message.
pub open spec fn files_objection(files: Seq<MessageFile>, cli_id: Seq<char>) -> Objection
    decreases files.len(),
{
    if files.len() == 0 {
        None
    } else if files_objection(files.drop_last(), cli_id) is Some {
        files_objection(files.drop_last(), cli_id)
    } else {
        file_objection(files.last(), cli_id)
    }
}

pub open spec fn lease_objection(
    dir: Seq<char>,
    lease: LeaseMetadata,
    files: Seq<MessageFile>,
    cli_id: Seq<char>,
) -> Objection {
    if super::id_objection("lease_id"@, lease.lease_id@) is Some {
        super::id_objection("lease_id"@, lease.lease_id@)
    } else if lease.schema_version != QUEUE_SCHEMA_VERSION || lease.cli_id@ != cli_id || dir
        != lease.lease_id@ {
        Some((QueueErrorKind::Corrupt, "message lease metadata does not match its channel"@))
    } else if lease_names_objection(lease.files@) is Some {
        lease_names_objection(lease.files@)
    } else if !text::views(lease.files@).no_duplicates() {
        Some((QueueErrorKind::Corrupt, "message lease contains duplicate files"@))
    } else if text::views(lease.files@).to_set() != file_names(files).to_set() {
        Some((QueueErrorKind::Corrupt, "message lease file list does not match its contents"@))
    } else {
        files_objection(files, cli_id)
    }
}

pub open spec fn valid_lease(l: LeaseDir, cli_id: Seq<char>) -> bool {
    l.metadata is Ok && lease_objection(l.lease_id@, l.metadata->Ok_0, l.files@, cli_id) is None
}

pub open spec fn has_receipt(receipts: Seq<ReceiptFile>, lease_id: Seq<char>) -> bool {
    exists|i: int| 0 <= i < receipts.len() && (#[trigger] receipts[i]).lease_id@ == lease_id
}

pub open spec fn receipt_index(receipts: Seq<ReceiptFile>, lease_id: Seq<char>) -> int {
    choose|i: int| 0 <= i < receipts.len() && (#[trigger] receipts[i]).lease_id@ == lease_id
}

pub open spec fn valid_receipt(r: ReceiptFile, cli_id: Seq<char>, lease_id: Seq<char>) -> bool {
    r.receipt is Ok && super::receipt_objection(r.receipt->Ok_0, cli_id, lease_id) is None
}

pub open spec fn with_lease(m: Model, l: LeaseDir) -> Model {
    Model { leases: m.leases.push(l), ..m }
}

/// The receipt at `i` is set aside.
pub open spec fn without_receipt(m: Model, i: int) -> Model {
    quarantined(
        Model { receipts: m.receipts.remove(i), ..m },
        m.receipts[i].lease_id@ + ".json"@,
    )
}

pub open spec fn requeue_if_expired(m: Model, l: LeaseDir, now: u64) -> Model {
    if (l.metadata->Ok_0).expires_at_unix_ms <= now {
        put_back_all(m, l.files@)
    } else {
        with_lease(m, l)
    }
}

/// What becomes of one lease when leases are recovered.
pub open spec fn recover_step(m: Model, l: LeaseDir, cli_id: Seq<char>, now: u64) -> Model {
    if !valid_lease(l, cli_id) {
        recover_corrupt(m, l, cli_id)
    } else if has_receipt(m.receipts, l.lease_id@) {
        let i = receipt_index(m.receipts, l.lease_id@);
        if valid_receipt(m.receipts[i], cli_id, l.lease_id@) {
            m
        } else {
            requeue_if_expired(without_receipt(m, i), l, now)
        }
    } else {
        requeue_if_expired(m, l, now)
    }
}

pub open spec fn recover_leases(
    m: Model,
    leases: Seq<LeaseDir>,
    cli_id: Seq<char>,
    now: u64,
) -> Model
    decreases leases.len(),
{
    if leases.len() == 0 {
        m
    } else {
        recover_step(recover_leases(m, leases.drop_last(), cli_id, now), leases.last(), cli_id, now)
    }
}

/// Every lease of the channel, looked at in turn.
pub open spec fn recovered(m: Model, cli_id: Seq<char>, now: u64) -> Model {
    recover_leases(Model { leases: Seq::empty(), ..m }, m.leases, cli_id, now)
}

pub open spec fn saturating_sum(a: u64, b: u64) -> int {
    if a + b > u64::MAX {
        u64::MAX as int
    } else {
        a + b
    }
}

pub open spec fn receipt_expired(acked_at: u64, now: u64) -> bool {
    saturating_sum(acked_at, RECEIPT_DURATION_MS) <= now
}

pub open spec fn prune_receipt_step(m: Model, r: ReceiptFile, cli_id: Seq<char>, now: u64) -> Model {
    if r.receipt is Ok && super::receipt_file_objection(r.lease_id@, r.receipt->Ok_0, cli_id)
        is None {
        if receipt_expired((r.receipt->Ok_0).acked_at_unix_ms, now) {
            m
        } else {
            Model { receipts: m.receipts.push(r), ..m }
        }
    } else {
        quarantined(m, r.lease_id@ + ".json"@)
    }
}

pub open spec fn prune_receipts_of(
    m: Model,
    receipts: Seq<ReceiptFile>,
    cli_id: Seq<char>,
    now: u64,
) -> Model
    decreases receipts.len(),
{
    if receipts.len() == 0 {
        m
    } else {
        prune_receipt_step(
            prune_receipts_of(m, receipts.drop_last(), cli_id, now),
            receipts.last(),
            cli_id,
            now,
        )
    }
}

/// Receipts that ran out are gone, receipts that cannot be believed are set
/// aside, the others stay.
pub open spec fn receipts_pruned(m: Model, cli_id: Seq<char>, now: u64) -> Model {
    prune_receipts_of(Model { receipts: Seq::empty(), ..m }, m.receipts, cli_id, now)
}

pub(crate) fn find_name(files: &Vec<MessageFile>, name: &str) -> (r: Option<usize>)
    ensures
        match r {
            Some(i) => i < files@.len() && files@[i as int].name@ == name@,
            None => !has_name(files@, name@),
        },
{
    let mut i: usize = 0;
    while i < files.len()
        invariant
            i <= files@.len(),
            forall|j: int| 0 <= j < i ==> (#[trigger] files@[j]).name@ != name@,
        decreases files@.len() - i,
    {
        if text::str_eq(files[i].name.as_str(), name) {
            return Some(i);
        }
        i += 1;
    }
    None
}

proof fn lemma_named(files: Seq<MessageFile>, i: int)
    requires
        sorted(files),
        0 <= i < files.len(),
    ensures
        has_name(files, files[i].name@),
        named(files, files[i].name@) == files[i],
{
    let k = choose|k: int|
        0 <= k < files.len() && (#[trigger] files[k]).name@ == files[i].name@;
    order::lemma_name_lt_irreflexive(files[i].name@);
}

pub(crate) fn rank_of(files: &Vec<MessageFile>, name: &str) -> (r: usize)
    ensures
        r == rank(files@, name@),
        r <= files@.len(),
{
    let mut i: usize = files.len();
    assert(files@.take(i as int) =~= files@);
    while i > 0
        invariant
            i <= files@.len(),
            rank(files@.take(i as int), name@) == rank(files@, name@),
        decreases i,
    {
        if order::name_less(files[i - 1].name.as_str(), name) {
            assert(files@.take(i as int).last() == files@[i - 1]);
            return i;
        }
        assert(files@.take(i as int).drop_last() =~= files@.take(i - 1));
        i -= 1;
    }
    0
}

proof fn lemma_name_total(a: Seq<char>, b: Seq<char>, k: int)
    requires
        0 <= k <= a.len(),
        k <= b.len(),
        forall|i: int| 0 <= i < k ==> a[i] == b[i],
    ensures
        order::name_lt(a, b) || a == b || order::name_lt(b, a),
    decreases a.len() - k,
{
    if k == a.len() && k == b.len() {
        assert(a =~= b);
    } else if k == a.len() || k < b.len() && a[k] < b[k] {
        assert(order::differs_below(a, b, k));
    } else if k == b.len() || b[k] < a[k] {
        assert(order::differs_below(b, a, k));
    } else {
        lemma_name_total(a, b, k + 1);
    }
}

proof fn lemma_rank(files: Seq<MessageFile>, name: Seq<char>)
    requires
        sorted(files),
    ensures
        0 <= rank(files, name) <= files.len(),
        forall|i: int|
            0 <= i < rank(files, name) ==> order::name_lt((#[trigger] files[i]).name@, name),
        forall|i: int|
            rank(files, name) <= i < files.len() ==> !order::name_lt(
                (#[trigger] files[i]).name@,
                name,
            ),
    decreases files.len(),
{
    if files.len() > 0 {
        if order::name_lt(files.last().name@, name) {
            assert forall|i: int| 0 <= i < files.len() implies order::name_lt(
                (#[trigger] files[i]).name@,
                name,
            ) by {
                if i < files.len() - 1 {
                    order::lemma_name_lt_transitive(files[i].name@, files.last().name@, name);
                }
            }
        } else {
            let front = files.drop_last();
            assert(sorted(front));
            lemma_rank(front, name);
            assert forall|i: int| 0 <= i < rank(files, name) implies order::name_lt(
                (#[trigger] files[i]).name@,
                name,
            ) by {
                assert(front[i] == files[i]);
            }
            assert forall|i: int|
                rank(files, name) <= i < files.len() implies !order::name_lt(
                (#[trigger] files[i]).name@,
                name,
            ) by {
                if i < files.len() - 1 {
                    assert(front[i] == files[i]);
                }
            }
        }
    }
}

/// Returning a file keeps the pending queue sorted.
pub proof fn lemma_put_back_sorted(m: Model, f: MessageFile)
    requires
        sorted(m.pending),
    ensures
        sorted(put_back(m, f).pending),
        put_back(m, f).leases == m.leases,
        put_back(m, f).receipts == m.receipts,
{
    if !has_name(m.pending, f.name@) {
        let p = m.pending;
        let k = rank(p, f.name@);
        lemma_rank(p, f.name@);
        let q = p.insert(k, f);
        assert forall|i: int, j: int| 0 <= i < j < q.len() implies order::name_lt(
            (#[trigger] q[i]).name@,
            (#[trigger] q[j]).name@,
        ) by {
            let oi = if i < k { i } else { i - 1 };
            let oj = if j < k { j } else { j - 1 };
            if i == k {
                lemma_name_total(p[oj].name@, f.name@, 0);
            } else if j == k {
            } else {
                assert(order::name_lt(p[oi].name@, p[oj].name@));
            }
        }
    }
}

pub proof fn lemma_put_back_all_sorted(m: Model, files: Seq<MessageFile>)
    requires
        sorted(m.pending),
    ensures
        sorted(put_back_all(m, files).pending),
        put_back_all(m, files).leases == m.leases,
        put_back_all(m, files).receipts == m.receipts,
    decreases files.len(),
{
    if files.len() > 0 {
        lemma_put_back_all_sorted(m, files.drop_last());
        lemma_put_back_sorted(put_back_all(m, files.drop_last()), files.last());
    }
}

pub proof fn lemma_salvage_sorted(m: Model, files: Seq<MessageFile>, cli_id: Seq<char>)
    requires
        sorted(m.pending),
    ensures
        sorted(salvage_all(m, files, cli_id).pending),
        salvage_all(m, files, cli_id).leases == m.leases,
        salvage_all(m, files, cli_id).receipts == m.receipts,
    decreases files.len(),
{
    if files.len() > 0 {
        lemma_salvage_sorted(m, files.drop_last(), cli_id);
        lemma_put_back_sorted(salvage_all(m, files.drop_last(), cli_id), files.last());
    }
}

fn bytes_equal(a: &Vec<u8>, b: &Vec<u8>) -> (r: bool)
    ensures
        r == (a@ == b@),
{
    if a.len() != b.len() {
        return false;
    }
    let mut i: usize = 0;
    while i < a.len()
        invariant
            i <= a@.len() == b@.len(),
            forall|j: int| 0 <= j < i ==> a@[j] == b@[j],
        decreases a@.len() - i,
    {
        if a[i] != b[i] {
            return false;
        }
        i += 1;
    }
    assert(a@ =~= b@);
    true
}

pub(crate) fn contains_name(files: &Vec<MessageFile>, name: &str) -> (r: bool)
    ensures
        r == has_name(files@, name@),
{
    find_name(files, name).is_some()
}

/// A temporary file that was left behind.
pub open spec fn stale_temp(f: TempFile, now: u64) -> bool {
    text::has_prefix(f.name@, ".tmp-"@) && stale(f.modified_ms, now)
}

pub open spec fn stale(modified_ms: u64, now: u64) -> bool {
    saturating_sum(modified_ms, STALE_RECORD_DURATION_MS) <= now
}

/// A record that has not changed for an hour is stale.
pub fn path_is_stale(modified_ms: u64, now: u64) -> (r: bool)
    ensures
        r == stale(modified_ms, now),
{
    modified_ms.saturating_add(STALE_RECORD_DURATION_MS) <= now
}

/// Drops temporary files that were left behind; the others keep their order.
pub fn prune_stale_temp_files(files: Vec<TempFile>, now: u64) -> (r: Vec<TempFile>)
    ensures
        r@ == files@.filter(|f: TempFile| !stale_temp(f, now)),
{
    let mut rest = files;
    let mut kept: Vec<TempFile> = Vec::new();
    let ghost keep = |f: TempFile| !stale_temp(f, now);
    let ghost all = rest@;
    assert(all.take(0).filter(keep) =~= Seq::<TempFile>::empty()) by {
        reveal(Seq::filter);
    }
    let mut n: usize = 0;
    let total: usize = rest.len();
    while n < total
        invariant
            n <= total == all.len(),
            rest@ == all.skip(n as int),
            keep == (|f: TempFile| !stale_temp(f, now)),
            kept@ == all.take(n as int).filter(keep),
        decreases total - n,
    {
        let f = rest.remove(0);
        proof {
            assert(f == all[n as int]);
            assert(rest@ =~= all.skip(n as int + 1));
            assert(all.take(n as int + 1).drop_last() =~= all.take(n as int));
            assert(all.take(n as int + 1).last() == f);
            reveal(Seq::filter);
        }
        if !(text::prefixed(f.name.as_str(), ".tmp-") && path_is_stale(f.modified_ms, now)) {
            kept.push(f);
        }
        n += 1;
    }
    assert(all.take(total as int) =~= all);
    kept
}

pub(crate) fn append_json(stem: &str) -> (r: String)
    ensures
        r@ == stem@ + ".json"@,
{
    let mut s = stem.to_string();
    s.append(".json");
    s
}

pub(crate) fn find_receipt(receipts: &Vec<ReceiptFile>, lease_id: &str) -> (r: Option<usize>)
    requires
        distinct_receipts(receipts@),
    ensures
        match r {
            Some(i) => i < receipts@.len() && has_receipt(receipts@, lease_id@) && i
                == receipt_index(receipts@, lease_id@),
            None => !has_receipt(receipts@, lease_id@),
        },
{
    let mut i: usize = 0;
    while i < receipts.len()
        invariant
            i <= receipts@.len(),
            distinct_receipts(receipts@),
            forall|j: int| 0 <= j < i ==> (#[trigger] receipts@[j]).lease_id@ != lease_id@,
        decreases receipts@.len() - i,
    {
        if text::str_eq(receipts[i].lease_id.as_str(), lease_id) {
            proof {
                assert(receipts@[i as int].lease_id@ == lease_id@);
                let k = receipt_index(receipts@, lease_id@);
                assert(receipts@[k].lease_id@ == lease_id@);
            }
            return Some(i);
        }
        i += 1;
    }
    None
}

fn validate_lease_names(names: &Vec<String>) -> (r: Result<(), QueueError>)
    ensures
        super::objection(r) == lease_names_objection(names@),
{
    let mut i: usize = 0;
    while i < names.len()
        invariant
            i <= names@.len(),
            lease_names_objection(names@.take(i as int)) is None,
        decreases names@.len() - i,
    {
        proof {
            assert(names@.take(i as int + 1).drop_last() =~= names@.take(i as int));
            lemma_first_name_objection(names@, i as int + 1);
        }
        let name = names[i].as_str();
        match super::validate_component("leased message", name) {
            Ok(()) => {},
            Err(e) => return Err(e),
        }
        if text::str_eq(name, "lease.json") || !text::suffixed(name, ".json") {
            return Err(
                QueueError::new(
                    QueueErrorKind::Corrupt,
                    "message lease contains an invalid file name",
                ),
            );
        }
        i += 1;
    }
    assert(names@.take(names@.len() as int) =~= names@);
    Ok(())
}

proof fn lemma_first_name_objection(names: Seq<String>, k: int)
    requires
        0 <= k <= names.len(),
    ensures
        lease_names_objection(names.take(k)) is Some ==> lease_names_objection(names)
            == lease_names_objection(names.take(k)),
    decreases names.len() - k,
{
    if k < names.len() {
        assert(names.take(k + 1).drop_last() =~= names.take(k));
        lemma_first_name_objection(names, k + 1);
    } else {
        assert(names.take(k) =~= names);
    }
}

proof fn lemma_first_file_objection(files: Seq<MessageFile>, cli_id: Seq<char>, k: int)
    requires
        0 <= k <= files.len(),
    ensures
        files_objection(files.take(k), cli_id) is Some ==> files_objection(files, cli_id)
            == files_objection(files.take(k), cli_id),
    decreases files.len() - k,
{
    if k < files.len() {
        assert(files.take(k + 1).drop_last() =~= files.take(k));
        lemma_first_file_objection(files, cli_id, k + 1);
    } else {
        assert(files.take(k) =~= files);
    }
}

fn validate_files(files: &Vec<MessageFile>, cli_id: &str) -> (r: Result<(), QueueError>)
    ensures
        super::objection(r) == files_objection(files@, cli_id@),
{
    let mut i: usize = 0;
    while i < files.len()
        invariant
            i <= files@.len(),
            files_objection(files@.take(i as int), cli_id@) is None,
        decreases files@.len() - i,
    {
        proof {
            assert(files@.take(i as int + 1).drop_last() =~= files@.take(i as int));
            lemma_first_file_objection(files@, cli_id@, i as int + 1);
        }
        match &files[i].message {
            Err(e) => return Err(e.clone()),
            Ok(message) => match super::validate_queued_message(
                files[i].name.as_str(),
                message,
                cli_id,
            ) {
                Ok(()) => {},
                Err(e) => return Err(e),
            },
        }
        i += 1;
    }
    assert(files@.take(files@.len() as int) =~= files@);
    Ok(())
}

fn has_duplicates(names: &Vec<String>) -> (r: bool)
    ensures
        r == !text::views(names@).no_duplicates(),
{
    let mut i: usize = 0;
    while i < names.len()
        invariant
            i <= names@.len(),
            forall|a: int, b: int|
                0 <= a < b < i ==> (#[trigger] names@[a])@ != (#[trigger] names@[b])@,
        decreases names@.len() - i,
    {
        let mut j: usize = 0;
        while j < i
            invariant
                j <= i < names@.len(),
                forall|a: int| 0 <= a < j ==> (#[trigger] names@[a])@ != names@[i as int]@,
            decreases i - j,
        {
            if text::str_eq(names[j].as_str(), names[i].as_str()) {
                proof {
                    let v = text::views(names@);
                    assert(v[j as int] == v[i as int]);
                }
                return true;
            }
            j += 1;
        }
        i += 1;
    }
    proof {
        let v = text::views(names@);
        assert forall|a: int, b: int| 0 <= a < v.len() && 0 <= b < v.len() && a != b implies v[a]
            != v[b] by {
            if a < b {
                assert(names@[a]@ != names@[b]@);
            } else {
                assert(names@[b]@ != names@[a]@);
            }
        }
    }
    false
}

fn same_names(names: &Vec<String>, files: &Vec<MessageFile>) -> (r: bool)
    ensures
        r == (text::views(names@).to_set() == file_names(files@).to_set()),
{
    let ghost a = text::views(names@);
    let ghost b = file_names(files@);
    let mut i: usize = 0;
    while i < names.len()
        invariant
            i <= names@.len(),
            a == text::views(names@),
            b == file_names(files@),
            forall|j: int| 0 <= j < i ==> b.contains(#[trigger] a[j]),
        decreases names@.len() - i,
    {
        if !contains_name(files, names[i].as_str()) {
            proof {
                assert(a.contains(a[i as int]));
                assert(a.to_set().contains(a[i as int]));
                if b.contains(a[i as int]) {
                    let k = b.index_of(a[i as int]);
                    assert(files@[k].name@ == names@[i as int]@);
                }
            }
            return false;
        }
        proof {
            let k = choose|k: int|
                0 <= k < files@.len() && (#[trigger] files@[k]).name@ == names@[i as int]@;
            assert(b[k] == a[i as int]);
        }
        i += 1;
    }
    let mut j: usize = 0;
    while j < files.len()
        invariant
            j <= files@.len(),
            a == text::views(names@),
            b == file_names(files@),
            forall|k: int| 0 <= k < j ==> a.contains(#[trigger] b[k]),
        decreases files@.len() - j,
    {
        if !text::contains_string(names, files[j].name.as_str()) {
            proof {
                assert(b[j as int] == files@[j as int].name@);
                assert(b.to_set().contains(b[j as int]));
            }
            return false;
        }
        assert(b[j as int] == files@[j as int].name@);
        j += 1;
    }
    proof {
        assert forall|x: Seq<char>| a.to_set().contains(x) == b.to_set().contains(x) by {
            if a.contains(x) {
                assert(b.contains(a[a.index_of(x)]));
            }
            if b.contains(x) {
                assert(a.contains(b[b.index_of(x)]));
            }
        }
        assert(a.to_set() =~= b.to_set());
    }
    true
}

/// Accepts a lease directory: its record matches the channel and the files it
/// holds.
pub fn validate_lease(
    dir: &str,
    lease: &LeaseMetadata,
    files: &Vec<MessageFile>,
    cli_id: &str,
) -> (r: Result<(), QueueError>)
    ensures
        super::objection(r) == lease_objection(dir@, *lease, files@, cli_id@),
{
    match super::validate_id("lease_id", lease.lease_id.as_str()) {
        Ok(()) => {},
        Err(e) => return Err(e),
    }
    if lease.schema_version != QUEUE_SCHEMA_VERSION || !text::str_eq(lease.cli_id.as_str(), cli_id)
        || !text::str_eq(dir, lease.lease_id.as_str()) {
        return Err(
            QueueError::new(
                QueueErrorKind::Corrupt,
                "message lease metadata does not match its channel",
            ),
        );
    }
    match validate_lease_names(&lease.files) {
        Ok(()) => {},
        Err(e) => return Err(e),
    }
    if has_duplicates(&lease.files) {
        return Err(
            QueueError::new(QueueErrorKind::Corrupt, "message lease contains duplicate files"),
        );
    }
    if !same_names(&lease.files, files) {
        return Err(
            QueueError::new(
                QueueErrorKind::Corrupt,
                "message lease file list does not match its contents",
            ),
        );
    }
    validate_files(files, cli_id)
}

pub(crate) fn lease_is_valid(l: &LeaseDir, cli_id: &str) -> (r: bool)
    ensures
        r == valid_lease(*l, cli_id@),
{
    match &l.metadata {
        Ok(lease) => validate_lease(l.lease_id.as_str(), lease, &l.files, cli_id).is_ok(),
        Err(_) => false,
    }
}

pub(crate) fn file_is_valid(f: &MessageFile, cli_id: &str) -> (r: bool)
    ensures
        r == valid_file(*f, cli_id@),
{
    match &f.message {
        Ok(message) => super::validate_queued_message(f.name.as_str(), message, cli_id).is_ok(),
        Err(_) => false,
    }
}

impl Channel {
    pub(crate) fn set_aside(&mut self, name: String)
        ensures
            final(self)@ == quarantined(old(self)@, name@),
            final(self).tmp == old(self).tmp,
    {
        let ghost before = text::views(self.quarantine@);
        self.quarantine.push(name);
        assert(text::views(self.quarantine@) =~= before.push(name@));
    }

    /// Returns a leased message to the pending queue.
    pub fn move_leased_message_to_pending(&mut self, f: MessageFile)
        requires
            well_formed(old(self)@),
        ensures
            final(self)@ == put_back(old(self)@, f),
            well_formed(final(self)@),
            final(self)@.leases == old(self)@.leases,
            final(self)@.receipts == old(self)@.receipts,
            final(self).tmp == old(self).tmp,
    {
        proof {
            lemma_put_back_sorted(self@, f);
        }
        match find_name(&self.pending, f.name.as_str()) {
            Some(i) => {
                proof {
                    lemma_named(self.pending@, i as int);
                }
                if !bytes_equal(&self.pending[i].content, &f.content) {
                    self.set_aside(f.name);
                }
            },
            None => {
                let at: usize = rank_of(&self.pending, f.name.as_str());
                self.pending.insert(at, f);
            },
        }
    }

    pub(crate) fn requeue_files(&mut self, files: Vec<MessageFile>)
        requires
            well_formed(old(self)@),
        ensures
            final(self)@ == put_back_all(old(self)@, files@),
            well_formed(final(self)@),
            final(self)@.leases == old(self)@.leases,
            final(self)@.receipts == old(self)@.receipts,
            final(self).tmp == old(self).tmp,
    {
        let mut rest = files;
        let ghost all = rest@;
        let ghost start = self@;
        let ghost tmp = self.tmp;
        let total: usize = rest.len();
        let mut n: usize = 0;
        while n < total
            invariant
                n <= total == all.len(),
                rest@ == all.skip(n as int),
                well_formed(self@),
                self@.leases == start.leases,
                self@.receipts == start.receipts,
                self@ == put_back_all(start, all.take(n as int)),
                self.tmp == tmp,
            decreases total - n,
        {
            let f = rest.remove(0);
            proof {
                assert(rest@ =~= all.skip(n as int + 1));
                assert(all.take(n as int + 1).drop_last() =~= all.take(n as int));
            }
            self.move_leased_message_to_pending(f);
            n += 1;
        }
        assert(all.take(total as int) =~= all);
    }

    /// Takes apart a lease that cannot be believed, without losing a sound
    /// message.
    pub fn recover_corrupt_lease(&mut self, l: LeaseDir, cli_id: &str)
        requires
            well_formed(old(self)@),
        ensures
            final(self)@ == recover_corrupt(old(self)@, l, cli_id@),
            well_formed(final(self)@),
            final(self)@.leases == old(self)@.leases,
            final(self)@.receipts == old(self)@.receipts,
            final(self).tmp == old(self).tmp,
    {
        if l.metadata_present {
            self.set_aside("lease.json".to_string());
        }
        let mut rest = l.files;
        let ghost all = rest@;
        let ghost start = self@;
        let ghost tmp = self.tmp;
        let total: usize = rest.len();
        let mut n: usize = 0;
        while n < total
            invariant
                n <= total == all.len(),
                rest@ == all.skip(n as int),
                well_formed(self@),
                self@.leases == start.leases,
                self@.receipts == start.receipts,
                self@ == salvage_all(start, all.take(n as int), cli_id@),
                self.tmp == tmp,
            decreases total - n,
        {
            let f = rest.remove(0);
            proof {
                assert(rest@ =~= all.skip(n as int + 1));
                assert(all.take(n as int + 1).drop_last() =~= all.take(n as int));
            }
            if file_is_valid(&f, cli_id) {
                self.move_leased_message_to_pending(f);
            } else {
                self.set_aside(f.name);
            }
            n += 1;
        }
        assert(all.take(total as int) =~= all);
    }
}

} // verus!
