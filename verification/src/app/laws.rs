//! What holds of delegations as a whole.

use vstd::prelude::*;
use vstd::string::*;

use super::handoff;
use super::letting_go;
use super::list;
use super::remote_presentations::{self as presentations, DetachedView};
use super::{
    AppView, CompletedView, DelegatedView, MovedView, PendingView, PlaceView, SourceView,
    WorkspaceView,
};
use crate::api::schema::peers::{DelegationView, OwnerView, TerminalDelegationStatus};
use crate::text;

verus! {

// ---------------------------------------------------------------------------
// Routes and names

/// The route of a delegation that is let through leads from the owner to this
/// host, and passes no host twice.
pub proof fn lemma_routes_do_not_repeat(
    s: AppView,
    terminal_id: Seq<char>,
    public_pane_id: Seq<char>,
    owner: OwnerView,
)
    requires
        presentations::route_objection(owner, s.local_peer_id) is None,
    ensures
        ({
            let route = presentations::new_info(s, terminal_id, public_pane_id, owner).owner.route;
            &&& route.no_duplicates()
            &&& route.first() == owner.peer_id
            &&& route.last() == s.local_peer_id
            &&& route.len() <= presentations::MAX_ROUTE_HOSTS
        }),
{
    let before = owner.route;
    let after = before.push(s.local_peer_id);
    if before.last() == s.local_peer_id {
        assert(before.contains(before[before.len() - 1]));
    }
    assert forall|i: int, j: int|
        0 <= i < after.len() && 0 <= j < after.len() && i != j implies after[i] != after[j] by {
        if i < before.len() && j == before.len() {
            assert(before.contains(before[i]));
        } else if j < before.len() && i == before.len() {
            assert(before.contains(before[j]));
        }
    }
}

proof fn lemma_hex_tells_apart(n: nat, m: nat)
    requires
        text::hex(n) == text::hex(m),
    ensures
        n == m,
    decreases n,
{
    lemma_hex_len(n / 16);
    lemma_hex_len(m / 16);
    assert(text::hex(n).last() == text::hex_char(n % 16));
    assert(text::hex(m).last() == text::hex_char(m % 16));
    assert(n % 16 == m % 16);
    if n >= 16 && m >= 16 {
        assert(text::hex(n).drop_last() =~= text::hex(n / 16));
        assert(text::hex(m).drop_last() =~= text::hex(m / 16));
        lemma_hex_tells_apart(n / 16, m / 16);
    }
}

proof fn lemma_hex_len(n: nat)
    ensures
        text::hex(n).len() > 0,
{
}

proof fn lemma_hex_has_no_dash(n: nat)
    ensures
        text::hex(n).len() > 0,
        forall|i: int| 0 <= i < text::hex(n).len() ==> #[trigger] text::hex(n)[i] != '-',
    decreases n,
{
    if n >= 16 {
        lemma_hex_has_no_dash(n / 16);
        let front = text::hex(n / 16);
        assert forall|i: int| 0 <= i < text::hex(n).len() implies #[trigger] text::hex(n)[i]
            != '-' by {
            if i < front.len() {
                assert(text::hex(n)[i] == front[i]);
            }
        }
    }
}

/// Two delegations that were counted differently have different ids, whether
/// they are of one terminal or of two.
pub proof fn lemma_delegations_have_names_of_their_own(
    terminal_id: Seq<char>,
    other_id: Seq<char>,
    n: u64,
    m: u64,
)
    requires
        n != m,
    ensures
        presentations::delegation_name(terminal_id, n) != presentations::delegation_name(
            other_id,
            m,
        ),
{
    let x = presentations::delegation_name(terminal_id, n);
    let y = presentations::delegation_name(other_id, m);
    let (a, b) = (text::hex(n as nat), text::hex(m as nat));
    lemma_hex_has_no_dash(n as nat);
    lemma_hex_has_no_dash(m as nat);
    reveal_strlit("-");
    if x == y {
        let i = x.len() - a.len() - 1;
        let j = y.len() - b.len() - 1;
        assert(x[i] == '-');
        assert(y[j] == '-');
        if i < j {
            assert(x[j] == a[j - i - 1]);
        } else if j < i {
            assert(y[i] == b[i - j - 1]);
        }
        assert(x.skip(i + 1) =~= a);
        assert(y.skip(j + 1) =~= b);
        lemma_hex_tells_apart(n as nat, m as nat);
    }
}

/// The counter of delegations, `k` delegations later.
pub open spec fn counted_on(n: u64, k: nat) -> u64
    decreases k,
{
    if k == 0 {
        n
    } else {
        presentations::next_sequence(counted_on(n, (k - 1) as nat))
    }
}

proof fn lemma_counted_on(n: u64, k: nat)
    ensures
        k <= u64::MAX ==> counted_on(n, k) == if n + k <= u64::MAX {
            n + k
        } else {
            n + k - 0x1_0000_0000_0000_0000
        },
    decreases k,
{
    if k > 0 {
        lemma_counted_on(n, (k - 1) as nat);
    }
}

/// A course of states in each step of which at most one delegation is counted.
pub open spec fn counts_on(states: Seq<AppView>) -> bool {
    forall|i: int|
        0 <= i < states.len() - 1 ==> (#[trigger] states[i + 1]).next_delegation
            == states[i].next_delegation || states[i + 1].next_delegation
            == presentations::next_sequence(states[i].next_delegation)
}

/// A delegation was counted in the step from that state.
pub open spec fn counted_at(states: Seq<AppView>, i: int) -> bool {
    0 <= i < states.len() - 1 && states[i + 1].next_delegation == presentations::next_sequence(
        states[i].next_delegation,
    )
}

proof fn lemma_count_between(states: Seq<AppView>, i: int, j: int) -> (k: nat)
    requires
        counts_on(states),
        counted_at(states, i),
        i < j < states.len(),
    ensures
        0 < k <= j - i,
        states[j].next_delegation == counted_on(states[i].next_delegation, k),
    decreases j - i,
{
    let n = states[i].next_delegation;
    if j == i + 1 {
        reveal_with_fuel(counted_on, 2);
        1
    } else {
        let k = lemma_count_between(states, i, j - 1);
        assert(states[(j - 1) + 1] == states[j]);
        if states[j].next_delegation == states[j - 1].next_delegation {
            k
        } else {
            k + 1
        }
    }
}

/// Any two delegations that a server makes have different ids, however much
/// happens between them: the counter goes on with each, and does not come round
/// for as long as a machine can count.
pub proof fn lemma_no_two_delegations_share_a_name(
    states: Seq<AppView>,
    i: int,
    j: int,
    terminal_id: Seq<char>,
    pane_id: Seq<char>,
    owner: OwnerView,
    other_terminal_id: Seq<char>,
    other_pane_id: Seq<char>,
    other_owner: OwnerView,
)
    requires
        counts_on(states),
        states.len() <= u64::MAX,
        counted_at(states, i),
        counted_at(states, j),
        i < j,
    ensures
        presentations::new_info(states[i], terminal_id, pane_id, owner).delegation_id
            != presentations::new_info(
            states[j],
            other_terminal_id,
            other_pane_id,
            other_owner,
        ).delegation_id,
{
    let k = lemma_count_between(states, i, j);
    lemma_counted_on(states[i].next_delegation, k);
    lemma_delegations_have_names_of_their_own(
        terminal_id,
        other_terminal_id,
        states[i].next_delegation,
        states[j].next_delegation,
    );
}

/// A delegation that is prepared is counted. One that is committed or handed
/// back is not counted again, and what is taken down is not either.
pub proof fn lemma_delegations_are_counted(
    s: AppView,
    terminal_id: Seq<char>,
    pane_id: Seq<char>,
    owner: OwnerView,
    source: SourceView,
    claim: (Seq<char>, u64),
    requested: Seq<char>,
    detached: Option<DetachedView>,
    home: PlaceView,
    t: AppView,
    now_ms: u64,
)
    ensures
        counted_at(
            seq![s, presentations::prepared(s, terminal_id, pane_id, owner, source, now_ms)],
            0,
        ),
        presentations::committed(s, claim, requested, detached, now_ms).0.next_delegation
            == s.next_delegation,
        handoff::handed_off(s, pane_id, home, now_ms).0.next_delegation == s.next_delegation,
        letting_go::nothing_gained(s, t) ==> t.next_delegation == s.next_delegation,
{
    reveal(letting_go::nothing_gained);
    match list::first(s.delegated, presentations::publicly(s, pane_id)) {
        Some((id, d)) => {
            let back = handoff::rehomed(
                AppView { delegated: list::without(s.delegated, id), ..s },
                d,
                home,
            );
            let ids = list::keys_of(back.pending.filter(presentations::takes_over(id)));
            letting_go::lemma_failed_all(back, ids, now_ms);
        },
        None => {},
    }
}

// ---------------------------------------------------------------------------
// Tables

pub(crate) proof fn lemma_with_found<W>(t: Seq<(Seq<char>, W)>, k: Seq<char>, v: W)
    ensures
        list::lookup(list::with(t, k, v), k) == Some(v),
{
    letting_go::lemma_without_gone(t, k);
    list::lemma_first_pushed(list::without(t, k), (k, v), list::keyed(k));
}

proof fn lemma_with_keeps_absent<W>(t: Seq<(Seq<char>, W)>, k: Seq<char>, v: W, other: Seq<char>)
    requires
        k != other,
        !list::present(t, other),
    ensures
        !list::present(list::with(t, k, v), other),
{
    letting_go::lemma_without_gone(t, k);
    let u = list::without(t, k);
    assert(!list::present(u, other));
    list::lemma_first_pushed(u, (k, v), list::keyed(other));
}

// ---------------------------------------------------------------------------
// Commits

/// A commit that succeeds makes the delegation active, with no other change to its
/// record, and uses its claim up: a second commit of the same claim finds nothing
/// and changes nothing.
pub proof fn lemma_claim_is_used_once(
    s: AppView,
    claim: (Seq<char>, u64),
    requested: Seq<char>,
    detached: Option<DetachedView>,
    now_ms: u64,
    requested_again: Seq<char>,
    detached_again: Option<DetachedView>,
    later_ms: u64,
)
    requires
        presentations::committed(s, claim, requested, detached, now_ms).1 is Ok,
    ensures
        ({
            let after = presentations::committed(s, claim, requested, detached, now_ms).0;
            &&& !list::present(after.pending, claim.0)
            &&& list::lookup(after.delegated, claim.0) matches Some(d) && d.info
                == (DelegationView {
                status: TerminalDelegationStatus::Active,
                ..(list::lookup(s.pending, claim.0)->0).info
            }) && d.info.terminal_id == requested
            &&& presentations::committed(
                after,
                claim,
                requested_again,
                detached_again,
                later_ms,
            ) == (
                after,
                Err::<Seq<char>, Seq<char>>("terminal delegation was not found or has expired"@),
            )
        }),
{
    let after = presentations::committed(s, claim, requested, detached, now_ms).0;
    let p = list::lookup(s.pending, claim.0)->0;
    letting_go::lemma_without_gone(s.pending, claim.0);
    assert(after.pending == list::without(s.pending, claim.0));
    match p.source {
        SourceView::New { moved, place } => {
            lemma_with_found(
                s.delegated,
                claim.0,
                DelegatedView {
                    info: DelegationView {
                        status: TerminalDelegationStatus::Active,
                        ..p.info
                    },
                    moved,
                    place,
                },
            );
        },
        SourceView::Existing { pane_id, place, .. } => {
            let pane = presentations::pane_anywhere(s.workspaces, pane_id)->0;
            let taken = presentations::pane_taken(
                AppView { pending: list::without(s.pending, claim.0), ..s },
                pane_id,
                detached->0,
            );
            lemma_with_found(
                taken.delegated,
                claim.0,
                DelegatedView {
                    info: DelegationView {
                        status: TerminalDelegationStatus::Active,
                        ..p.info
                    },
                    moved: MovedView {
                        pane_id,
                        terminal_id: pane.terminal_id,
                        seen: pane.seen,
                    },
                    place,
                },
            );
        },
        SourceView::Takeover { previous_delegation_id } => {
            let before = list::lookup(s.delegated, previous_delegation_id)->0;
            lemma_with_found(
                list::without(s.delegated, previous_delegation_id),
                claim.0,
                DelegatedView {
                    info: DelegationView {
                        status: TerminalDelegationStatus::Active,
                        ..p.info
                    },
                    moved: before.moved,
                    place: before.place,
                },
            );
        },
    }
}

/// The pane is in no more than one workspace.
pub open spec fn in_one_place(workspaces: Seq<WorkspaceView>, pane_id: u64) -> bool {
    forall|i: int, j: int|
        #![trigger workspaces[i], workspaces[j]]
        0 <= i < workspaces.len() && 0 <= j < workspaces.len() && presentations::holds_pane(
            pane_id,
        )(workspaces[i]) && presentations::holds_pane(pane_id)(workspaces[j]) ==> i == j
}

proof fn lemma_taken_pane_is_nowhere(s: AppView, pane_id: u64, detached: DetachedView)
    requires
        in_one_place(s.workspaces, pane_id),
        presentations::pane_anywhere(s.workspaces, pane_id) is Some,
    ensures
        presentations::pane_anywhere(
            presentations::pane_taken(s, pane_id, detached).workspaces,
            pane_id,
        ) is None,
{
    let p = presentations::holds_pane(pane_id);
    let q = presentations::pane_numbered(pane_id);
    let before = s.workspaces;
    let after = presentations::pane_taken(s, pane_id, detached).workspaces;
    let at = list::place(before, p);
    list::lemma_first(before, p);
    list::lemma_first(after, p);
    assert forall|k: int| 0 <= k < after.len() implies !p(#[trigger] after[k]) by {
        let left = before[at].panes.filter(presentations::other_panes(pane_id));
        if left.len() == 0 {
            let from = if k < at {
                k
            } else {
                k + 1
            };
            assert(after[k] == before[from]);
            assert(p(before[at]));
        } else if k == at {
            list::lemma_first(left, q);
            list::lemma_filtered_holds(
                before[at].panes,
                presentations::other_panes(pane_id),
            );
            assert forall|i: int| 0 <= i < left.len() implies !q(#[trigger] left[i]) by {
                assert(presentations::other_panes(pane_id)(left[i]));
            }
        } else {
            assert(after[k] == before[k]);
            assert(p(before[at]));
        }
    }
}

/// To commit the claim of a running pane hides it here: it is in no workspace, its
/// terminal keeps running and is known as lent, and there is one active delegation
/// more, whose record is what was prepared, now active. The claim is good for no
/// second time.
pub proof fn lemma_committed_pane_is_hidden(
    s: AppView,
    claim: (Seq<char>, u64),
    requested: Seq<char>,
    detached: DetachedView,
    now_ms: u64,
    p: PendingView,
    pane_id: u64,
    requested_again: Seq<char>,
    detached_again: Option<DetachedView>,
    later_ms: u64,
)
    requires
        list::lookup(s.pending, claim.0) == Some(p),
        p.info.epoch == claim.1,
        p.info.terminal_id == requested,
        p.source matches SourceView::Existing { pane_id: prepared, .. } && prepared == pane_id,
        presentations::pane_anywhere(s.workspaces, pane_id) matches Some(pane) && pane.terminal_id
            == requested,
        presentations::runs(s, requested),
        in_one_place(s.workspaces, pane_id),
        !list::present(s.delegated, claim.0),
    ensures
        ({
            let (after, r) = presentations::committed(
                s,
                claim,
                requested,
                Some(detached),
                now_ms,
            );
            &&& r == Ok::<Seq<char>, Seq<char>>(requested)
            &&& after.pending == list::without(s.pending, claim.0)
            &&& after.delegated.len() == s.delegated.len() + 1
            &&& after.delegated.drop_last() == s.delegated
            &&& after.delegated.last().0 == claim.0
            &&& after.delegated.last().1.info == (DelegationView {
                status: TerminalDelegationStatus::Active,
                ..p.info
            })
            &&& after.delegated.last().1.moved.pane_id == pane_id
            &&& after.delegated.last().1.moved.terminal_id == requested
            &&& presentations::pane_anywhere(after.workspaces, pane_id) is None
            &&& list::first(
                after.delegated_terminal_ids,
                |row: (u64, Seq<char>)| row.0 == pane_id,
            ) == Some((pane_id, requested))
            &&& after.terminals == s.terminals
            &&& after.runtimes == s.runtimes
            &&& presentations::committed(
                after,
                claim,
                requested_again,
                detached_again,
                later_ms,
            ).1 is Err
        }),
{
    let after = presentations::committed(s, claim, requested, Some(detached), now_ms).0;
    let claimed = AppView { pending: list::without(s.pending, claim.0), ..s };
    lemma_taken_pane_is_nowhere(claimed, pane_id, detached);
    list::lemma_without_absent(s.delegated, claim.0);
    assert(after.delegated.drop_last() =~= s.delegated);
    let other = presentations::other_delegated(pane_id);
    let kept = s.delegated_terminal_ids.filter(other);
    let same = |row: (u64, Seq<char>)| row.0 == pane_id;
    list::lemma_filtered_holds(s.delegated_terminal_ids, other);
    list::lemma_first(kept, same);
    assert forall|i: int| 0 <= i < kept.len() implies !same(#[trigger] kept[i]) by {
        assert(other(kept[i]));
    }
    list::lemma_first_pushed(kept, (pane_id, requested), same);
    lemma_claim_is_used_once(
        s,
        claim,
        requested,
        Some(detached),
        now_ms,
        requested_again,
        detached_again,
        later_ms,
    );
}

/// A takeover ends the delegation that it takes over, and is the one that
/// presents the pane from then on.
pub proof fn lemma_takeover_replaces(
    s: AppView,
    claim: (Seq<char>, u64),
    requested: Seq<char>,
    detached: Option<DetachedView>,
    now_ms: u64,
    previous: Seq<char>,
)
    requires
        presentations::committed(s, claim, requested, detached, now_ms).1 is Ok,
        list::lookup(s.pending, claim.0) matches Some(p) && p.source == (SourceView::Takeover {
            previous_delegation_id: previous,
        }),
        previous != claim.0,
    ensures
        ({
            let after = presentations::committed(s, claim, requested, detached, now_ms).0;
            &&& !list::present(after.delegated, previous)
            &&& list::lookup(after.completed, previous) matches Some(c) && c.info.status
                == TerminalDelegationStatus::TakenOver && c.completed_at_ms == now_ms
            &&& list::lookup(after.delegated, claim.0) matches Some(d) && d.moved
                == (list::lookup(s.delegated, previous)->0).moved
        }),
{
    let after = presentations::committed(s, claim, requested, detached, now_ms).0;
    let p = list::lookup(s.pending, claim.0)->0;
    let before = list::lookup(s.delegated, previous)->0;
    let active = DelegatedView {
        info: DelegationView {
            status: TerminalDelegationStatus::Active,
            ..p.info
        },
        moved: before.moved,
        place: before.place,
    };
    letting_go::lemma_without_gone(s.delegated, previous);
    lemma_with_keeps_absent(list::without(s.delegated, previous), claim.0, active, previous);
    lemma_with_found(list::without(s.delegated, previous), claim.0, active);
    lemma_with_found(
        s.completed,
        previous,
        CompletedView {
            info: DelegationView {
                status: TerminalDelegationStatus::TakenOver,
                ..before.info
            },
            completed_at_ms: now_ms,
        },
    );
}

/// A claim that does not match what was prepared changes nothing.
pub proof fn lemma_wrong_claims_change_nothing(
    s: AppView,
    claim: (Seq<char>, u64),
    requested: Seq<char>,
    detached: Option<DetachedView>,
    now_ms: u64,
)
    requires
        list::lookup(s.pending, claim.0) matches Some(p) ==> p.info.epoch != claim.1
            || p.info.terminal_id != requested,
    ensures
        presentations::committed(s, claim, requested, detached, now_ms).0 == s,
        presentations::committed(s, claim, requested, detached, now_ms).1 is Err,
{
}

// ---------------------------------------------------------------------------
// Ends

proof fn lemma_failing_filters(
    s: AppView,
    ids: Seq<Seq<char>>,
    now_ms: u64,
    row: (Seq<char>, PendingView),
)
    requires
        presentations::failed_all(s, ids, now_ms).pending.contains(row),
    ensures
        s.pending.contains(row),
        !ids.contains(row.0),
    decreases ids.len(),
{
    if ids.len() > 0 {
        let next = presentations::failed_one(s, ids[0], now_ms);
        lemma_failing_filters(next, ids.skip(1), now_ms, row);
        let left = s.pending.filter(list::unkeyed(ids[0]));
        if list::lookup(s.pending, ids[0]) is Some {
            assert(next.pending == left);
            list::lemma_filtered_holds(s.pending, list::unkeyed::<PendingView>(ids[0]));
            let i = left.index_of(row);
            assert(list::unkeyed::<PendingView>(ids[0])(left[i]));
            let q = |w: (Seq<char>, PendingView)| s.pending.contains(w);
            list::lemma_filter_keeps(s.pending, list::unkeyed(ids[0]), q);
            assert(q(left[i]));
        } else {
            list::lemma_first(s.pending, list::keyed(ids[0]));
            let i = s.pending.index_of(row);
            assert(!list::keyed::<PendingView>(ids[0])(s.pending[i]));
        }
        if ids.contains(row.0) {
            let i = ids.index_of(row.0);
            assert(i > 0);
            assert(ids.skip(1)[i - 1] == row.0);
        }
    }
}

/// What was prepared and not committed in time is given up: nothing that is left
/// is too old, and nothing that ended is remembered too long.
pub proof fn lemma_nothing_prepared_outlives_its_time(
    s: AppView,
    now_ms: u64,
    row: (Seq<char>, PendingView),
    ended: (Seq<char>, CompletedView),
)
    ensures
        handoff::aged(s, now_ms).pending.contains(row) ==> now_ms - row.1.created_at_ms
            < presentations::PENDING_DELEGATION_TTL_MS,
        handoff::aged(s, now_ms).completed.contains(ended) ==> now_ms - ended.1.completed_at_ms
            < presentations::COMPLETED_DELEGATION_TTL_MS,
{
    let old_rows = s.pending.filter(handoff::pending_expired(now_ms));
    let ids = list::keys_of(old_rows);
    let given_up = presentations::failed_all(s, ids, now_ms);
    if given_up.pending.contains(row) {
        lemma_failing_filters(s, ids, now_ms, row);
        if handoff::pending_expired(now_ms)(row) {
            let i = s.pending.index_of(row);
            assert(old_rows.contains(row)) by {
                lemma_filter_finds(s.pending, handoff::pending_expired(now_ms), i);
            }
            let k = old_rows.index_of(row);
            assert(ids[k] == row.0);
        }
    }
    let kept = given_up.completed.filter(handoff::still_remembered(now_ms));
    if kept.contains(ended) {
        list::lemma_filtered_holds(given_up.completed, handoff::still_remembered(now_ms));
        let i = kept.index_of(ended);
        assert(handoff::still_remembered(now_ms)(kept[i]));
    }
}

proof fn lemma_filter_finds<W>(s: Seq<W>, p: spec_fn(W) -> bool, i: int)
    requires
        0 <= i < s.len(),
        p(s[i]),
    ensures
        s.filter(p).contains(s[i]),
    decreases s.len(),
{
    reveal(Seq::filter);
    let front = s.drop_last();
    if i < front.len() {
        lemma_filter_finds(front, p, i);
        assert(front[i] == s[i]);
        let k = front.filter(p).index_of(s[i]);
        assert(s.filter(p)[k] == s[i]);
    } else {
        assert(s.filter(p).last() == s[i]);
    }
}

/// A pane that was handed back is presented by this host again: its delegation
/// is over, it has a workspace of its own, and nothing waits to take it over.
pub proof fn lemma_handed_off_pane_is_back(
    s: AppView,
    public_pane_id: Seq<char>,
    home: PlaceView,
    now_ms: u64,
)
    requires
        handoff::handed_off(s, public_pane_id, home, now_ms).1 is Ok,
    ensures
        ({
            let (id, d) = list::first(s.delegated, presentations::publicly(s, public_pane_id))->0;
            let after = handoff::handed_off(s, public_pane_id, home, now_ms).0;
            &&& !list::present(after.delegated, id)
            &&& list::lookup(after.completed, id) matches Some(c) && c.info.status
                == TerminalDelegationStatus::HandedOff
            &&& after.workspaces.last().panes[0].terminal_id == d.moved.terminal_id
            &&& after.workspaces.last().panes[0].pane_id == d.moved.pane_id
            &&& after.workspaces.drop_last() == s.workspaces
            &&& forall|row: (Seq<char>, PendingView)| #[trigger]
                after.pending.contains(row) ==> !presentations::takes_over(id)(row)
        }),
{
    let (id, d) = list::first(s.delegated, presentations::publicly(s, public_pane_id))->0;
    let after = handoff::handed_off(s, public_pane_id, home, now_ms).0;
    let taken = AppView { delegated: list::without(s.delegated, id), ..s };
    let back = handoff::rehomed(taken, d, home);
    let waiting = back.pending.filter(presentations::takes_over(id));
    let ids = list::keys_of(waiting);
    letting_go::lemma_without_gone(s.delegated, id);
    presentations::lemma_failing_keeps(back, ids, now_ms);
    let left = presentations::takeovers_failed(back, id, now_ms);
    lemma_with_found(
        left.completed,
        id,
        CompletedView {
            info: DelegationView {
                status: TerminalDelegationStatus::HandedOff,
                ..d.info
            },
            completed_at_ms: now_ms,
        },
    );
    assert(after.workspaces.drop_last() =~= s.workspaces);
    assert forall|row: (Seq<char>, PendingView)| #[trigger]
        after.pending.contains(row) implies !presentations::takes_over(id)(row) by {
        lemma_failing_filters(back, ids, now_ms, row);
        if presentations::takes_over(id)(row) {
            lemma_filter_finds(
                back.pending,
                presentations::takes_over(id),
                back.pending.index_of(row),
            );
            let k = waiting.index_of(row);
            assert(ids[k] == row.0);
        }
    }
}

} // verus!
