//! What is over stays over: delegations that have ended, peers that were removed.

use vstd::prelude::*;

use super::api::peer_health;
use super::api::peers::{self, RemoteShellConnect};
use super::handoff;
use super::laws;
use super::letting_go;
use super::list;
use super::owners;
use super::release;
use super::remote_presentations::{self as presentations, DetachedView, Refusal};
use super::remote_resume as resume;
use super::{
    nothing_open, AppView, CompletedView, DelegatedView, PaneView, PendingView, PlaceView,
    SourceView,
};
use crate::api::schema::peers::{DelegationView, OwnerView, TerminalDelegationStatus};
use crate::remote_resume::RecordView;

verus! {

// ---------------------------------------------------------------------------
// Delegations that have ended

/// Each delegation is kept under its own name. No two active ones share a name, no
/// two prepared ones do, and no prepared one has the name of an active one.
pub open spec fn named_apart(s: AppView) -> bool {
    &&& forall|a: (Seq<char>, DelegatedView), b: (Seq<char>, DelegatedView)|
        #![trigger s.delegated.contains(a), s.delegated.contains(b)]
        s.delegated.contains(a) && s.delegated.contains(b) && a.0 == b.0 ==> a == b
    &&& forall|a: (Seq<char>, DelegatedView)| #[trigger]
        s.delegated.contains(a) ==> a.0 == a.1.info.delegation_id && !list::present(s.pending, a.0)
    &&& forall|a: (Seq<char>, PendingView)| #[trigger]
        s.pending.contains(a) ==> a.0 == a.1.info.delegation_id
    &&& forall|a: (Seq<char>, PendingView), b: (Seq<char>, PendingView)|
        #![trigger s.pending.contains(a), s.pending.contains(b)]
        s.pending.contains(a) && s.pending.contains(b) && a.0 == b.0 ==> a == b
}

pub(crate) proof fn lemma_row_present<W>(t: Seq<(Seq<char>, W)>, row: (Seq<char>, W))
    requires
        t.contains(row),
    ensures
        list::present(t, row.0),
{
    list::lemma_first(t, list::keyed::<W>(row.0));
    let i = t.index_of(row);
    assert(list::keyed::<W>(row.0)(t[i]));
}

pub(crate) proof fn lemma_row_found<W>(t: Seq<(Seq<char>, W)>, k: Seq<char>)
    requires
        list::present(t, k),
    ensures
        list::lookup(t, k) matches Some(w) && t.contains((k, w)),
{
    list::lemma_first(t, list::keyed::<W>(k));
    let i = list::place(t, list::keyed::<W>(k));
    assert(t.contains(t[i]));
}

proof fn lemma_with_rows<W>(t: Seq<(Seq<char>, W)>, k: Seq<char>, v: W, row: (Seq<char>, W))
    requires
        list::with(t, k, v).contains(row),
    ensures
        row == (k, v) || (t.contains(row) && row.0 != k),
{
    let kept = list::without(t, k);
    letting_go::lemma_without_gone(t, k);
    let i = list::with(t, k, v).index_of(row);
    if i < kept.len() {
        assert(kept[i] == row);
        assert(kept.contains(row));
        lemma_row_present(kept, row);
    }
}

/// An application that has just started has no delegation to tell apart.
pub proof fn lemma_named_apart_at_first(s: AppView)
    requires
        nothing_open(s),
    ensures
        named_apart(s),
{
}

/// To take down keeps the names apart.
pub proof fn lemma_named_apart_stays(s: AppView, t: AppView)
    requires
        named_apart(s),
        letting_go::nothing_gained(s, t),
    ensures
        named_apart(t),
{
    reveal(letting_go::nothing_gained);
}

/// A delegation that is prepared under a new name keeps the names apart.
pub proof fn lemma_prepared_named_apart(
    s: AppView,
    terminal_id: Seq<char>,
    public_pane_id: Seq<char>,
    owner: OwnerView,
    source: SourceView,
    now_ms: u64,
)
    requires
        named_apart(s),
        !list::present(
            s.delegated,
            presentations::delegation_name(terminal_id, s.next_delegation),
        ),
    ensures
        named_apart(
            presentations::prepared(s, terminal_id, public_pane_id, owner, source, now_ms),
        ),
{
    let info = presentations::new_info(s, terminal_id, public_pane_id, owner);
    let name = info.delegation_id;
    let v = PendingView { info, source, created_at_ms: now_ms };
    let t = presentations::prepared(s, terminal_id, public_pane_id, owner, source, now_ms);
    assert forall|a: (Seq<char>, DelegatedView)| #[trigger] t.delegated.contains(a) implies a.0
        == a.1.info.delegation_id && !list::present(t.pending, a.0) by {
        lemma_row_present(s.delegated, a);
        if list::present(t.pending, a.0) {
            lemma_row_found(t.pending, a.0);
            let w = list::lookup(t.pending, a.0)->0;
            lemma_with_rows(s.pending, name, v, (a.0, w));
            lemma_row_present(s.pending, (a.0, w));
        }
    }
    assert forall|a: (Seq<char>, PendingView)| #[trigger] t.pending.contains(a) implies a.0
        == a.1.info.delegation_id by {
        lemma_with_rows(s.pending, name, v, a);
    }
    assert forall|a: (Seq<char>, PendingView), b: (Seq<char>, PendingView)|
        #![trigger t.pending.contains(a), t.pending.contains(b)]
        t.pending.contains(a) && t.pending.contains(b) && a.0 == b.0 implies a == b by {
        lemma_with_rows(s.pending, name, v, a);
        lemma_with_rows(s.pending, name, v, b);
    }
}

proof fn lemma_activated_named_apart(
    s: AppView,
    t: AppView,
    id: Seq<char>,
    d: DelegatedView,
)
    requires
        named_apart(s),
        !list::present(s.pending, id),
        d.info.delegation_id == id,
        t.pending == s.pending,
        t.delegated == list::with(s.delegated, id, d),
    ensures
        named_apart(t),
{
    assert forall|a: (Seq<char>, DelegatedView)| #[trigger] t.delegated.contains(a) implies a.0
        == a.1.info.delegation_id && !list::present(t.pending, a.0) by {
        lemma_with_rows(s.delegated, id, d, a);
    }
    assert forall|a: (Seq<char>, DelegatedView), b: (Seq<char>, DelegatedView)|
        #![trigger t.delegated.contains(a), t.delegated.contains(b)]
        t.delegated.contains(a) && t.delegated.contains(b) && a.0 == b.0 implies a == b by {
        lemma_with_rows(s.delegated, id, d, a);
        lemma_with_rows(s.delegated, id, d, b);
    }
}

/// A claim that is committed, or refused, keeps the names apart.
pub proof fn lemma_committed_named_apart(
    s: AppView,
    claim: (Seq<char>, u64),
    requested: Seq<char>,
    detached: Option<DetachedView>,
    now_ms: u64,
)
    requires
        named_apart(s),
    ensures
        named_apart(presentations::committed(s, claim, requested, detached, now_ms).0),
{
    let t = presentations::committed(s, claim, requested, detached, now_ms).0;
    if list::lookup(s.pending, claim.0) is Some {
        let p = list::lookup(s.pending, claim.0)->0;
        lemma_row_found(s.pending, claim.0);
        letting_go::lemma_without_gone(s.pending, claim.0);
        let claimed = AppView { pending: list::without(s.pending, claim.0), ..s };
        assert(named_apart(claimed));
        if t.delegated == s.delegated {
            assert(t.pending == s.pending || t.pending == claimed.pending);
        } else {
            match p.source {
                SourceView::Takeover { previous_delegation_id } => {
                    letting_go::lemma_without_gone(s.delegated, previous_delegation_id);
                    let left = AppView {
                        delegated: list::without(s.delegated, previous_delegation_id),
                        ..claimed
                    };
                    assert(named_apart(left));
                    lemma_activated_named_apart(
                        left,
                        t,
                        claim.0,
                        t.delegated.last().1,
                    );
                },
                _ => {
                    lemma_activated_named_apart(claimed, t, claim.0, t.delegated.last().1);
                },
            }
        }
    }
}

proof fn lemma_claimed_end(
    s: AppView,
    cur: AppView,
    claims: Seq<(Seq<char>, u64)>,
    p: spec_fn((Seq<char>, DelegatedView)) -> bool,
    now_ms: u64,
)
    requires
        named_apart(s),
        letting_go::nothing_gained(s, cur),
        forall|row: (Seq<char>, DelegatedView)| #[trigger]
            cur.delegated.contains(row) && p(row) ==> claims.contains(owners::claim_to(row)),
    ensures
        letting_go::nothing_gained(s, owners::terminated_all(cur, claims, now_ms)),
        forall|row: (Seq<char>, DelegatedView)| #[trigger]
            owners::terminated_all(cur, claims, now_ms).delegated.contains(row) ==> !p(row),
    decreases claims.len(),
{
    if claims.len() > 0 {
        let claim = claims[0];
        let rest = claims.skip(1);
        let next = owners::one_terminated(cur, claim, now_ms);
        reveal(owners::one_terminated);
        letting_go::lemma_ending_gains_nothing(cur, claim, now_ms);
        letting_go::lemma_chain(s, cur, next);
        assert forall|row: (Seq<char>, DelegatedView)| #[trigger]
            next.delegated.contains(row) && p(row) implies rest.contains(owners::claim_to(row)) by {
            reveal(letting_go::nothing_gained);
            assert(cur.delegated.contains(row));
            assert(s.delegated.contains(row));
            if owners::claim_to(row) == claim {
                lemma_row_present(cur.delegated, row);
                lemma_row_found(cur.delegated, row.0);
                let found = list::lookup(cur.delegated, row.0)->0;
                assert(s.delegated.contains((row.0, found)));
                assert(!list::present(cur.pending, row.0));
                letting_go::lemma_terminated_is_gone(cur, claim, now_ms);
                lemma_row_present(next.delegated, row);
            }
            let i = claims.index_of(owners::claim_to(row));
            assert(rest[i - 1] == claims[i]);
        }
        lemma_claimed_end(s, next, rest, p, now_ms);
    }
}

proof fn lemma_claims_cover(
    rows: Seq<(Seq<char>, DelegatedView)>,
    p: spec_fn((Seq<char>, DelegatedView)) -> bool,
    row: (Seq<char>, DelegatedView),
)
    requires
        rows.contains(row),
        p(row),
    ensures
        owners::claims_to(rows.filter(p)).contains(owners::claim_to(row)),
    decreases rows.len(),
{
    reveal(Seq::filter);
    let before = rows.drop_last();
    if rows.last() == row {
        let kept = rows.filter(p);
        assert(kept.last() == row);
        assert(owners::claims_to(kept)[kept.len() - 1] == owners::claim_to(row));
    } else {
        let i = rows.index_of(row);
        assert(before[i] == row);
        lemma_claims_cover(before, p, row);
        let j = owners::claims_to(before.filter(p)).index_of(owners::claim_to(row));
        assert(owners::claims_to(rows.filter(p))[j] == owners::claim_to(row));
    }
}

pub(crate) proof fn lemma_named_fail(s: AppView, ids: Seq<Seq<char>>, now_ms: u64, id: Seq<char>)
    requires
        ids.contains(id),
    ensures
        !list::present(presentations::failed_all(s, ids, now_ms).pending, id),
    decreases ids.len(),
{
    let next = presentations::failed_one(s, ids[0], now_ms);
    letting_go::lemma_failed_all(next, ids.skip(1), now_ms);
    if ids[0] == id {
        letting_go::lemma_without_gone(s.pending, id);
        assert(!list::present(next.pending, id));
        reveal(letting_go::nothing_gained);
    } else {
        let i = ids.index_of(id);
        assert(ids.skip(1)[i - 1] == id);
        lemma_named_fail(next, ids.skip(1), now_ms, id);
    }
}

/// Once every delegation has been ended none is left, active or prepared.
pub proof fn lemma_none_is_left(s: AppView, now_ms: u64)
    requires
        named_apart(s),
    ensures
        owners::all_terminated(s, now_ms).delegated.len() == 0,
        owners::all_terminated(s, now_ms).pending.len() == 0,
{
    let claims = owners::claims_to(s.delegated);
    let ended = owners::terminated_all(s, claims, now_ms);
    let done = owners::all_terminated(s, now_ms);
    letting_go::lemma_same(s, s);
    assert forall|row: (Seq<char>, DelegatedView)| #[trigger]
        s.delegated.contains(row) && owners::anything()(row) implies claims.contains(
        owners::claim_to(row),
    ) by {
        let i = s.delegated.index_of(row);
        assert(claims[i] == owners::claim_to(row));
    }
    lemma_claimed_end(s, s, claims, owners::anything(), now_ms);
    let ids = list::keys_of(ended.pending);
    letting_go::lemma_failed_all(ended, ids, now_ms);
    presentations::lemma_failing_keeps(ended, ids, now_ms);
    if ended.delegated.len() > 0 {
        assert(ended.delegated.contains(ended.delegated[0]));
    }
    if done.pending.len() > 0 {
        let row = done.pending[0];
        assert(done.pending.contains(row));
        lemma_row_present(done.pending, row);
        list::lemma_key_present(ended.pending, row.0);
        assert(list::present(ended.pending, row.0)) by {
            reveal(letting_go::nothing_gained);
        }
        lemma_named_fail(ended, ids, now_ms, row.0);
    }
}

/// Once a host is lost no delegation is left whose route passes it, active or
/// prepared.
pub proof fn lemma_no_route_is_left(s: AppView, peer_id: Seq<char>, now_ms: u64)
    requires
        named_apart(s),
    ensures
        forall|row: (Seq<char>, DelegatedView)| #[trigger]
            owners::route_terminated(s, peer_id, now_ms).delegated.contains(row)
                ==> !row.1.info.owner.route.contains(peer_id),
        forall|row: (Seq<char>, PendingView)| #[trigger]
            owners::route_terminated(s, peer_id, now_ms).pending.contains(row)
                ==> !row.1.info.owner.route.contains(peer_id),
{
    let p = owners::routed_by(peer_id);
    let q = owners::pending_by(peer_id);
    let claims = owners::claims_to(s.delegated.filter(p));
    let ended = owners::terminated_all(s, claims, now_ms);
    let ids = list::keys_of(s.pending.filter(q));
    let done = owners::route_terminated(s, peer_id, now_ms);
    letting_go::lemma_same(s, s);
    assert forall|row: (Seq<char>, DelegatedView)| #[trigger]
        s.delegated.contains(row) && p(row) implies claims.contains(owners::claim_to(row)) by {
        lemma_claims_cover(s.delegated, p, row);
    }
    lemma_claimed_end(s, s, claims, p, now_ms);
    letting_go::lemma_failed_all(ended, ids, now_ms);
    letting_go::lemma_chain(s, ended, done);
    presentations::lemma_failing_keeps(ended, ids, now_ms);
    assert forall|row: (Seq<char>, DelegatedView)| #[trigger]
        done.delegated.contains(row) implies !row.1.info.owner.route.contains(peer_id) by {
        assert(ended.delegated.contains(row));
        assert(!p(row));
    }
    assert forall|row: (Seq<char>, PendingView)| #[trigger]
        done.pending.contains(row) implies !row.1.info.owner.route.contains(peer_id) by {
        reveal(letting_go::nothing_gained);
        assert(s.pending.contains(row));
        if q(row) {
            lemma_kept(s.pending, q, row);
            let i = s.pending.filter(q).index_of(row);
            assert(ids[i] == row.0);
            lemma_named_fail(ended, ids, now_ms, row.0);
            lemma_row_present(done.pending, row);
        }
    }
}

proof fn lemma_kept<W>(rows: Seq<W>, p: spec_fn(W) -> bool, row: W)
    requires
        rows.contains(row),
        p(row),
    ensures
        rows.filter(p).contains(row),
    decreases rows.len(),
{
    reveal(Seq::filter);
    let before = rows.drop_last();
    if rows.last() == row {
        assert(rows.filter(p).last() == row);
    } else {
        let i = rows.index_of(row);
        assert(before[i] == row);
        lemma_kept(before, p, row);
        let j = before.filter(p).index_of(row);
        assert(rows.filter(p)[j] == row);
    }
}

// ---------------------------------------------------------------------------
// Panes that were handed off

pub(crate) proof fn lemma_failing_remembers(s: AppView, ids: Seq<Seq<char>>, now_ms: u64, id: Seq<char>)
    requires
        named_apart(s),
        !list::present(s.pending, id),
    ensures
        list::lookup(presentations::failed_all(s, ids, now_ms).completed, id) == list::lookup(
            s.completed,
            id,
        ),
    decreases ids.len(),
{
    if ids.len() > 0 {
        let next = presentations::failed_one(s, ids[0], now_ms);
        letting_go::lemma_failed_all(s, seq![ids[0]], now_ms);
        reveal_with_fuel(presentations::failed_all, 2);
        assert(seq![ids[0]].skip(1) =~= Seq::<Seq<char>>::empty());
        lemma_named_apart_stays(s, next);
        assert(!list::present(next.pending, id)) by {
            reveal(letting_go::nothing_gained);
        }
        match list::lookup(s.pending, ids[0]) {
            Some(p) => {
                lemma_row_found(s.pending, ids[0]);
                list::lemma_with_keeps(
                    s.completed,
                    ids[0],
                    CompletedView {
                        info: DelegationView {
                            status: TerminalDelegationStatus::Failed,
                            ..p.info
                        },
                        completed_at_ms: now_ms,
                    },
                    id,
                );
            },
            None => {},
        }
        lemma_failing_remembers(next, ids.skip(1), now_ms, id);
    }
}

pub(crate) proof fn lemma_failure_is_recorded(
    s: AppView,
    ids: Seq<Seq<char>>,
    now_ms: u64,
    row: (Seq<char>, PendingView),
)
    requires
        named_apart(s),
        s.pending.contains(row),
        ids.contains(row.0),
    ensures
        list::lookup(presentations::failed_all(s, ids, now_ms).completed, row.0) == Some(
            CompletedView {
                info: DelegationView {
                    status: TerminalDelegationStatus::Failed,
                    ..row.1.info
                },
                completed_at_ms: now_ms,
            },
        ),
    decreases ids.len(),
{
    let next = presentations::failed_one(s, ids[0], now_ms);
    let rest = ids.skip(1);
    letting_go::lemma_failed_all(s, seq![ids[0]], now_ms);
    reveal_with_fuel(presentations::failed_all, 2);
    assert(seq![ids[0]].skip(1) =~= Seq::<Seq<char>>::empty());
    lemma_named_apart_stays(s, next);
    if ids[0] == row.0 {
        lemma_row_present(s.pending, row);
        lemma_row_found(s.pending, row.0);
        letting_go::lemma_without_gone(s.pending, row.0);
        laws::lemma_with_found(
            s.completed,
            row.0,
            CompletedView {
                info: DelegationView {
                    status: TerminalDelegationStatus::Failed,
                    ..row.1.info
                },
                completed_at_ms: now_ms,
            },
        );
        lemma_failing_remembers(next, rest, now_ms, row.0);
    } else {
        let i = ids.index_of(row.0);
        assert(rest[i - 1] == row.0);
        if list::lookup(s.pending, ids[0]) is Some {
            lemma_kept(s.pending, list::unkeyed(ids[0]), row);
        }
        lemma_failure_is_recorded(next, rest, now_ms, row);
    }
}

/// To hand off the pane of an active delegation, where it owns nothing deeper,
/// ends the delegation and brings the pane back: into a workspace of its own,
/// which becomes the active one only where there was none. Whoever was about to
/// take the delegation over is recorded as failed. Where the pane owns something
/// deeper, nothing changes.
pub proof fn lemma_handoff_ends_what_waits(
    s: AppView,
    public_pane_id: Seq<char>,
    home: PlaceView,
    now_ms: u64,
    id: Seq<char>,
    d: DelegatedView,
)
    requires
        named_apart(s),
        list::first(s.delegated, presentations::publicly(s, public_pane_id)) == Some((id, d)),
    ensures
        ({
            let (after, r) = handoff::handed_off(s, public_pane_id, home, now_ms);
            if presentations::has_downstream(s, d.moved.terminal_id) {
                &&& after == s
                &&& r matches Err(e) && e.0 == "nested_terminal_handoff_unsupported"@
            } else {
                &&& r == Ok::<DelegationView, Refusal>(
                    DelegationView { status: TerminalDelegationStatus::HandedOff, ..d.info },
                )
                &&& !list::present(after.delegated, id)
                &&& after.workspaces.len() == s.workspaces.len() + 1
                &&& after.workspaces.drop_last() == s.workspaces
                &&& after.workspaces.last().panes.len() == 1
                &&& after.workspaces.last().panes[0].pane_id == d.moved.pane_id
                &&& after.workspaces.last().panes[0].terminal_id == d.moved.terminal_id
                &&& forall|row: (u64, Seq<char>)| #[trigger]
                    after.delegated_terminal_ids.contains(row) ==> row.0 != d.moved.pane_id
                &&& after.active == if s.active is None {
                    Some(s.workspaces.len() as usize)
                } else {
                    s.active
                }
                &&& forall|row: (Seq<char>, PendingView)| #[trigger]
                    s.pending.contains(row) && presentations::takes_over(id)(row)
                        ==> !list::present(after.pending, row.0) && list::lookup(
                        after.completed,
                        row.0,
                    ) == Some(
                        CompletedView {
                            info: DelegationView {
                                status: TerminalDelegationStatus::Failed,
                                ..row.1.info
                            },
                            completed_at_ms: now_ms,
                        },
                    )
            }
        }),
{
    let after = handoff::handed_off(s, public_pane_id, home, now_ms).0;
    if !presentations::has_downstream(s, d.moved.terminal_id) {
        let taken = AppView { delegated: list::without(s.delegated, id), ..s };
        let back = handoff::rehomed(taken, d, home);
        let p = presentations::takes_over(id);
        let ids = list::keys_of(back.pending.filter(p));
        let left = presentations::takeovers_failed(back, id, now_ms);
        letting_go::lemma_without_gone(s.delegated, id);
        presentations::lemma_failing_keeps(back, ids, now_ms);
        assert(named_apart(back));
        list::lemma_first(s.delegated, presentations::publicly(s, public_pane_id));
        assert(s.delegated.contains((id, d))) by {
            let i = list::place(s.delegated, presentations::publicly(s, public_pane_id));
            assert(s.delegated[i] == (id, d));
        }
        assert(after.workspaces.drop_last() =~= s.workspaces);
        let other = presentations::other_delegated(d.moved.pane_id);
        list::lemma_filtered_holds(s.delegated_terminal_ids, other);
        assert forall|row: (u64, Seq<char>)| #[trigger]
            after.delegated_terminal_ids.contains(row) implies row.0 != d.moved.pane_id by {
            let kept = s.delegated_terminal_ids.filter(other);
            let i = kept.index_of(row);
            assert(other(kept[i]));
        }
        assert forall|row: (Seq<char>, PendingView)| #[trigger]
            s.pending.contains(row) && p(row) implies !list::present(after.pending, row.0)
            && list::lookup(after.completed, row.0) == Some(
            CompletedView {
                info: DelegationView {
                    status: TerminalDelegationStatus::Failed,
                    ..row.1.info
                },
                completed_at_ms: now_ms,
            },
        ) by {
            lemma_kept(s.pending, p, row);
            let i = s.pending.filter(p).index_of(row);
            assert(ids[i] == row.0);
            lemma_failure_is_recorded(back, ids, now_ms, row);
            lemma_named_fail(back, ids, now_ms, row.0);
            lemma_row_present(s.pending, row);
            list::lemma_with_keeps(
                left.completed,
                id,
                CompletedView {
                    info: DelegationView {
                        status: TerminalDelegationStatus::HandedOff,
                        ..d.info
                    },
                    completed_at_ms: now_ms,
                },
                row.0,
            );
        }
    }
}

// ---------------------------------------------------------------------------
// Panes that were got again

/// The pane that kept the place of a remote one is left open where an agent, a
/// command or another remote terminal has come to use it.
pub proof fn lemma_used_panes_stay_open(
    s: AppView,
    record: RecordView,
    id: Seq<char>,
    pane: PaneView,
    terminal_id: Seq<char>,
)
    requires
        record.placement.public_pane_id == Some(id),
        resume::pane_called(s, id) == Some(pane),
        presentations::pane_anywhere(s.workspaces, pane.pane_id) matches Some(p) && p.terminal_id
            == terminal_id,
        list::lookup(s.terminals, terminal_id) matches Some(t) && (t.is_agent || t.has_launch_argv
            || t.remote_agent_transport is Some),
    ensures
        resume::placeholder_closed(s, record) == s,
{
}

// ---------------------------------------------------------------------------
// Peers that were removed

proof fn lemma_removal_is_counted(s: AppView, peer_id: Seq<char>, now_ms: u64)
    ensures
        peers::generation_of(peers::unregistered(s, peer_id, now_ms).0, peer_id)
            == presentations::next_sequence(peers::generation_of(s, peer_id)),
{
    let next = presentations::next_sequence(peers::generation_of(s, peer_id));
    let counts = list::with(s.peer_lifecycle_generations, peer_id, next);
    let counted = AppView { peer_lifecycle_generations: counts, ..s };
    assert(list::lookup(counts, peer_id) == Some(next)) by {
        list::lemma_first(counts, list::keyed(peer_id));
        letting_go::lemma_without_gone(s.peer_lifecycle_generations, peer_id);
        let kept = list::without(s.peer_lifecycle_generations, peer_id);
        list::lemma_first(kept, list::keyed(peer_id));
        let i = list::place(counts, list::keyed(peer_id));
        assert(list::keyed(peer_id)(counts[kept.len() as int]));
        if i < kept.len() {
            assert(counts[i] == kept[i]);
        }
    }
    if list::lookup(s.peers, peer_id) is Some {
        let known = AppView { peers: list::without(s.peers, peer_id), ..counted };
        let unrouted = peers::peer_routes_gone(known, peer_id, now_ms);
        let unshown = peers::peer_terminals_gone(unrouted, peer_id, now_ms);
        reveal(peers::peer_routes_gone);
        reveal(peers::peer_terminals_gone);
        lemma_routes_gain_nothing(known, peer_id, now_ms);
        letting_go::lemma_taking_down_gains_nothing(
            unrouted,
            peers::terminals_of_peer(unrouted, peer_id),
            now_ms,
        );
        letting_go::lemma_activations(
            unshown,
            list::keys_of(unshown.pending_owner_activations.filter(release::over_peer(peer_id))),
        );
        reveal(letting_go::nothing_gained);
    }
}

/// A peer that this server has no connection to is not there any more once it was removed.
pub proof fn lemma_removed_peers_are_gone(s: AppView, peer_id: Seq<char>, now_ms: u64)
    requires
        !list::present(s.peer_bridges, peer_id),
    ensures
        list::lookup(peers::unregistered(s, peer_id, now_ms).0.peers, peer_id) is None,
{
    let counted = AppView {
        peer_lifecycle_generations: list::with(
            s.peer_lifecycle_generations,
            peer_id,
            presentations::next_sequence(peers::generation_of(s, peer_id)),
        ),
        ..s
    };
    if list::lookup(s.peers, peer_id) is Some {
        let known = AppView { peers: list::without(s.peers, peer_id), ..counted };
        let unrouted = peers::peer_routes_gone(known, peer_id, now_ms);
        let unshown = peers::peer_terminals_gone(unrouted, peer_id, now_ms);
        reveal(peers::peer_routes_gone);
        reveal(peers::peer_terminals_gone);
        lemma_routes_gain_nothing(known, peer_id, now_ms);
        letting_go::lemma_taking_down_gains_nothing(
            unrouted,
            peers::terminals_of_peer(unrouted, peer_id),
            now_ms,
        );
        letting_go::lemma_chain(known, unrouted, unshown);
        letting_go::lemma_without_gone(s.peers, peer_id);
        reveal(letting_go::nothing_gained);
        let ids = list::keys_of(
            unshown.pending_owner_activations.filter(release::over_peer(peer_id)),
        );
        let idle = release::activations_cancelled(unshown, ids);
        letting_go::lemma_activations(unshown, ids);
        letting_go::lemma_chain(known, unshown, idle);
        let after = peers::unregistered(s, peer_id, now_ms).0;
        assert(after.peers == idle.peers);
        assert(!list::present(idle.peers, peer_id));
    }
}

/// A peer that connected to this server and was not heard of in time is gone, unless this
/// server has a connection to it of its own. No other peer comes about by that.
pub proof fn lemma_unheard_peers_are_gone(
    s: AppView,
    peer_id: Seq<char>,
    now_ms: u64,
    other: Seq<char>,
)
    requires
        peer_health::comes_in(s, peer_id),
    ensures
        ({
            let after = peer_health::incoming_gone(s, peer_id, now_ms);
            &&& !list::present(s.peer_bridges, peer_id) ==> list::lookup(after.peers, peer_id)
                is None
            &&& list::lookup(after.peers, other) is Some ==> list::lookup(s.peers, other) is Some
                || list::present(s.peer_bridges, other)
            &&& after.session_dirty
        }),
{
    reveal(peer_health::incoming_gone);
    reveal(peers::peer_routes_gone);
    let undue = AppView {
        incoming_peer_deadlines: list::without(s.incoming_peer_deadlines, peer_id),
        ..s
    };
    let known = release::refresh_cancelled(
        AppView { peers: list::without(s.peers, peer_id), ..undue },
        peer_id,
    );
    lemma_routes_gain_nothing(known, peer_id, now_ms);
    letting_go::lemma_without_gone(s.peers, peer_id);
    reveal(letting_go::nothing_gained);
    let after = peer_health::incoming_gone(s, peer_id, now_ms);
    assert(list::present(after.peers, peer_id) == (list::lookup(after.peers, peer_id) is Some));
    assert(list::present(after.peers, other) == (list::lookup(after.peers, other) is Some));
}

proof fn lemma_claims_gain_nothing(s: AppView, claims: Seq<(Seq<char>, u64)>, now_ms: u64)
    ensures
        letting_go::nothing_gained(s, owners::terminated_all(s, claims, now_ms)),
    decreases claims.len(),
{
    letting_go::lemma_same(s, s);
    if claims.len() > 0 {
        let next = owners::one_terminated(s, claims[0], now_ms);
        reveal(owners::one_terminated);
        letting_go::lemma_ending_gains_nothing(s, claims[0], now_ms);
        lemma_claims_gain_nothing(next, claims.skip(1), now_ms);
        letting_go::lemma_chain(s, next, owners::terminated_all(s, claims, now_ms));
    }
}

proof fn lemma_routes_gain_nothing(s: AppView, peer_id: Seq<char>, now_ms: u64)
    ensures
        letting_go::nothing_gained(s, owners::route_terminated(s, peer_id, now_ms)),
{
    let claims = owners::claims_to(s.delegated.filter(owners::routed_by(peer_id)));
    let ended = owners::terminated_all(s, claims, now_ms);
    let ids = list::keys_of(s.pending.filter(owners::pending_by(peer_id)));
    lemma_claims_gain_nothing(s, claims, now_ms);
    letting_go::lemma_failed_all(ended, ids, now_ms);
    letting_go::lemma_chain(s, ended, owners::route_terminated(s, peer_id, now_ms));
}

/// A connection that was begun before its peer was removed is not kept when it
/// comes about afterwards.
pub proof fn lemma_removal_cancels_a_connection(
    s: AppView,
    peer_id: Seq<char>,
    owner: Option<Seq<char>>,
    connected: RemoteShellConnect,
    removed_ms: u64,
    now_ms: u64,
)
    ensures
        peers::connect_finished(
            peers::unregistered(s, peer_id, removed_ms).0,
            peer_id,
            peers::generation_of(s, peer_id),
            owner,
            Ok(connected),
            now_ms,
        ).1 == Err::<peers::ConnectedView, _>(peers::connect_cancelled(peer_id)),
{
    lemma_removal_is_counted(s, peer_id, removed_ms);
}

} // verus!
