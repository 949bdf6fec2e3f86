//! How the presentation of a terminal by another host is committed, and how it ends.

use vstd::prelude::*;
use vstd::string::*;

use super::claims;
use super::endings;
use super::handoff;
use super::laws;
use super::letting_go;
use super::list;
use super::release;
use super::remote_presentations::{self as presentations, DetachedView, Refusal};
use super::resumption;
use super::{
    AppView, CompletedView, DelegatedView, EffectView, MovedView, PendingView, PlaceView,
    SourceView,
};
use crate::api::schema::agents::AgentView;
use crate::api::schema::peers::{DelegationView, TerminalDelegationStatus};

verus! {

// ---------------------------------------------------------------------------
// Commits

/// What a prepared delegation is to present is still there: the terminal of its pane is
/// known and its process runs, or the delegation that it takes over is of that terminal.
pub open spec fn source_lives(s: AppView, p: PendingView) -> bool {
    match p.source {
        SourceView::New { moved, .. } => alive(s, moved.terminal_id),
        SourceView::Existing { pane_id, .. } => presentations::pane_anywhere(s.workspaces, pane_id)
            is Some && alive(
            s,
            presentations::pane_anywhere(s.workspaces, pane_id)->0.terminal_id,
        ),
        SourceView::Takeover { previous_delegation_id } => list::lookup(
            s.delegated,
            previous_delegation_id,
        ) is Some && (list::lookup(s.delegated, previous_delegation_id)->0).info.terminal_id
            == p.info.terminal_id,
    }
}

/// The terminal is known, and its process runs.
pub open spec fn alive(s: AppView, terminal_id: Seq<char>) -> bool {
    &&& exists|i: int| 0 <= i < s.terminals.len() && (#[trigger] s.terminals[i]).0 == terminal_id
    &&& exists|i: int| 0 <= i < s.runtimes.len() && (#[trigger] s.runtimes[i]).0 == terminal_id
}

proof fn lemma_alive(s: AppView, terminal_id: Seq<char>)
    ensures
        presentations::runs(s, terminal_id) == alive(s, terminal_id),
{
    list::lemma_lookup_reads_the_table(s.terminals, terminal_id);
    list::lemma_lookup_reads_the_table(s.runtimes, terminal_id);
}

/// A claim is committed exactly if it was prepared, names the epoch and the terminal that
/// were answered, what it presents is still there, and a pane that is taken over presents
/// nothing deeper. The terminal that is attached to is the one that was claimed; whoever
/// comes next on the way to the owner is told, where it is a peer.
pub proof fn lemma_commits_present_what_was_prepared(
    s: AppView,
    claim: (Seq<char>, u64),
    requested: Seq<char>,
    detached: DetachedView,
    now_ms: u64,
    p: PendingView,
)
    requires
        list::lookup(s.pending, claim.0) == Some(p),
        p.info.epoch == claim.1,
        p.info.terminal_id == requested,
        p.source matches SourceView::New { moved, .. } ==> moved.terminal_id == requested,
        p.source matches SourceView::Existing { pane_id, .. } ==> (presentations::pane_anywhere(
            s.workspaces,
            pane_id,
        ) matches Some(pane) ==> pane.terminal_id == requested),
        p.source matches SourceView::Takeover { previous_delegation_id } ==> (list::lookup(
            s.delegated,
            previous_delegation_id,
        ) matches Some(d) ==> d.moved.terminal_id == d.info.terminal_id),
    ensures
        ({
            let (after, r) = presentations::committed(
                s,
                claim,
                requested,
                Some(detached),
                now_ms,
            );
            let nested = p.source matches SourceView::Takeover { previous_delegation_id }
                && presentations::has_downstream(
                s,
                (list::lookup(s.delegated, previous_delegation_id)->0).moved.terminal_id,
            );
            if source_lives(s, p) && !nested {
                &&& r == Ok::<Seq<char>, Seq<char>>(requested)
                &&& list::lookup(after.delegated, claim.0) matches Some(d) && d.info
                    == (DelegationView { status: TerminalDelegationStatus::Active, ..p.info })
                    && d.moved.terminal_id == requested && (p.source matches SourceView::New {
                    moved,
                    place,
                } ==> d.moved == moved && d.place == place) && (p.source
                    matches SourceView::Existing { pane_id, place, .. } ==> d.moved.pane_id
                    == pane_id && d.place == place) && (p.source matches SourceView::Takeover {
                    previous_delegation_id,
                } ==> d.moved == (list::lookup(s.delegated, previous_delegation_id)->0).moved
                    && d.place == (list::lookup(s.delegated, previous_delegation_id)->0).place)
                &&& after.terminals == s.terminals && after.runtimes == s.runtimes
                &&& ({
                    let route = p.info.owner.route;
                    if route.len() >= 2 && list::lookup(s.peers, route[route.len() - 2]) is Some {
                        after.effects == s.effects.push(
                            EffectView::AcknowledgeActivation {
                                peer: list::lookup(s.peers, route[route.len() - 2])->0,
                                claim: (p.info.delegation_id, p.info.epoch),
                            },
                        )
                    } else {
                        after.effects == s.effects
                    }
                })
            } else {
                &&& r is Err
                &&& after.delegated == s.delegated
                &&& list::lookup(after.completed, p.info.delegation_id) matches Some(c)
                    && c.info.status == TerminalDelegationStatus::Failed && c.completed_at_ms
                    == now_ms
                &&& list::lookup(after.pending, claim.0) is None
            }
        }),
{
    match p.source {
        SourceView::New { moved, .. } => lemma_alive(s, moved.terminal_id),
        SourceView::Existing { pane_id, .. } => {
            if presentations::pane_anywhere(s.workspaces, pane_id) is Some {
                lemma_alive(
                    s,
                    presentations::pane_anywhere(s.workspaces, pane_id)->0.terminal_id,
                );
            }
        },
        SourceView::Takeover { .. } => {},
    }
    list::lemma_tables_change_one_key(s.pending, claim.0, p, (claim.0, p));
    let (after, r) = presentations::committed(s, claim, requested, Some(detached), now_ms);
    if r is Ok {
        laws::lemma_claim_is_used_once(
            s,
            claim,
            requested,
            Some(detached),
            now_ms,
            requested,
            None,
            now_ms,
        );
        let d = list::lookup(after.delegated, claim.0)->0;
        match p.source {
            SourceView::New { moved, place } => {
                let active = DelegatedView {
                    info: DelegationView { status: TerminalDelegationStatus::Active, ..p.info },
                    moved,
                    place,
                };
                list::lemma_tables_change_one_key(s.delegated, claim.0, active, (claim.0, active));
            },
            SourceView::Existing { pane_id, place, .. } => {
                let pane = presentations::pane_anywhere(s.workspaces, pane_id)->0;
                let active = DelegatedView {
                    info: DelegationView { status: TerminalDelegationStatus::Active, ..p.info },
                    moved: MovedView { pane_id, terminal_id: pane.terminal_id, seen: pane.seen },
                    place,
                };
                list::lemma_tables_change_one_key(s.delegated, claim.0, active, (claim.0, active));
            },
            SourceView::Takeover { previous_delegation_id } => {
                let before = list::lookup(s.delegated, previous_delegation_id)->0;
                let active = DelegatedView {
                    info: DelegationView { status: TerminalDelegationStatus::Active, ..p.info },
                    moved: before.moved,
                    place: before.place,
                };
                list::lemma_tables_change_one_key(
                    list::without(s.delegated, previous_delegation_id),
                    claim.0,
                    active,
                    (claim.0, active),
                );
            },
        }
    } else {
        let c = CompletedView {
            info: DelegationView { status: TerminalDelegationStatus::Failed, ..p.info },
            completed_at_ms: now_ms,
        };
        list::lemma_tables_change_one_key(
            s.completed,
            p.info.delegation_id,
            c,
            (p.info.delegation_id, c),
        );
    }
}

/// To commit one delegation leaves the others as they were, but for the one that it takes
/// over.
pub proof fn lemma_commits_leave_other_delegations(
    s: AppView,
    claim: (Seq<char>, u64),
    requested: Seq<char>,
    detached: Option<DetachedView>,
    now_ms: u64,
    other: Seq<char>,
)
    requires
        other != claim.0,
        list::lookup(s.pending, claim.0) matches Some(p) ==> p.source != (SourceView::Takeover {
            previous_delegation_id: other,
        }),
    ensures
        ({
            let after = presentations::committed(s, claim, requested, detached, now_ms).0;
            &&& list::lookup(after.pending, other) == list::lookup(s.pending, other)
            &&& list::lookup(after.delegated, other) == list::lookup(s.delegated, other)
        }),
{
    match list::lookup(s.pending, claim.0) {
        None => {},
        Some(p) => {
            list::lemma_without_keeps(s.pending, claim.0, other);
            let active = DelegationView { status: TerminalDelegationStatus::Active, ..p.info };
            match p.source {
                SourceView::New { moved, place } => {
                    list::lemma_with_keeps(
                        s.delegated,
                        claim.0,
                        DelegatedView { info: active, moved, place },
                        other,
                    );
                },
                SourceView::Existing { pane_id, place, .. } => {
                    if presentations::pane_anywhere(s.workspaces, pane_id) is Some {
                        let pane = presentations::pane_anywhere(s.workspaces, pane_id)->0;
                        let moved = MovedView {
                            pane_id,
                            terminal_id: pane.terminal_id,
                            seen: pane.seen,
                        };
                        list::lemma_with_keeps(
                            s.delegated,
                            claim.0,
                            DelegatedView { info: active, moved, place },
                            other,
                        );
                    }
                },
                SourceView::Takeover { previous_delegation_id } => {
                    if list::lookup(s.delegated, previous_delegation_id) is Some {
                        let d = list::lookup(s.delegated, previous_delegation_id)->0;
                        list::lemma_without_keeps(s.delegated, previous_delegation_id, other);
                        list::lemma_with_keeps(
                            list::without(s.delegated, previous_delegation_id),
                            claim.0,
                            DelegatedView { info: active, moved: d.moved, place: d.place },
                            other,
                        );
                    }
                },
            }
        },
    }
}

// ---------------------------------------------------------------------------
// What is known of a delegation

/// Who asks for a delegation by its id and epoch learns how it stands: as it was prepared,
/// as it is presented, or how it ended. Of another epoch nothing is told.
pub proof fn lemma_delegations_are_known_by_id_and_epoch(
    s: AppView,
    id: Seq<char>,
    epoch: u64,
)
    ensures
        ({
            let r = handoff::delegation_at(s, id, epoch);
            &&& r matches Some(info) ==> info.epoch == epoch
            &&& list::lookup(s.pending, id) matches Some(p) ==> (p.info.epoch == epoch ==> r
                == Some(p.info)) && (p.info.epoch != epoch ==> r is None)
            &&& list::lookup(s.pending, id) is None ==> (list::lookup(s.delegated, id) matches Some(
                d,
            ) ==> (d.info.epoch == epoch ==> r == Some(d.info)) && (d.info.epoch != epoch ==> r
                is None))
            &&& list::lookup(s.pending, id) is None && list::lookup(s.delegated, id) is None ==> (
            list::lookup(s.completed, id) matches Some(c) ==> (c.info.epoch == epoch ==> r == Some(
                c.info,
            )) && (c.info.epoch != epoch ==> r is None))
            &&& list::lookup(s.pending, id) is None && list::lookup(s.delegated, id) is None
                && list::lookup(s.completed, id) is None ==> r is None
        }),
{
}

// ---------------------------------------------------------------------------
// Hand-backs

/// The row is a delegated pane that has that public id, now or before.
pub open spec fn called(s: AppView, d: DelegatedView, public_pane_id: Seq<char>) -> bool {
    d.place.pane_id == public_pane_id || list::lookup(s.public_pane_id_aliases, public_pane_id)
        == Some(d.moved.pane_id)
}

proof fn lemma_failing_takeovers_keeps(s: AppView, ids: Seq<Seq<char>>, now_ms: u64)
    requires
        forall|k: int|
            0 <= k < ids.len() ==> (list::lookup(s.pending, #[trigger] ids[k]) matches Some(p)
                ==> p.source is Takeover),
    ensures
        ({
            let t = presentations::failed_all(s, ids, now_ms);
            t == (AppView {
                pending: t.pending,
                completed: t.completed,
                session_dirty: t.session_dirty,
                ..s
            })
        }),
    decreases ids.len(),
{
    if ids.len() > 0 {
        let next = presentations::failed_one(s, ids[0], now_ms);
        let rest = ids.skip(1);
        assert forall|k: int| 0 <= k < rest.len() implies (list::lookup(
            next.pending,
            #[trigger] rest[k],
        ) matches Some(p) ==> p.source is Takeover) by {
            assert(rest[k] == ids[k + 1]);
            if list::lookup(s.pending, ids[0]) is Some {
                if rest[k] == ids[0] {
                    letting_go::lemma_without_gone(s.pending, ids[0]);
                } else {
                    list::lemma_without_keeps(s.pending, ids[0], rest[k]);
                }
            }
        }
        lemma_failing_takeovers_keeps(next, rest, now_ms);
    }
}

/// A pane that is handed back stands in a workspace of its own, under the ids of its new
/// home, with its terminal running as before and in its directory. Its old public id still
/// leads to it. The delegation is answered, and remembered, as handed off; no other is
/// changed.
pub proof fn lemma_panes_come_home_as_they_were(
    s: AppView,
    public_pane_id: Seq<char>,
    home: PlaceView,
    now_ms: u64,
    k: int,
    other: Seq<char>,
)
    requires
        endings::named_apart(s),
        0 <= k < s.delegated.len(),
        called(s, s.delegated[k].1, public_pane_id),
        forall|j: int|
            0 <= j < k ==> !called(s, (#[trigger] s.delegated[j]).1, public_pane_id),
        !presentations::has_downstream(s, s.delegated[k].1.moved.terminal_id),
        other != s.delegated[k].0,
    ensures
        ({
            let (id, d) = s.delegated[k];
            let (after, r) = handoff::handed_off(s, public_pane_id, home, now_ms);
            let w = after.workspaces.last();
            let info = DelegationView { status: TerminalDelegationStatus::HandedOff, ..d.info };
            &&& r == Ok::<DelegationView, Refusal>(info)
            &&& list::lookup(after.completed, id) == Some(
                CompletedView { info, completed_at_ms: now_ms },
            )
            &&& list::lookup(after.delegated, id) is None
            &&& list::lookup(after.delegated, other) == list::lookup(s.delegated, other)
            &&& after.workspaces.len() == s.workspaces.len() + 1
            &&& after.workspaces.drop_last() == s.workspaces
            &&& w.id == home.workspace_id
            &&& w.panes.len() == 1 && w.tabs.len() == 1 && w.active_tab == 0
            &&& w.panes[0].pane_id == d.moved.pane_id
            &&& w.panes[0].terminal_id == d.moved.terminal_id
            &&& w.panes[0].public_pane_id == Some(home.pane_id)
            &&& w.panes[0].tab == 0 && w.panes[0].seen == d.moved.seen
            &&& w.tabs[0].public_tab_id == Some(home.tab_id)
            &&& w.tabs[0].focused == d.moved.pane_id && w.focused == Some(d.moved.pane_id)
            &&& list::lookup(s.terminals, d.moved.terminal_id) matches Some(t) ==> w.cwd == t.cwd
                && w.tabs[0].label == t.manual_label
            &&& list::lookup(after.public_pane_id_aliases, d.place.pane_id) == Some(
                d.moved.pane_id,
            )
            &&& after.terminals == s.terminals && after.runtimes == s.runtimes
            &&& after.effects == s.effects && after.peers == s.peers
            &&& after.session_dirty && after.save_scheduled
        }),
{
    let (id, d) = s.delegated[k];
    let p = presentations::publicly(s, public_pane_id);
    assert forall|j: int| 0 <= j < k implies !p(#[trigger] s.delegated[j]) by {
        assert(!called(s, s.delegated[j].1, public_pane_id));
    }
    assert(p(s.delegated[k]));
    resumption::lemma_first_is(s.delegated, p, k);
    let taken = AppView { delegated: list::without(s.delegated, id), ..s };
    let back = handoff::rehomed(taken, d, home);
    let q = presentations::takes_over(id);
    let waiting = back.pending.filter(q);
    let ids = list::keys_of(waiting);
    assert forall|n: int| 0 <= n < ids.len() implies (list::lookup(
        back.pending,
        #[trigger] ids[n],
    ) matches Some(x) ==> x.source is Takeover) by {
        let row = waiting[n];
        list::lemma_filtered_holds(back.pending, q);
        assert(q(row));
        list::lemma_filter_contains(back.pending, q, row);
        assert(waiting.contains(row));
        if list::lookup(back.pending, ids[n]) is Some {
            list::lemma_lookup_reads_the_table(back.pending, ids[n]);
            let x = list::lookup(back.pending, ids[n])->0;
            assert(back.pending.contains((ids[n], x)));
            assert(s.pending.contains(row));
        }
    }
    lemma_failing_takeovers_keeps(back, ids, now_ms);
    let left = presentations::takeovers_failed(back, id, now_ms);
    let c = CompletedView {
        info: DelegationView { status: TerminalDelegationStatus::HandedOff, ..d.info },
        completed_at_ms: now_ms,
    };
    list::lemma_tables_change_one_key(left.completed, id, c, (other, c));
    list::lemma_tables_change_one_key(s.delegated, id, d, (other, d));
    list::lemma_tables_change_one_key(
        s.public_pane_id_aliases,
        d.place.pane_id,
        d.moved.pane_id,
        (other, d.moved.pane_id),
    );
    let after = handoff::handed_off(s, public_pane_id, home, now_ms).0;
    assert(after.workspaces.drop_last() =~= s.workspaces);
}

/// A pane that no host presents cannot be handed back, and nothing changes.
pub proof fn lemma_only_presented_panes_are_handed_back(
    s: AppView,
    public_pane_id: Seq<char>,
    home: PlaceView,
    now_ms: u64,
)
    requires
        forall|j: int|
            0 <= j < s.delegated.len() ==> !called(s, (#[trigger] s.delegated[j]).1, public_pane_id),
    ensures
        handoff::handed_off(s, public_pane_id, home, now_ms).0 == s,
        handoff::handed_off(s, public_pane_id, home, now_ms).1 matches Err(e) && e.0
            == "pane_not_remotely_presented"@,
{
    let p = presentations::publicly(s, public_pane_id);
    list::lemma_first(s.delegated, p);
    assert forall|j: int| 0 <= j < s.delegated.len() implies !p(#[trigger] s.delegated[j]) by {
        assert(!called(s, s.delegated[j].1, public_pane_id));
    }
}

// ---------------------------------------------------------------------------
// What is given up

/// A prepared delegation that fails is remembered as failed. A shell that was started for
/// it is ended and forgotten, a pane that was to be ended with it is ended, and a takeover
/// ends nothing.
pub proof fn lemma_failures_end_what_was_started(s: AppView, p: PendingView, now_ms: u64)
    ensures
        ({
            let after = presentations::failed(s, p, now_ms);
            &&& list::lookup(after.completed, p.info.delegation_id) == Some(
                CompletedView {
                    info: DelegationView { status: TerminalDelegationStatus::Failed, ..p.info },
                    completed_at_ms: now_ms,
                },
            )
            &&& after.delegated == s.delegated && after.workspaces == s.workspaces
            &&& after.pending == s.pending
            &&& match p.source {
                SourceView::New { moved, .. } => {
                    &&& list::lookup(after.terminals, moved.terminal_id) is None
                    &&& list::lookup(after.runtimes, moved.terminal_id) is None
                    &&& list::present(s.runtimes, moved.terminal_id) ==> after.effects
                        == s.effects.push(EffectView::ShutDownRuntime(moved.terminal_id))
                },
                SourceView::Existing { pane_id, terminate_on_expire, .. } => {
                    let pane = presentations::pane_anywhere(s.workspaces, pane_id);
                    &&& after.terminals == s.terminals
                    &&& !terminate_on_expire ==> after.runtimes == s.runtimes && after.effects
                        == s.effects
                    &&& terminate_on_expire && pane is Some ==> list::lookup(
                        after.runtimes,
                        (pane->0).terminal_id,
                    ) is None && (list::present(s.runtimes, (pane->0).terminal_id)
                        ==> after.effects == s.effects.push(
                        EffectView::ShutDownRuntime((pane->0).terminal_id),
                    ))
                },
                SourceView::Takeover { .. } => after.terminals == s.terminals && after.runtimes
                    == s.runtimes && after.effects == s.effects,
            }
        }),
{
    let c = CompletedView {
        info: DelegationView { status: TerminalDelegationStatus::Failed, ..p.info },
        completed_at_ms: now_ms,
    };
    list::lemma_tables_change_one_key(
        s.completed,
        p.info.delegation_id,
        c,
        (p.info.delegation_id, c),
    );
    match p.source {
        SourceView::New { moved, .. } => {
            letting_go::lemma_without_gone(s.terminals, moved.terminal_id);
            letting_go::lemma_without_gone(s.runtimes, moved.terminal_id);
        },
        SourceView::Existing { pane_id, .. } => {
            if presentations::pane_anywhere(s.workspaces, pane_id) is Some {
                letting_go::lemma_without_gone(
                    s.runtimes,
                    presentations::pane_anywhere(s.workspaces, pane_id)->0.terminal_id,
                );
            }
        },
        SourceView::Takeover { .. } => {},
    }
}

proof fn lemma_failing_others_keeps(
    s: AppView,
    ids: Seq<Seq<char>>,
    now_ms: u64,
    id: Seq<char>,
)
    requires
        !ids.contains(id),
    ensures
        list::lookup(presentations::failed_all(s, ids, now_ms).pending, id) == list::lookup(
            s.pending,
            id,
        ),
    decreases ids.len(),
{
    if ids.len() > 0 {
        let next = presentations::failed_one(s, ids[0], now_ms);
        assert(ids.contains(ids[0]));
        list::lemma_without_keeps(s.pending, ids[0], id);
        if ids.skip(1).contains(id) {
            assert(ids[ids.skip(1).index_of(id) + 1] == id);
        }
        lemma_failing_others_keeps(next, ids.skip(1), now_ms, id);
    }
}

/// What was prepared half a minute ago or longer is given up and remembered as failed;
/// what was prepared later waits on. What is presented is not touched.
pub proof fn lemma_prepared_delegations_wait_half_a_minute(
    s: AppView,
    now_ms: u64,
    row: (Seq<char>, PendingView),
)
    requires
        endings::named_apart(s),
        s.pending.contains(row),
    ensures
        ({
            let after = handoff::aged(s, now_ms);
            &&& after.delegated == s.delegated && after.workspaces == s.workspaces
            &&& now_ms - row.1.created_at_ms < 30_000 ==> list::lookup(after.pending, row.0) == Some(
                row.1,
            )
            &&& now_ms - row.1.created_at_ms >= 30_000 ==> list::lookup(after.pending, row.0)
                is None && list::lookup(after.completed, row.0) == Some(
                CompletedView {
                    info: DelegationView {
                        status: TerminalDelegationStatus::Failed,
                        ..row.1.info
                    },
                    completed_at_ms: now_ms,
                },
            )
        }),
{
    let q = handoff::pending_expired(now_ms);
    let old_rows = s.pending.filter(q);
    let ids = list::keys_of(old_rows);
    let given_up = presentations::failed_all(s, ids, now_ms);
    presentations::lemma_failing_keeps(s, ids, now_ms);
    endings::lemma_row_present(s.pending, row);
    endings::lemma_row_found(s.pending, row.0);
    list::lemma_filter_contains(s.pending, q, row);
    if q(row) {
        let i = old_rows.index_of(row);
        assert(ids[i] == row.0);
        endings::lemma_failure_is_recorded(s, ids, now_ms, row);
        endings::lemma_named_fail(s, ids, now_ms, row.0);
        let c = CompletedView {
            info: DelegationView { status: TerminalDelegationStatus::Failed, ..row.1.info },
            completed_at_ms: now_ms,
        };
        lemma_filter_keeps_found(given_up.completed, handoff::still_remembered(now_ms), row.0, c);
    } else {
        if ids.contains(row.0) {
            let i = ids.index_of(row.0);
            let other = old_rows[i];
            list::lemma_filtered_holds(s.pending, q);
            assert(q(other));
            list::lemma_filter_contains(s.pending, q, other);
            assert(old_rows.contains(other));
            assert(s.pending.contains(other));
            assert(other == row);
        }
        lemma_failing_others_keeps(s, ids, now_ms, row.0);
    }
}

proof fn lemma_filter_keeps_found<W>(
    t: Seq<(Seq<char>, W)>,
    p: spec_fn((Seq<char>, W)) -> bool,
    k: Seq<char>,
    v: W,
)
    requires
        list::lookup(t, k) == Some(v),
        p((k, v)),
    ensures
        list::lookup(t.filter(p), k) == Some(v),
    decreases t.len(),
{
    reveal(Seq::filter);
    let front = t.drop_last();
    assert(front.push(t.last()) =~= t);
    list::lemma_first_pushed(front, t.last(), list::keyed::<W>(k));
    if list::lookup(front, k) == Some(v) {
        lemma_filter_keeps_found(front, p, k, v);
        if p(t.last()) {
            list::lemma_first_pushed(front.filter(p), t.last(), list::keyed::<W>(k));
        }
    } else {
        assert(list::first(front, list::keyed::<W>(k)) is None);
        list::lemma_first(front, list::keyed::<W>(k));
        let kept = front.filter(p);
        list::lemma_first(kept, list::keyed::<W>(k));
        let hit = |row: (Seq<char>, W)| !list::keyed::<W>(k)(row);
        list::lemma_filter_keeps(front, p, hit);
        assert forall|i: int| 0 <= i < kept.len() implies !list::keyed::<W>(k)(
            #[trigger] kept[i],
        ) by {
            assert(hit(kept[i]));
        }
        list::lemma_first_pushed(kept, t.last(), list::keyed::<W>(k));
    }
}

/// What has ended is remembered for half a minute.
pub proof fn lemma_ended_delegations_are_remembered_half_a_minute(
    s: AppView,
    now_ms: u64,
    id: Seq<char>,
    c: CompletedView,
)
    requires
        endings::named_apart(s),
        list::lookup(s.pending, id) is None,
        list::lookup(s.completed, id) == Some(c),
        now_ms - c.completed_at_ms < 30_000,
    ensures
        list::lookup(handoff::aged(s, now_ms).completed, id) == Some(c),
{
    let ids = list::keys_of(s.pending.filter(handoff::pending_expired(now_ms)));
    let given_up = presentations::failed_all(s, ids, now_ms);
    endings::lemma_failing_remembers(s, ids, now_ms, id);
    lemma_filter_keeps_found(given_up.completed, handoff::still_remembered(now_ms), id, c);
}

// ---------------------------------------------------------------------------
// Terminations

#[verifier::rlimit(60)]
proof fn lemma_released_alone(s: AppView, terminal_id: Seq<char>, now_ms: u64)
    requires
        !presentations::has_downstream(s, terminal_id),
    ensures
        ({
            let t = release::terminal_released(s, terminal_id, now_ms);
            &&& t.delegated == s.delegated && t.pending == s.pending && t.completed == s.completed
            &&& t.runtimes == s.runtimes && t.workspaces == s.workspaces && t.peers == s.peers
            &&& t.delegated_terminal_ids == s.delegated_terminal_ids
            &&& t.public_pane_id_aliases == s.public_pane_id_aliases
            &&& t.peer_bridges == s.peer_bridges
        }),
{
    let p = presentations::for_terminal(terminal_id);
    let rows = s.pending_owner_activations.filter(p);
    list::lemma_first(s.pending_owner_activations, p);
    if rows.len() > 0 {
        list::lemma_filtered_holds(s.pending_owner_activations, p);
        list::lemma_filter_contains(s.pending_owner_activations, p, rows[0]);
        assert(rows.contains(rows[0]));
        let i = s.pending_owner_activations.index_of(rows[0]);
        assert(p(s.pending_owner_activations[i]));
    }
    assert(rows =~= Seq::empty());
    assert(list::keys_of(rows) =~= Seq::<Seq<char>>::empty());
    reveal(release::dedicated);
    reveal_with_fuel(release::bridges_released, 2);
    reveal_with_fuel(release::activations_cancelled, 2);
    reveal_with_fuel(release::waiting_given_up, 2);
    reveal_with_fuel(release::shells_closed, 2);
    reveal_with_fuel(release::terminal_released, 2);
    assert(release::waiting_given_up(s, terminal_id, now_ms) == s);
    let keyed = list::keyed::<super::BridgeRefView>(terminal_id);
    let links = s.ssh_shell_bridges.filter(keyed);
    list::lemma_first(s.ssh_shell_bridges, keyed);
    if links.len() > 0 {
        list::lemma_filtered_holds(s.ssh_shell_bridges, keyed);
        list::lemma_filter_contains(s.ssh_shell_bridges, keyed, links[0]);
        assert(links.contains(links[0]));
        let i = s.ssh_shell_bridges.index_of(links[0]);
        assert(keyed(s.ssh_shell_bridges[i]));
    }
    assert(release::shell_bridges_of(s, terminal_id) =~= Seq::empty());
    let closed = release::shells_closed(s, terminal_id, now_ms);
    assert(closed == release::shells_left(s, terminal_id));
    assert(list::lookup(closed.remote_terminal_bridges, terminal_id) is None);
}

/// A delegation that is terminated ends with its terminal: the process is ended, nothing
/// of the pane is known any more, and the end is remembered. Delegations of other panes go
/// on. Of an unknown delegation, or another epoch, nothing is ended.
#[verifier::rlimit(60)]
pub proof fn lemma_terminations_end_one_terminal(
    s: AppView,
    id: Seq<char>,
    epoch: u64,
    d: DelegatedView,
    now_ms: u64,
    other: Seq<char>,
)
    requires
        endings::named_apart(s),
        list::lookup(s.delegated, id) == Some(d),
        list::lookup(s.pending, id) is None,
        !presentations::has_downstream(s, d.moved.terminal_id),
        other != id,
    ensures
        release::terminable(s, (id, epoch)) == (d.info.epoch == epoch),
        d.info.epoch != epoch ==> release::terminated(s, (id, epoch), now_ms) == s,
        d.info.epoch == epoch ==> ({
            let after = release::terminated(s, (id, epoch), now_ms);
            &&& list::lookup(after.delegated, id) is None
            &&& list::lookup(after.delegated, other) == list::lookup(s.delegated, other)
            &&& list::lookup(after.completed, id) == Some(
                CompletedView {
                    info: DelegationView {
                        status: TerminalDelegationStatus::Terminated,
                        ..d.info
                    },
                    completed_at_ms: now_ms,
                },
            )
            &&& list::lookup(after.terminals, d.moved.terminal_id) is None
            &&& list::lookup(after.runtimes, d.moved.terminal_id) is None
            &&& list::present(s.runtimes, d.moved.terminal_id) ==> after.effects.contains(
                EffectView::ShutDownRuntime(d.moved.terminal_id),
            )
            &&& after.workspaces == s.workspaces
        }),
{
    reveal_with_fuel(release::terminated, 2);
    if d.info.epoch == epoch {
        let dropped = AppView { delegated: list::without(s.delegated, id), ..s };
        lemma_released_alone(dropped, d.moved.terminal_id, now_ms);
        let released = release::terminal_released(dropped, d.moved.terminal_id, now_ms);
        let gone = release::pane_gone(released, d);
        let c = CompletedView {
            info: DelegationView { status: TerminalDelegationStatus::Terminated, ..d.info },
            completed_at_ms: now_ms,
        };
        let ended = presentations::ended(
            gone,
            id,
            d.info,
            TerminalDelegationStatus::Terminated,
            now_ms,
        );
        let q = presentations::takes_over(id);
        let waiting = ended.pending.filter(q);
        let ids = list::keys_of(waiting);
        assert forall|n: int| 0 <= n < ids.len() implies (list::lookup(
            ended.pending,
            #[trigger] ids[n],
        ) matches Some(x) ==> x.source is Takeover) by {
            let row = waiting[n];
            list::lemma_filtered_holds(ended.pending, q);
            assert(q(row));
            list::lemma_filter_contains(ended.pending, q, row);
            assert(waiting.contains(row));
            if list::lookup(ended.pending, ids[n]) is Some {
                list::lemma_lookup_reads_the_table(ended.pending, ids[n]);
                let x = list::lookup(ended.pending, ids[n])->0;
                assert(ended.pending.contains((ids[n], x)));
                assert(s.pending.contains(row));
            }
        }
        lemma_failing_takeovers_keeps(ended, ids, now_ms);
        list::lemma_tables_change_one_key(s.delegated, id, d, (other, d));
        list::lemma_tables_change_one_key(released.completed, id, c, (other, c));
        letting_go::lemma_without_gone(released.terminals, d.moved.terminal_id);
        letting_go::lemma_without_gone(released.runtimes, d.moved.terminal_id);
        let after = release::terminated(s, (id, epoch), now_ms);
        if list::present(s.runtimes, d.moved.terminal_id) {
            assert(after.effects.last() == EffectView::ShutDownRuntime(d.moved.terminal_id));
        }
        assert(endings::named_apart(ended)) by {
            assert forall|a: (Seq<char>, DelegatedView)| #[trigger]
                ended.delegated.contains(a) implies s.delegated.contains(a) by {
                list::lemma_filter_contains(
                    s.delegated,
                    list::unkeyed::<DelegatedView>(id),
                    a,
                );
            }
        }
        endings::lemma_failing_remembers(ended, ids, now_ms, id);
    }
}

// ---------------------------------------------------------------------------
// What is told of a presented agent

/// An agent that another host presents is still found by its names, and told of as the
/// terminal that it runs in knows it, with who presents it and by what way.
pub proof fn lemma_presented_agents_are_still_found(
    s: AppView,
    target: Seq<char>,
    k: int,
    agent: AgentView,
)
    requires
        0 <= k < s.delegated.len(),
        claims::delegated_as(s, s.delegated[k].1, target),
        forall|j: int|
            0 <= j < k ==> !claims::delegated_as(s, (#[trigger] s.delegated[j]).1, target),
    ensures
        ({
            let d = s.delegated[k].1;
            let r = handoff::delegated_agent_named(s, target);
            &&& r is Some <==> (list::lookup(s.terminals, d.moved.terminal_id) matches Some(t)
                && t.is_agent)
            &&& r is Some ==> ({
                let a = r->0;
                let t = list::lookup(s.terminals, d.moved.terminal_id)->0;
                &&& a.terminal_id == d.moved.terminal_id
                &&& a.pane_id == d.place.pane_id && a.workspace_id == d.place.workspace_id
                    && a.tab_id == d.place.tab_id
                &&& a.presentation matches Some(p) && p.origin_peer_id == d.info.origin_peer_id
                    && p.owner_peer_id == d.info.owner.peer_id && p.route == d.info.owner.route
                &&& a.name == t.agent_name && a.agent == t.agent_label && a.title == t.title
                &&& a.display_agent == t.display_agent && a.custom_status == t.custom_status
                &&& a.state_labels == t.state_labels && a.agent_session == t.agent_session
                &&& a.transport == t.remote_agent_transport && a.cwd == Some(t.cwd)
                &&& a.foreground_cwd == t.foreground_cwd && a.revision == t.revision
                &&& d.moved.seen ==> a.agent_status == t.seen_status
                &&& !d.moved.seen ==> a.agent_status == t.unseen_status
                &&& a.peer is None && !a.focused
            })
        }),
{
    let p = presentations::targets(s, target);
    assert(p(s.delegated[k]));
    assert forall|j: int| 0 <= j < k implies !p(#[trigger] s.delegated[j]) by {
        assert(!claims::delegated_as(s, s.delegated[j].1, target));
    }
    resumption::lemma_first_is(s.delegated, p, k);
}

} // verus!
