//! Panes that are handed back to their hosts: one at a time, each once, and none
//! with another.

use vstd::prelude::*;

use super::letting_go;
use super::list;
use super::release;
use super::remote_resume::{self as resume, HandoffActionView, HandoffRunView, StageView};
use super::returning;
use super::{AppView, BridgeRefView};
use crate::api::schema::peers::DelegationView;

verus! {

/// The state after a pane was handed back.
pub open spec fn without_pane(
    s: AppView,
    terminal_id: Seq<char>,
    held: Seq<BridgeRefView>,
    now_ms: u64,
) -> AppView {
    resume::given_back(s, terminal_id, held, now_ms).0
}

/// A pane that was handed back is shown no more, and all the others are still. Those
/// that could be handed back can be still, where every connection was made over SSH.
pub proof fn lemma_one_pane_is_handed_back_alone(
    s: AppView,
    terminal_id: Seq<char>,
    held: Seq<BridgeRefView>,
    now_ms: u64,
)
    ensures
        ({
            let after = without_pane(s, terminal_id, held, now_ms);
            &&& !list::present(after.remote_owner_presentations, terminal_id)
            &&& letting_go::nothing_gained(s, after)
            &&& forall|k: Seq<char>|
                k != terminal_id && list::present(s.remote_owner_presentations, k)
                    ==> #[trigger] list::present(after.remote_owner_presentations, k)
            &&& returning::over_ssh(s) && list::some(
                s.remote_owner_presentations,
                list::unkeyed(terminal_id),
            ) ==> returning::over_ssh(after) && forall|k: Seq<char>, schema: u32, unix_ms: u64|
                k != terminal_id && #[trigger] resume::returnable(s, k, schema, unix_ms) is Some
                    ==> resume::returnable(after, k, schema, unix_ms) is Some
        }),
{
    reveal(resume::given_back);
    let t = returning::let_go(s, terminal_id, held, now_ms).0;
    let after = without_pane(s, terminal_id, held, now_ms);
    returning::lemma_let_go(s, terminal_id, held, now_ms);
    letting_go::lemma_same(t, after);
    letting_go::lemma_chain(s, t, after);
    assert forall|k: Seq<char>|
        k != terminal_id && list::present(
            s.remote_owner_presentations,
            k,
        ) implies #[trigger] list::present(after.remote_owner_presentations, k) by {
        lemma_other_shown(s, terminal_id, k);
        assert(list::lookup(t.remote_owner_presentations, k) == list::lookup(
            s.remote_owner_presentations,
            k,
        ));
    }
    if returning::over_ssh(s) && list::some(
        s.remote_owner_presentations,
        list::unkeyed(terminal_id),
    ) {
        assert forall|k: Seq<char>, schema: u32, unix_ms: u64|
            k != terminal_id && #[trigger] resume::returnable(s, k, schema, unix_ms)
                is Some implies resume::returnable(after, k, schema, unix_ms) is Some by {
            lemma_still_returnable(s, t, terminal_id, k, schema, unix_ms);
            let peer_id = resume::link_of(s, k)->0;
            assert(resume::link_of(after, k) == Some(peer_id));
            assert(resume::placement_of(after, k) == resume::placement_of(t, k));
        }
    }
}

proof fn lemma_other_shown(s: AppView, terminal_id: Seq<char>, k: Seq<char>)
    requires
        k != terminal_id,
        list::present(s.remote_owner_presentations, k),
    ensures
        list::some(s.remote_owner_presentations, list::unkeyed(terminal_id)),
{
    let rows = s.remote_owner_presentations;
    list::lemma_first(rows, list::keyed(k));
    list::lemma_first(rows, list::unkeyed(terminal_id));
    let i = list::place(rows, list::keyed(k));
    assert(list::unkeyed::<DelegationView>(terminal_id)(rows[i]));
}

proof fn lemma_linked<W>(
    rows: Seq<(Seq<char>, W)>,
    k: Seq<char>,
    p: spec_fn((Seq<char>, W)) -> bool,
)
    requires
        list::lookup(rows, k) matches Some(w) && p((k, w)),
    ensures
        list::some(rows, p),
{
    list::lemma_first(rows, list::keyed(k));
    list::lemma_first(rows, p);
    let i = list::place(rows, list::keyed::<W>(k));
    assert(rows[i] == (k, list::lookup(rows, k)->0));
    assert(p(rows[i]));
}

proof fn lemma_still_returnable(
    s: AppView,
    t: AppView,
    terminal_id: Seq<char>,
    k: Seq<char>,
    schema: u32,
    unix_ms: u64,
)
    requires
        k != terminal_id,
        returning::over_ssh(s),
        returning::others_keep(s, t, terminal_id),
        resume::returnable(s, k, schema, unix_ms) is Some,
    ensures
        resume::returnable(t, k, schema, unix_ms) is Some,
{
    let peer_id = resume::link_of(s, k)->0;
    assert(resume::link_of(t, k) == Some(peer_id));
    assert(returning::linked_to(t, peer_id)) by {
        match list::lookup(t.remote_terminal_bridges, k) {
            Some(_) => lemma_linked(t.remote_terminal_bridges, k, release::by_peer(peer_id)),
            None => match list::lookup(t.ssh_shell_bridges, k) {
                Some(_) => lemma_linked(t.ssh_shell_bridges, k, release::by_peer(peer_id)),
                None => lemma_linked(t.remote_owner_peers, k, release::owned_by(peer_id)),
            },
        }
    }
    assert(returning::reachable(s, peer_id));
    assert(returning::reachable(t, peer_id));
    assert(resume::placement_of(t, k) == resume::placement_of(s, k));
    assert(list::lookup(t.remote_owner_presentations, k) is Some);
}

/// A pane that was handed back is not one to hand back any more.
pub proof fn lemma_pane_is_handed_back_once(
    s: AppView,
    terminal_id: Seq<char>,
    held: Seq<BridgeRefView>,
    schema: u32,
    unix_ms: u64,
    now_ms: u64,
)
    ensures
        resume::returnable(
            without_pane(s, terminal_id, held, now_ms),
            terminal_id,
            schema,
            unix_ms,
        ) is None,
{
    lemma_one_pane_is_handed_back_alone(s, terminal_id, held, now_ms);
}

/// A step hands back one pane at most. Every other pane that was shown from
/// another host before it is shown after it.
pub proof fn lemma_step_takes_one_pane(
    s: AppView,
    run: HandoffRunView,
    ok: bool,
    schema: u32,
    unix_ms: u64,
    now_ms: u64,
    k: Seq<char>,
)
    requires
        !handed_in(run, ok).contains(k),
        list::present(s.remote_owner_presentations, k),
    ensures
        list::present(
            resume::handoff_follows(
                s,
                run,
                ok,
                schema,
                unix_ms,
                now_ms,
            ).0.remote_owner_presentations,
            k,
        ),
{
    match run.stage {
        StageView::HandingOff(p) => {
            if ok {
                lemma_one_pane_is_handed_back_alone(s, p.terminal_id, run.held, now_ms);
                assert(handed_in(run, ok)[0] == p.terminal_id);
            }
        },
        _ => {},
    }
}

/// A pane that is not shown from another host does not come to be by what is
/// handed back after it.
pub proof fn lemma_handed_back_for_good(
    s: AppView,
    run: HandoffRunView,
    ok: bool,
    terminal_id: Seq<char>,
    schema: u32,
    unix_ms: u64,
    now_ms: u64,
)
    requires
        !list::present(s.remote_owner_presentations, terminal_id),
    ensures
        ({
            let after = resume::handoff_follows(s, run, ok, schema, unix_ms, now_ms).0;
            &&& !list::present(after.remote_owner_presentations, terminal_id)
            &&& resume::returnable(after, terminal_id, schema, unix_ms) is None
        }),
{
    match run.stage {
        StageView::HandingOff(p) => {
            lemma_one_pane_is_handed_back_alone(s, p.terminal_id, run.held, now_ms);
            reveal(letting_go::nothing_gained);
        },
        _ => {},
    }
}

/// Where no pane can be handed back, to begin anew does nothing.
pub proof fn lemma_nothing_left_to_hand_back(
    s: AppView,
    terminals: Seq<Seq<char>>,
    held: Seq<BridgeRefView>,
    schema: u32,
    unix_ms: u64,
)
    requires
        forall|i: int|
            0 <= i < terminals.len() ==> resume::returnable(
                s,
                #[trigger] terminals[i],
                schema,
                unix_ms,
            ) is None,
    ensures
        resume::next_pane(s, terminals, 0, held, schema, unix_ms).1 == HandoffActionView::Done(0),
    decreases terminals.len(),
{
    if terminals.len() > 0 {
        let rest = terminals.skip(1);
        assert forall|i: int| 0 <= i < rest.len() implies resume::returnable(
            s,
            #[trigger] rest[i],
            schema,
            unix_ms,
        ) is None by {
            assert(rest[i] == terminals[i + 1]);
        }
        lemma_nothing_left_to_hand_back(s, rest, held, schema, unix_ms);
    }
}

/// What came of one action of a run, and when.
pub struct Outcome {
    pub ok: bool,
    pub now_ms: u64,
}

/// The run as it goes on with these outcomes, until it is done or there are no
/// more of them: the state, the last action, and the terminals that were handed
/// back, in order.
pub open spec fn run_on(
    s: AppView,
    run: HandoffRunView,
    action: HandoffActionView,
    outcomes: Seq<Outcome>,
    schema: u32,
    unix_ms: u64,
) -> (AppView, HandoffActionView, Seq<Seq<char>>)
    decreases outcomes.len(),
{
    if outcomes.len() == 0 || action is Done {
        (s, action, Seq::empty())
    } else {
        let o = outcomes[0];
        let (after, next, then) = resume::handoff_follows(
            s,
            run,
            o.ok,
            schema,
            unix_ms,
            o.now_ms,
        );
        let (end, last, handed) = run_on(after, next, then, outcomes.skip(1), schema, unix_ms);
        (end, last, handed_in(run, o.ok) + handed)
    }
}

/// The terminal that this step hands back, if it does.
pub open spec fn handed_in(run: HandoffRunView, ok: bool) -> Seq<Seq<char>> {
    match run.stage {
        StageView::HandingOff(p) => if ok {
            seq![p.terminal_id]
        } else {
            Seq::empty()
        },
        _ => Seq::empty(),
    }
}

/// The pane that the run is at is shown here, and is not among those to come.
spec fn under_way(s: AppView, run: HandoffRunView, action: HandoffActionView) -> bool {
    &&& run.rest.no_duplicates()
    &&& run.stage matches StageView::Persisting(p) ==> list::present(
        s.remote_owner_presentations,
        p.terminal_id,
    ) && !run.rest.contains(p.terminal_id)
    &&& run.stage matches StageView::HandingOff(p) ==> list::present(
        s.remote_owner_presentations,
        p.terminal_id,
    ) && !run.rest.contains(p.terminal_id)
    &&& resume::countable(run)
    &&& action matches HandoffActionView::Done(n) ==> n == run.handed_off
}

/// The terminals that the run may still hand back.
spec fn to_come(run: HandoffRunView) -> Seq<Seq<char>> {
    match run.stage {
        StageView::Persisting(p) => run.rest.push(p.terminal_id),
        StageView::HandingOff(p) => run.rest.push(p.terminal_id),
        _ => run.rest,
    }
}

proof fn lemma_next_under_way(
    s: AppView,
    rest: Seq<Seq<char>>,
    handed_off: usize,
    held: Seq<BridgeRefView>,
    schema: u32,
    unix_ms: u64,
)
    requires
        rest.no_duplicates(),
        handed_off + rest.len() <= usize::MAX,
    ensures
        ({
            let (run, action) = resume::next_pane(s, rest, handed_off, held, schema, unix_ms);
            &&& under_way(s, run, action)
            &&& run.handed_off == handed_off
            &&& forall|k: Seq<char>| #[trigger] to_come(run).contains(k) ==> rest.contains(k)
        }),
    decreases rest.len(),
{
    let (run, action) = resume::next_pane(s, rest, handed_off, held, schema, unix_ms);
    if rest.len() > 0 {
        let left = rest.skip(1);
        assert forall|i: int, j: int|
            0 <= i < left.len() && 0 <= j < left.len() && i != j implies left[i] != left[j] by {
            assert(left[i] == rest[i + 1]);
            assert(left[j] == rest[j + 1]);
        }
        assert forall|k: Seq<char>| left.contains(k) implies rest.contains(k) && k != rest[0] by {
            let i = left.index_of(k);
            assert(rest[i + 1] == k);
        }
        if resume::returnable(s, rest[0], schema, unix_ms) is None {
            lemma_next_under_way(s, left, handed_off, held, schema, unix_ms);
        } else {
            assert forall|k: Seq<char>| #[trigger] to_come(run).contains(k) implies rest.contains(
                k,
            ) by {
                let i = to_come(run).index_of(k);
                if i < left.len() {
                    assert(left[i] == k);
                    assert(left.contains(k));
                } else {
                    assert(rest[0] == k);
                }
            }
        }
    }
}

proof fn lemma_run_counts(
    s: AppView,
    run: HandoffRunView,
    action: HandoffActionView,
    outcomes: Seq<Outcome>,
    schema: u32,
    unix_ms: u64,
)
    requires
        under_way(s, run, action),
    ensures
        ({
            let (end, last, handed) = run_on(s, run, action, outcomes, schema, unix_ms);
            &&& handed.no_duplicates()
            &&& forall|k: Seq<char>| #[trigger]
                handed.contains(k) ==> to_come(run).contains(k) && list::present(
                    s.remote_owner_presentations,
                    k,
                )
            &&& forall|k: Seq<char>| #[trigger]
                list::present(end.remote_owner_presentations, k) <==> list::present(
                    s.remote_owner_presentations,
                    k,
                ) && !handed.contains(k)
            &&& last matches HandoffActionView::Done(n) ==> n == run.handed_off + handed.len()
        }),
    decreases outcomes.len(),
{
    if outcomes.len() > 0 && !(action is Done) {
        let o = outcomes[0];
        let (after, next, then) = resume::handoff_follows(
            s,
            run,
            o.ok,
            schema,
            unix_ms,
            o.now_ms,
        );
        let now = handed_in(run, o.ok);
        match run.stage {
            StageView::Persisting(_) => {},
            StageView::HandingOff(p) => {
                if o.ok {
                    let held = resume::given_back(s, p.terminal_id, run.held, o.now_ms).1;
                    lemma_one_pane_is_handed_back_alone(s, p.terminal_id, run.held, o.now_ms);
                    lemma_next_under_way(
                        after,
                        run.rest,
                        (run.handed_off + 1) as usize,
                        held,
                        schema,
                        unix_ms,
                    );
                    assert(now.contains(p.terminal_id)) by {
                        assert(now[0] == p.terminal_id);
                    }
                }
            },
            _ => {
                lemma_next_under_way(s, run.rest, run.handed_off, run.held, schema, unix_ms);
            },
        }
        assert(under_way(after, next, then));
        let (end, last, later) = run_on(after, next, then, outcomes.skip(1), schema, unix_ms);
        let handed = now + later;
        lemma_run_counts(after, next, then, outcomes.skip(1), schema, unix_ms);
        assert forall|k: Seq<char>|
            list::present(s.remote_owner_presentations, k) && !now.contains(k)
                implies #[trigger] list::present(after.remote_owner_presentations, k) by {
            lemma_step_takes_one_pane(s, run, o.ok, schema, unix_ms, o.now_ms, k);
        }
        assert forall|k: Seq<char>| #[trigger]
            list::present(after.remote_owner_presentations, k) implies list::present(
            s.remote_owner_presentations,
            k,
        ) && !now.contains(k) by {
            reveal(letting_go::nothing_gained);
        }
        assert forall|k: Seq<char>| #[trigger] to_come(next).contains(k) implies to_come(
            run,
        ).contains(k) && !now.contains(k) by {
            lemma_still_to_come(run, o.ok, next, k);
        }
        assert forall|k: Seq<char>| #[trigger] handed.contains(k) implies now.contains(k)
            || later.contains(k) by {
            let i = handed.index_of(k);
            if i < now.len() {
                assert(now[i] == k);
            } else {
                assert(later[i - now.len()] == k);
            }
        }
        assert forall|k: Seq<char>| now.contains(k) || later.contains(k) implies #[trigger]
        handed.contains(k) by {
            if now.contains(k) {
                let i = now.index_of(k);
                assert(handed[i] == k);
            } else {
                let i = later.index_of(k);
                assert(handed[i + now.len()] == k);
            }
        }
        assert forall|k: Seq<char>| #[trigger] now.contains(k) implies to_come(run).contains(k)
            && list::present(s.remote_owner_presentations, k) by {
            match run.stage {
                StageView::HandingOff(p) => {
                    assert(to_come(run).last() == p.terminal_id);
                },
                _ => {},
            }
        }
        assert forall|i: int, j: int|
            0 <= i < handed.len() && 0 <= j < handed.len() && i != j implies handed[i]
            != handed[j] by {
            if i < now.len() && j >= now.len() {
                assert(later.contains(later[j - now.len()]));
                assert(now.contains(now[i]));
            } else if j < now.len() && i >= now.len() {
                assert(later.contains(later[i - now.len()]));
                assert(now.contains(now[j]));
            } else if i >= now.len() {
                assert(later[i - now.len()] != later[j - now.len()]);
            }
        }
    }
}

proof fn lemma_still_to_come(
    run: HandoffRunView,
    ok: bool,
    next: HandoffRunView,
    k: Seq<char>,
)
    requires
        to_come(next).contains(k),
        run.rest.contains(k) || (to_come(next) == to_come(run) && handed_in(run, ok).len() == 0),
        run.stage matches StageView::HandingOff(p) ==> !run.rest.contains(p.terminal_id),
    ensures
        to_come(run).contains(k),
        !handed_in(run, ok).contains(k),
{
    if run.rest.contains(k) {
        let i = run.rest.index_of(k);
        assert(to_come(run)[i] == k);
    }
}

/// Over a whole run, from its beginning with all the panes that are shown from
/// other hosts to its end, each of these panes was either handed back and is shown
/// no more, or is still shown; the run answers how many were handed back. If that
/// was all of them, to begin anew does nothing.
pub proof fn lemma_run_counts_what_it_hands_back(
    s: AppView,
    outcomes: Seq<Outcome>,
    schema: u32,
    unix_ms: u64,
    n: usize,
)
    requires
        list::keys_of(s.remote_owner_presentations).no_duplicates(),
        s.remote_owner_presentations.len() <= usize::MAX,
        ({
            let terminals = list::keys_of(s.remote_owner_presentations);
            let (run, action) = resume::next_pane(s, terminals, 0, Seq::empty(), schema, unix_ms);
            run_on(s, run, action, outcomes, schema, unix_ms).1 == HandoffActionView::Done(n)
        }),
    ensures
        ({
            let terminals = list::keys_of(s.remote_owner_presentations);
            let (run, action) = resume::next_pane(s, terminals, 0, Seq::empty(), schema, unix_ms);
            let (end, _, handed) = run_on(s, run, action, outcomes, schema, unix_ms);
            &&& n == handed.len()
            &&& handed.no_duplicates()
            &&& forall|k: Seq<char>| #[trigger] handed.contains(k) ==> terminals.contains(k)
            &&& forall|k: Seq<char>| #[trigger]
                terminals.contains(k) ==> (list::present(end.remote_owner_presentations, k)
                    <==> !handed.contains(k))
            &&& terminals.len() == 0 ==> n == 0 && end == s
            &&& end.remote_owner_presentations.len() == 0 ==> resume::next_pane(
                end,
                list::keys_of(end.remote_owner_presentations),
                0,
                Seq::empty(),
                schema,
                unix_ms,
            ).1 == HandoffActionView::Done(0)
        }),
{
    let terminals = list::keys_of(s.remote_owner_presentations);
    let (run, action) = resume::next_pane(s, terminals, 0, Seq::empty(), schema, unix_ms);
    let (end, _, handed) = run_on(s, run, action, outcomes, schema, unix_ms);
    lemma_next_under_way(s, terminals, 0, Seq::empty(), schema, unix_ms);
    lemma_run_counts(s, run, action, outcomes, schema, unix_ms);
    assert forall|k: Seq<char>| #[trigger] terminals.contains(k) implies (list::present(
        end.remote_owner_presentations,
        k,
    ) <==> !handed.contains(k)) by {
        list::lemma_key_present(s.remote_owner_presentations, k);
    }
}

/// The terminals that the run comes to, in order: those whose record it asks to
/// have written.
pub open spec fn offered(
    s: AppView,
    run: HandoffRunView,
    action: HandoffActionView,
    outcomes: Seq<Outcome>,
    schema: u32,
    unix_ms: u64,
) -> Seq<Seq<char>>
    decreases outcomes.len(),
{
    let now = match run.stage {
        StageView::Persisting(p) => seq![p.terminal_id],
        _ => Seq::empty(),
    };
    if outcomes.len() == 0 || action is Done {
        now
    } else {
        let o = outcomes[0];
        let (after, next, then) = resume::handoff_follows(
            s,
            run,
            o.ok,
            schema,
            unix_ms,
            o.now_ms,
        );
        now + offered(after, next, then, outcomes.skip(1), schema, unix_ms)
    }
}

/// The run is at the pane, or will come to it.
spec fn in_line(s: AppView, run: HandoffRunView, k: Seq<char>, schema: u32, unix_ms: u64) -> bool {
    ||| run.stage matches StageView::Persisting(p) && p.terminal_id == k
    ||| run.rest.contains(k) && resume::returnable(s, k, schema, unix_ms) is Some
}

proof fn lemma_next_in_line(
    s: AppView,
    rest: Seq<Seq<char>>,
    handed_off: usize,
    held: Seq<BridgeRefView>,
    schema: u32,
    unix_ms: u64,
    k: Seq<char>,
)
    requires
        rest.contains(k),
        resume::returnable(s, k, schema, unix_ms) is Some,
    ensures
        ({
            let (run, action) = resume::next_pane(s, rest, handed_off, held, schema, unix_ms);
            in_line(s, run, k, schema, unix_ms) && !(action is Done)
        }),
    decreases rest.len(),
{
    let i = rest.index_of(k);
    if i > 0 {
        assert(rest.skip(1)[i - 1] == k);
        if resume::returnable(s, rest[0], schema, unix_ms) is None {
            lemma_next_in_line(s, rest.skip(1), handed_off, held, schema, unix_ms, k);
        }
    }
}

proof fn lemma_in_line_is_offered(
    s: AppView,
    run: HandoffRunView,
    action: HandoffActionView,
    outcomes: Seq<Outcome>,
    schema: u32,
    unix_ms: u64,
    k: Seq<char>,
)
    requires
        under_way(s, run, action),
        in_line(s, run, k, schema, unix_ms),
        !(action is Done),
        returning::over_ssh(s),
        run_on(s, run, action, outcomes, schema, unix_ms).1 is Done,
    ensures
        offered(s, run, action, outcomes, schema, unix_ms).contains(k),
    decreases outcomes.len(),
{
    let all = offered(s, run, action, outcomes, schema, unix_ms);
    if run.stage matches StageView::Persisting(p) && p.terminal_id == k {
        assert(all[0] == k);
    } else {
        let o = outcomes[0];
        let (after, next, then) = resume::handoff_follows(
            s,
            run,
            o.ok,
            schema,
            unix_ms,
            o.now_ms,
        );
        match run.stage {
            StageView::Persisting(_) => {},
            StageView::HandingOff(p) => {
                if o.ok {
                    let held = resume::given_back(s, p.terminal_id, run.held, o.now_ms).1;
                    lemma_one_pane_is_handed_back_alone(s, p.terminal_id, run.held, o.now_ms);
                    assert(list::present(s.remote_owner_presentations, k));
                    lemma_other_shown(s, p.terminal_id, k);
                    let n = (run.handed_off + 1) as usize;
                    lemma_next_under_way(after, run.rest, n, held, schema, unix_ms);
                    lemma_next_in_line(after, run.rest, n, held, schema, unix_ms, k);
                }
            },
            _ => {
                lemma_next_under_way(s, run.rest, run.handed_off, run.held, schema, unix_ms);
                lemma_next_in_line(s, run.rest, run.handed_off, run.held, schema, unix_ms, k);
            },
        }
        let later = offered(after, next, then, outcomes.skip(1), schema, unix_ms);
        lemma_in_line_is_offered(after, next, then, outcomes.skip(1), schema, unix_ms, k);
        let i = later.index_of(k);
        assert(all[all.len() - later.len() + i] == k);
    }
}

/// A run that goes to its end comes to every pane that could be handed back when it
/// began. What is handed back on the way cuts no other pane off.
pub proof fn lemma_every_returnable_pane_is_offered(
    s: AppView,
    outcomes: Seq<Outcome>,
    schema: u32,
    unix_ms: u64,
    k: Seq<char>,
)
    requires
        list::keys_of(s.remote_owner_presentations).no_duplicates(),
        s.remote_owner_presentations.len() <= usize::MAX,
        returning::over_ssh(s),
        resume::returnable(s, k, schema, unix_ms) is Some,
        ({
            let terminals = list::keys_of(s.remote_owner_presentations);
            let (run, action) = resume::next_pane(
                s,
                terminals,
                0,
                Seq::empty(),
                schema,
                unix_ms,
            );
            run_on(s, run, action, outcomes, schema, unix_ms).1 is Done
        }),
    ensures
        ({
            let terminals = list::keys_of(s.remote_owner_presentations);
            let (run, action) = resume::next_pane(
                s,
                terminals,
                0,
                Seq::empty(),
                schema,
                unix_ms,
            );
            offered(s, run, action, outcomes, schema, unix_ms).contains(k)
        }),
{
    let terminals = list::keys_of(s.remote_owner_presentations);
    let (run, action) = resume::next_pane(s, terminals, 0, Seq::empty(), schema, unix_ms);
    list::lemma_key_present(s.remote_owner_presentations, k);
    lemma_next_under_way(s, terminals, 0, Seq::empty(), schema, unix_ms);
    lemma_next_in_line(s, terminals, 0, Seq::empty(), schema, unix_ms, k);
    lemma_in_line_is_offered(s, run, action, outcomes, schema, unix_ms, k);
}

} // verus!
