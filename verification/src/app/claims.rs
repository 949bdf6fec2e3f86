//! What a host that claims a terminal is promised.

use vstd::prelude::*;
use vstd::string::*;

use super::list;
use super::remote_presentations::{
    self as presentations, DetachedView, NewShell, Refusal, TerminalTarget,
};
use super::resumption;
use super::{
    AppView, DelegatedView, EffectView, MovedView, PendingView, PlaceView, SourceView,
};
use crate::api::schema::peers::{DelegationView, OwnerView, TerminalDelegationStatus};

verus! {

/// `k` is where the pane of that number is, among the panes of the workspace that it was
/// found in.
pub open spec fn found_at(s: AppView, t: TerminalTarget, k: int) -> bool {
    &&& t.ws_idx < s.workspaces.len()
    &&& 0 <= k < s.workspaces[t.ws_idx as int].panes.len()
    &&& s.workspaces[t.ws_idx as int].panes[k].pane_id == t.pane_id
    &&& forall|j: int|
        0 <= j < k ==> (#[trigger] s.workspaces[t.ws_idx as int].panes[j]).pane_id != t.pane_id
}

/// The delegated pane goes by the target: its terminal, one of its pane ids, now or
/// before, or the agent in it.
pub open spec fn delegated_as(s: AppView, d: DelegatedView, target: Seq<char>) -> bool {
    ||| d.info.terminal_id == target
    ||| d.info.pane_id == target
    ||| d.place.pane_id == target
    ||| list::lookup(s.public_pane_id_aliases, target) == Some(d.moved.pane_id)
    ||| (list::lookup(s.terminals, d.moved.terminal_id) matches Some(t) && (t.agent_name == Some(
        target,
    ) || t.agent_label == Some(target)))
}

/// No host presents what goes by the target.
pub open spec fn delegated_to_none(s: AppView, target: Seq<char>) -> bool {
    forall|i: int| 0 <= i < s.delegated.len() ==> !delegated_as(s, (#[trigger] s.delegated[i]).1, target)
}

/// Why a host may not be given a terminal: it is not named, its route does not begin
/// with it, repeats a host, is too long, or leads through this one.
pub open spec fn route_is_sound(owner: OwnerView, local_peer_id: Seq<char>) -> bool {
    &&& owner.peer_id.len() > 0
    &&& owner.pane_id.len() > 0
    &&& 0 < owner.route.len() < 32
    &&& owner.route[0] == owner.peer_id
    &&& forall|i: int, j: int|
        0 <= i < j < owner.route.len() ==> #[trigger] owner.route[i] != #[trigger] owner.route[j]
    &&& forall|i: int| 0 <= i < owner.route.len() ==> #[trigger] owner.route[i] != local_peer_id
}

/// A host is given a terminal exactly if its route is sound.
pub proof fn lemma_sound_routes_are_accepted(owner: OwnerView, local_peer_id: Seq<char>)
    ensures
        presentations::route_objection(owner, local_peer_id) is None <==> route_is_sound(
            owner,
            local_peer_id,
        ),
{
    let route = owner.route;
    if presentations::route_objection(owner, local_peer_id) is None {
        assert forall|i: int| 0 <= i < route.len() implies #[trigger] route[i] != local_peer_id by {
            assert(route.contains(route[i]));
        }
    }
    if route_is_sound(owner, local_peer_id) {
        assert(route.no_duplicates()) by {
            assert forall|i: int, j: int|
                0 <= i < route.len() && 0 <= j < route.len() && i != j implies route[i]
                != route[j] by {
                if i < j {
                    assert(route[i] != route[j]);
                } else {
                    assert(route[j] != route[i]);
                }
            }
        }
        if route.contains(local_peer_id) {
            assert(route[route.index_of(local_peer_id)] == local_peer_id);
        }
    }
}

/// The delegation is of that terminal in that pane of this host, for that owner, and not
/// yet active. Its route is that of the owner, and ends here.
pub open spec fn is_offer(
    s: AppView,
    info: DelegationView,
    terminal_id: Seq<char>,
    pane_id: Seq<char>,
    owner: OwnerView,
) -> bool {
    &&& info.terminal_id == terminal_id
    &&& info.pane_id == pane_id
    &&& info.origin_peer_id == s.local_peer_id
    &&& info.owner.peer_id == owner.peer_id
    &&& info.owner.pane_id == owner.pane_id
    &&& info.owner.route == owner.route.push(s.local_peer_id)
    &&& info.status == TerminalDelegationStatus::Pending
    &&& info.epoch == 1
}

/// What was prepared waits to be committed, and nothing else has changed: under the id
/// that was answered stands what was answered, since `now_ms`.
pub open spec fn waits(
    s: AppView,
    after: AppView,
    info: DelegationView,
    source: SourceView,
    now_ms: u64,
) -> bool {
    &&& list::lookup(after.pending, info.delegation_id) == Some(
        PendingView { info, source, created_at_ms: now_ms },
    )
    &&& after == (AppView {
        pending: after.pending,
        next_delegation: after.next_delegation,
        ..s
    })
    &&& forall|id: Seq<char>|
        id != info.delegation_id ==> #[trigger] list::lookup(after.pending, id) == list::lookup(
            s.pending,
            id,
        )
}

proof fn lemma_prepared(
    s: AppView,
    terminal_id: Seq<char>,
    pane_id: Seq<char>,
    owner: OwnerView,
    source: SourceView,
    now_ms: u64,
)
    requires
        route_is_sound(owner, s.local_peer_id),
    ensures
        ({
            let info = presentations::new_info(s, terminal_id, pane_id, owner);
            &&& is_offer(s, info, terminal_id, pane_id, owner)
            &&& waits(
                s,
                presentations::prepared(s, terminal_id, pane_id, owner, source, now_ms),
                info,
                source,
                now_ms,
            )
        }),
{
    let info = presentations::new_info(s, terminal_id, pane_id, owner);
    let p = PendingView { info, source, created_at_ms: now_ms };
    assert(owner.route[owner.route.len() - 1] != s.local_peer_id);
    list::lemma_tables_change_one_key(s.pending, info.delegation_id, p, (info.delegation_id, p));
    let after = presentations::prepared(s, terminal_id, pane_id, owner, source, now_ms);
    assert forall|id: Seq<char>| id != info.delegation_id implies #[trigger] list::lookup(
        after.pending,
        id,
    ) == list::lookup(s.pending, id) by {
        list::lemma_tables_change_one_key(s.pending, info.delegation_id, p, (id, p));
    }
}

proof fn lemma_targets(s: AppView, target: Seq<char>, row: (Seq<char>, DelegatedView))
    ensures
        presentations::targets(s, target)(row) == delegated_as(s, row.1, target),
{
}

/// The claim of a pane that runs here is granted wherever the route is sound and the pane
/// has public ids. What is answered names the pane that was claimed by its public id, and
/// the terminal in it, and waits to be committed.
pub proof fn lemma_claims_name_the_claimed_pane(
    s: AppView,
    target: Seq<char>,
    owner: OwnerView,
    takeover: bool,
    terminate_on_expire: bool,
    t: TerminalTarget,
    k: int,
    now_ms: u64,
)
    requires
        route_is_sound(owner, s.local_peer_id),
        delegated_to_none(s, target),
        found_at(s, t, k),
    ensures
        ({
            let w = s.workspaces[t.ws_idx as int];
            let pane = w.panes[k];
            let (after, r) = presentations::claimed(
                s,
                target,
                owner,
                takeover,
                terminate_on_expire,
                Some(t),
                now_ms,
            );
            if pane.public_pane_id is Some && t.tab_idx < w.tabs.len()
                && w.tabs[t.tab_idx as int].public_tab_id is Some {
                &&& r is Ok
                &&& is_offer(
                    s,
                    r->Ok_0,
                    pane.terminal_id,
                    pane.public_pane_id->0,
                    owner,
                )
                &&& waits(
                    s,
                    after,
                    r->Ok_0,
                    SourceView::Existing {
                        pane_id: t.pane_id,
                        place: PlaceView {
                            pane_id: pane.public_pane_id->0,
                            workspace_id: w.id,
                            tab_id: w.tabs[t.tab_idx as int].public_tab_id->0,
                        },
                        terminate_on_expire,
                    },
                    now_ms,
                )
            } else {
                r is Err && r->Err_0.0 == "terminal_not_found"@ && after == s
            }
        }),
{
    let w = s.workspaces[t.ws_idx as int];
    let pane = w.panes[k];
    lemma_sound_routes_are_accepted(owner, s.local_peer_id);
    lemma_none_delegated(s, target);
    let p = presentations::pane_numbered(t.pane_id);
    assert forall|j: int| 0 <= j < k implies !p(#[trigger] w.panes[j]) by {
        assert(s.workspaces[t.ws_idx as int].panes[j].pane_id != t.pane_id);
    }
    resumption::lemma_first_is(w.panes, p, k);
    if pane.public_pane_id is Some && t.tab_idx < w.tabs.len()
        && w.tabs[t.tab_idx as int].public_tab_id is Some {
        let place = PlaceView {
            pane_id: pane.public_pane_id->0,
            workspace_id: w.id,
            tab_id: w.tabs[t.tab_idx as int].public_tab_id->0,
        };
        lemma_prepared(
            s,
            pane.terminal_id,
            place.pane_id,
            owner,
            SourceView::Existing { pane_id: t.pane_id, place, terminate_on_expire },
            now_ms,
        );
    }
}

proof fn lemma_none_delegated(s: AppView, target: Seq<char>)
    requires
        delegated_to_none(s, target),
    ensures
        list::first(s.delegated, presentations::targets(s, target)) is None,
{
    let p = presentations::targets(s, target);
    list::lemma_first(s.delegated, p);
    assert forall|i: int| 0 <= i < s.delegated.len() implies !p(#[trigger] s.delegated[i]) by {
        lemma_targets(s, target, s.delegated[i]);
        assert(!delegated_as(s, s.delegated[i].1, target));
    }
}

/// A pane that is claimed and then committed is the delegated pane of the public id that
/// the claim was answered with: asked for by this id, the delegation is found, active and
/// otherwise as it was answered.
pub proof fn lemma_claimed_panes_are_found_by_their_public_id(
    s: AppView,
    target: Seq<char>,
    owner: OwnerView,
    takeover: bool,
    terminate_on_expire: bool,
    t: TerminalTarget,
    k: int,
    now_ms: u64,
    later: AppView,
    detached: DetachedView,
    later_ms: u64,
)
    requires
        route_is_sound(owner, s.local_peer_id),
        delegated_to_none(s, target),
        found_at(s, t, k),
        presentations::claimed(
            s,
            target,
            owner,
            takeover,
            terminate_on_expire,
            Some(t),
            now_ms,
        ).1 is Ok,
        ({
            let pane = s.workspaces[t.ws_idx as int].panes[k];
            let (after, r) = presentations::claimed(
                s,
                target,
                owner,
                takeover,
                terminate_on_expire,
                Some(t),
                now_ms,
            );
            &&& list::lookup(later.pending, r->Ok_0.delegation_id) == list::lookup(
                after.pending,
                r->Ok_0.delegation_id,
            )
            &&& presentations::pane_anywhere(later.workspaces, t.pane_id) matches Some(p)
                && p.terminal_id == pane.terminal_id
            &&& presentations::runs(later, pane.terminal_id)
            &&& forall|i: int|
                0 <= i < later.delegated.len() ==> (#[trigger] later.delegated[i]).1.place.pane_id
                    != pane.public_pane_id->0 && list::lookup(
                    later.public_pane_id_aliases,
                    pane.public_pane_id->0,
                ) != Some(later.delegated[i].1.moved.pane_id)
        }),
    ensures
        ({
            let info = presentations::claimed(
                s,
                target,
                owner,
                takeover,
                terminate_on_expire,
                Some(t),
                now_ms,
            ).1->Ok_0;
            let (after, r) = presentations::committed(
                later,
                (info.delegation_id, info.epoch),
                info.terminal_id,
                Some(detached),
                later_ms,
            );
            &&& r == Ok::<Seq<char>, Seq<char>>(info.terminal_id)
            &&& list::first(
                after.delegated,
                presentations::publicly(after, info.pane_id),
            ) matches Some((id, d)) && id == info.delegation_id && d.info == (DelegationView {
                status: TerminalDelegationStatus::Active,
                ..info
            }) && d.moved.pane_id == t.pane_id && d.moved.terminal_id == info.terminal_id
                && d.place.pane_id == info.pane_id
        }),
{
    let w = s.workspaces[t.ws_idx as int];
    let pane = w.panes[k];
    lemma_claims_name_the_claimed_pane(
        s,
        target,
        owner,
        takeover,
        terminate_on_expire,
        t,
        k,
        now_ms,
    );
    let info = presentations::claimed(
        s,
        target,
        owner,
        takeover,
        terminate_on_expire,
        Some(t),
        now_ms,
    ).1->Ok_0;
    let p = list::lookup(later.pending, info.delegation_id)->0;
    let after = presentations::committed(
        later,
        (info.delegation_id, info.epoch),
        info.terminal_id,
        Some(detached),
        later_ms,
    ).0;
    let d = DelegatedView {
        info: DelegationView { status: TerminalDelegationStatus::Active, ..info },
        moved: MovedView {
            pane_id: t.pane_id,
            terminal_id: pane.terminal_id,
            seen: presentations::pane_anywhere(later.workspaces, t.pane_id)->0.seen,
        },
        place: p.source->Existing_place,
    };
    let before = list::without(later.delegated, info.delegation_id);
    assert(after.delegated == before.push((info.delegation_id, d)));
    assert(after.public_pane_id_aliases == later.public_pane_id_aliases);
    let hit = presentations::publicly(after, info.pane_id);
    assert forall|i: int| 0 <= i < before.len() implies !hit(#[trigger] before[i]) by {
        list::lemma_filter_contains(
            later.delegated,
            list::unkeyed::<DelegatedView>(info.delegation_id),
            before[i],
        );
        assert(before.contains(before[i]));
        let j = later.delegated.index_of(before[i]);
        assert(later.delegated[j] == before[i]);
    }
    list::lemma_first(before, hit);
    list::lemma_first_pushed(before, (info.delegation_id, d), hit);
}

/// A pane that a host presents is claimed by another only with takeover, and not while it
/// presents a terminal of a further host. What is answered then is about the same terminal
/// in the same pane, and would end the delegation that it takes over.
pub proof fn lemma_presented_panes_are_only_taken_over(
    s: AppView,
    target: Seq<char>,
    owner: OwnerView,
    takeover: bool,
    terminate_on_expire: bool,
    resolved: Option<TerminalTarget>,
    now_ms: u64,
    k: int,
)
    requires
        route_is_sound(owner, s.local_peer_id),
        0 <= k < s.delegated.len(),
        delegated_as(s, s.delegated[k].1, target),
        forall|j: int| 0 <= j < k ==> !delegated_as(s, (#[trigger] s.delegated[j]).1, target),
    ensures
        ({
            let (id, d) = s.delegated[k];
            let (after, r) = presentations::claimed(
                s,
                target,
                owner,
                takeover,
                terminate_on_expire,
                resolved,
                now_ms,
            );
            if !takeover {
                r is Err && r->Err_0.0 == "terminal_already_delegated"@ && after == s
            } else if presentations::has_downstream(s, d.moved.terminal_id) {
                r is Err && r->Err_0.0 == "nested_terminal_takeover_unsupported"@ && after == s
            } else {
                &&& r is Ok
                &&& is_offer(s, r->Ok_0, d.moved.terminal_id, d.place.pane_id, owner)
                &&& waits(
                    s,
                    after,
                    r->Ok_0,
                    SourceView::Takeover { previous_delegation_id: id },
                    now_ms,
                )
            }
        }),
{
    let (id, d) = s.delegated[k];
    let p = presentations::targets(s, target);
    lemma_sound_routes_are_accepted(owner, s.local_peer_id);
    lemma_targets(s, target, s.delegated[k]);
    assert forall|j: int| 0 <= j < k implies !p(#[trigger] s.delegated[j]) by {
        lemma_targets(s, target, s.delegated[j]);
        assert(!delegated_as(s, s.delegated[j].1, target));
    }
    resumption::lemma_first_is(s.delegated, p, k);
    lemma_prepared(
        s,
        d.moved.terminal_id,
        d.place.pane_id,
        owner,
        SourceView::Takeover { previous_delegation_id: id },
        now_ms,
    );
}

/// A terminal presents one of a further host if it is shown from there, is connected to
/// there, or is about to be.
pub proof fn lemma_terminals_present_what_they_are_linked_to(s: AppView, terminal_id: Seq<char>)
    ensures
        presentations::has_downstream(s, terminal_id) <==> {
            ||| exists|i: int|
                0 <= i < s.remote_owner_presentations.len() && (
                #[trigger] s.remote_owner_presentations[i]).0 == terminal_id
            ||| exists|i: int|
                0 <= i < s.ssh_shell_bridges.len() && (#[trigger] s.ssh_shell_bridges[i]).0
                    == terminal_id
            ||| exists|i: int|
                0 <= i < s.remote_terminal_bridges.len() && (
                #[trigger] s.remote_terminal_bridges[i]).0 == terminal_id
            ||| exists|i: int|
                0 <= i < s.pending_owner_operations.len() && (
                #[trigger] s.pending_owner_operations[i]).0 == terminal_id
            ||| exists|i: int|
                0 <= i < s.pending_owner_activations.len() && (
                #[trigger] s.pending_owner_activations[i]).1.terminal_id == terminal_id
        },
{
    list::lemma_lookup_reads_the_table(s.remote_owner_presentations, terminal_id);
    list::lemma_lookup_reads_the_table(s.ssh_shell_bridges, terminal_id);
    list::lemma_lookup_reads_the_table(s.remote_terminal_bridges, terminal_id);
    list::lemma_lookup_reads_the_table(s.pending_owner_operations, terminal_id);
    let p = presentations::for_terminal(terminal_id);
    let rows = s.pending_owner_activations;
    list::lemma_first(rows, p);
    if list::some(rows, p) {
        assert(rows[list::place(rows, p)].1.terminal_id == terminal_id);
    }
    if exists|i: int| 0 <= i < rows.len() && (#[trigger] rows[i]).1.terminal_id == terminal_id {
        let i = choose|i: int|
            0 <= i < rows.len() && (#[trigger] rows[i]).1.terminal_id == terminal_id;
        assert(p(rows[i]));
    }
}

/// A claim that is refused changes nothing, and a route that is not sound is refused.
pub proof fn lemma_refused_claims_change_nothing(
    s: AppView,
    target: Seq<char>,
    owner: OwnerView,
    takeover: bool,
    terminate_on_expire: bool,
    resolved: Option<TerminalTarget>,
    now_ms: u64,
)
    ensures
        ({
            let (after, r) = presentations::claimed(
                s,
                target,
                owner,
                takeover,
                terminate_on_expire,
                resolved,
                now_ms,
            );
            &&& r is Err ==> after == s
            &&& !route_is_sound(owner, s.local_peer_id) ==> r is Err
            &&& route_is_sound(owner, s.local_peer_id) && delegated_to_none(s, target)
                && resolved is None ==> r is Err && r->Err_0.0 == "terminal_not_found"@
        }),
{
    lemma_sound_routes_are_accepted(owner, s.local_peer_id);
    if delegated_to_none(s, target) {
        lemma_none_delegated(s, target);
    }
}

/// A shell that was started for another host is known and runs here, under the label that
/// was asked for, and its delegation names it and its pane. One that could not be taken
/// out of its workspace is ended again, and one that did not start leaves nothing behind.
pub proof fn lemma_new_shells_are_offered(
    s: AppView,
    owner: OwnerView,
    label: Option<Seq<char>>,
    created: Result<NewShell, String>,
    now_ms: u64,
)
    requires
        route_is_sound(owner, s.local_peer_id),
    ensures
        ({
            let (after, r) = presentations::shell_prepared(s, owner, label, created, now_ms);
            match created {
                Err(e) => after == s && r == Err::<DelegationView, Refusal>(
                    ("terminal_delegate_create_failed"@, e@),
                ),
                Ok(shell) => match shell.moved {
                    None => r is Err && after == (AppView {
                        effects: s.effects.push(
                            EffectView::ShutDownRuntime(shell.terminal_id@),
                        ),
                        ..s
                    }),
                    Some(moved) => {
                        let id = shell.terminal_id@;
                        &&& r is Ok
                        &&& is_offer(s, r->Ok_0, id, shell.place@.pane_id, owner)
                        &&& list::lookup(after.pending, r->Ok_0.delegation_id) == Some(
                            PendingView {
                                info: r->Ok_0,
                                source: SourceView::New { moved: moved@, place: shell.place@ },
                                created_at_ms: now_ms,
                            },
                        )
                        &&& presentations::runs(after, id)
                        &&& list::lookup(after.terminals, id) is Some
                        &&& (list::lookup(after.terminals, id)->0).cwd == shell.terminal@.cwd
                        &&& label is Some && (label->0).len() > 0 ==> (list::lookup(
                            after.terminals,
                            id,
                        )->0).manual_label == label
                        &&& label is None || (label->0).len() == 0 ==> (list::lookup(
                            after.terminals,
                            id,
                        )->0).manual_label == shell.terminal@.manual_label
                        &&& after.delegated == s.delegated && after.workspaces == s.workspaces
                    },
                },
            }
        }),
{
    match created {
        Err(_) => {},
        Ok(shell) => match shell.moved {
            None => {},
            Some(moved) => {
                let id = shell.terminal_id@;
                let t = presentations::labelled(shell.terminal@, label);
                let started = AppView {
                    terminals: list::with(s.terminals, id, t),
                    runtimes: list::with(s.runtimes, id, ()),
                    ..s
                };
                list::lemma_tables_change_one_key(s.terminals, id, t, (id, t));
                list::lemma_tables_change_one_key(s.runtimes, id, (), (id, ()));
                list::lemma_lookup_reads_the_table(started.terminals, id);
                list::lemma_lookup_reads_the_table(started.runtimes, id);
                lemma_prepared(
                    started,
                    id,
                    shell.place@.pane_id,
                    owner,
                    SourceView::New { moved: moved@, place: shell.place@ },
                    now_ms,
                );
            },
        },
    }
}

} // verus!
