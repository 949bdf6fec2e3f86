//! What the screen shows once a pane has left it.

use vstd::prelude::*;

use super::list;
use super::remote_presentations::{self as presentations, DetachedView};
use super::{AppView, EffectView, Mode};
use crate::api::schema::peers::DelegationView;

verus! {

/// What was about the pane is about nothing any more, and what was about another still is.
pub open spec fn not_about(before: Option<u64>, after: Option<u64>, pane_id: u64) -> bool {
    after == if before == Some(pane_id) {
        None::<u64>
    } else {
        before
    }
}

/// A pane that has left its workspace leaves nothing on the screen that is about it: no
/// selection, no prompt, no mode, no notice. What is about other panes stays.
pub proof fn lemma_nothing_is_shown_of_panes_that_left(
    s: AppView,
    pane_id: u64,
    detached: DetachedView,
    other: u64,
    i: int,
)
    requires
        0 <= i < s.workspaces.len(),
        list::place(s.workspaces, presentations::holds_pane(pane_id)) == i,
    ensures
        ({
            let after = presentations::pane_taken(s, pane_id, detached);
            &&& not_about(
                s.overlays.previous_pane_focus,
                after.overlays.previous_pane_focus,
                pane_id,
            )
            &&& not_about(
                s.overlays.rename_pane_target,
                after.overlays.rename_pane_target,
                pane_id,
            )
            &&& not_about(s.overlays.selection, after.overlays.selection, pane_id)
            &&& not_about(s.overlays.copy_mode, after.overlays.copy_mode, pane_id)
            &&& s.overlays.selection == Some(pane_id) ==> !after.overlays.selection_autoscroll
            &&& !after.overlays.context_menu && !after.overlays.drag
            &&& after.pending_agent_notifications.contains(other) <==> other != pane_id
                && s.pending_agent_notifications.contains(other)
            &&& s.toast == Some((s.workspaces[i].id, pane_id)) ==> after.toast is None
            &&& s.toast != Some((s.workspaces[i].id, pane_id)) ==> after.toast == s.toast
        }),
{
    list::lemma_filter_contains(
        s.pending_agent_notifications,
        presentations::other_numbers(pane_id),
        other,
    );
}

/// A workspace that goes takes nothing but itself: whichever workspace was active or chosen
/// before is so still, at the place where it now is. Where the active one went, another
/// stands in; where none is left, none is active, and there is nothing to type into.
pub proof fn lemma_the_active_workspace_stays(s: AppView, i: int)
    requires
        0 <= i < s.workspaces.len(),
    ensures
        ({
            let after = presentations::workspace_removed(s, i);
            &&& after.workspaces == s.workspaces.remove(i)
            &&& s.workspaces.len() == 1 ==> after.active is None && after.selected == 0 && (s.mode
                == Mode::Terminal ==> after.mode == Mode::Navigate) && (s.mode != Mode::Terminal
                ==> after.mode == s.mode)
            &&& s.workspaces.len() > 1 && s.active is Some && s.active->0 < s.workspaces.len()
                ==> after.active is Some && after.active->0 < after.workspaces.len() && (s.active->0
                != i ==> after.workspaces[after.active->0 as int]
                == s.workspaces[s.active->0 as int])
            &&& s.workspaces.len() > 1 && s.active is None ==> after.active is None
            &&& s.workspaces.len() > 1 && s.selected < s.workspaces.len() ==> after.selected
                < after.workspaces.len() && (s.selected != i
                ==> after.workspaces[after.selected as int] == s.workspaces[s.selected as int])
            &&& s.workspaces.len() > 1 ==> after.mode == s.mode
        }),
{
}

/// The focus is on the pane that the active workspace has in focus.
pub proof fn lemma_the_focus_is_in_the_active_workspace(s: AppView, i: usize, pane_id: u64)
    ensures
        presentations::refocused(s).last_focus == Some((i, pane_id)) <==> s.active == Some(i) && i
            < s.workspaces.len() && s.workspaces[i as int].focused == Some(pane_id),
        (AppView { last_focus: s.last_focus, ..presentations::refocused(s) }) == s,
{
}

/// Once a pane has left, its workspace has its other panes only, as they were left; one that
/// has none goes. The focus is where the active workspace has it.
pub proof fn lemma_panes_leave_their_workspace(
    s: AppView,
    pane_id: u64,
    detached: DetachedView,
    i: int,
    j: int,
)
    requires
        0 <= i < s.workspaces.len(),
        list::place(s.workspaces, presentations::holds_pane(pane_id)) == i,
        0 <= j < s.workspaces.len(),
        j != i,
    ensures
        ({
            let after = presentations::pane_taken(s, pane_id, detached);
            let gone = forall|k: int|
                0 <= k < s.workspaces[i].panes.len() ==> (
                #[trigger] s.workspaces[i].panes[k]).pane_id == pane_id;
            &&& gone ==> after.workspaces == s.workspaces.remove(i)
            &&& !gone ==> after.workspaces.len() == s.workspaces.len() && after.workspaces[j]
                == s.workspaces[j] && after.workspaces[i].id == s.workspaces[i].id
                && after.workspaces[i].tabs == detached.tabs && after.workspaces[i].focused
                == detached.focused && after.active == s.active
            &&& !gone ==> forall|k: int|
                0 <= k < after.workspaces[i].panes.len() ==> (
                #[trigger] after.workspaces[i].panes[k]).pane_id != pane_id
            &&& after.last_focus == presentations::refocused(after).last_focus
        }),
{
    let w = s.workspaces[i];
    let left = w.panes.filter(presentations::other_panes(pane_id));
    list::lemma_filtered_holds(w.panes, presentations::other_panes(pane_id));
    if left.len() == 0 {
        assert forall|k: int| 0 <= k < w.panes.len() implies (#[trigger] w.panes[k]).pane_id
            == pane_id by {
            list::lemma_filter_contains(
                w.panes,
                presentations::other_panes(pane_id),
                w.panes[k],
            );
            assert(w.panes.contains(w.panes[k]));
        }
    } else {
        list::lemma_filter_contains(w.panes, presentations::other_panes(pane_id), left[0]);
        assert(left.contains(left[0]));
        let k = w.panes.index_of(left[0]);
        assert(w.panes[k].pane_id != pane_id);
    }
}

/// Once a delegation is active the host is told that stands before this one on its route, if
/// it is a peer, and no other.
pub proof fn lemma_the_host_before_is_told(
    s: AppView,
    info: DelegationView,
    route: Seq<Seq<char>>,
    origin: Seq<char>,
)
    requires
        route.len() > 0,
        info.owner.route == route.push(origin),
    ensures
        ({
            let after = presentations::acknowledged(s, info);
            match list::lookup(s.peers, route.last()) {
                Some(peer) => after.effects == s.effects.push(
                    EffectView::AcknowledgeActivation {
                        peer,
                        claim: (info.delegation_id, info.epoch),
                    },
                ),
                None => after.effects == s.effects,
            }
        }),
        (AppView { effects: s.effects, ..presentations::acknowledged(s, info) }) == s,
{
}

} // verus!
