//! How presentations by other hosts end, and what is known of them.

use vstd::prelude::*;
use vstd::string::*;

use super::list::{self, List};
use super::remote_presentations::{self as presentations, Refusal};
use super::{
    App, AppView, CompletedTerminalDelegation, CompletedView, DelegatedPane, DelegatedView, Pane,
    PaneView, PendingDelegationSource, PendingTerminalDelegation, PendingView, PlaceView,
    PublicPlace, SourceView, Tab, TabView, TerminalView, Workspace, WorkspaceView,
};
use crate::api::schema::agents::{AgentInfo, AgentPresentationInfo, AgentView, PresentationView};
use crate::api::schema::common::ErrorBody;
use crate::api::schema::peers::{DelegationView, TerminalDelegationInfo, TerminalDelegationStatus};
use crate::text;

verus! {

/// What is known of a delegation, whatever its state.
pub open spec fn delegation_known(s: AppView, delegation_id: Seq<char>) -> Option<DelegationView> {
    match list::lookup(s.pending, delegation_id) {
        Some(p) => Some(p.info),
        None => match list::lookup(s.delegated, delegation_id) {
            Some(d) => Some(d.info),
            None => match list::lookup(s.completed, delegation_id) {
                Some(c) => Some(c.info),
                None => None,
            },
        },
    }
}

/// Where a pane that is handed back goes: a workspace of its own.
pub open spec fn new_home(d: DelegatedView, terminal: Option<TerminalView>, home: PlaceView) -> WorkspaceView {
    WorkspaceView {
        id: home.workspace_id,
        cwd: match terminal {
            Some(t) => t.cwd,
            None => "/"@,
        },
        tabs: seq![
            TabView {
                public_tab_id: Some(home.tab_id),
                label: match terminal {
                    Some(t) => t.manual_label,
                    None => None,
                },
                focused: d.moved.pane_id,
            },
        ],
        active_tab: 0,
        panes: seq![
            PaneView {
                pane_id: d.moved.pane_id,
                terminal_id: d.moved.terminal_id,
                public_pane_id: Some(home.pane_id),
                tab: 0,
                seen: d.moved.seen,
            },
        ],
        focused: Some(d.moved.pane_id),
    }
}

/// The pane is back on this screen, in a workspace of its own.
pub open spec fn rehomed(s: AppView, d: DelegatedView, home: PlaceView) -> AppView {
    let i = s.workspaces.len() as usize;
    AppView {
        delegated_terminal_ids: s.delegated_terminal_ids.filter(
            presentations::other_delegated(d.moved.pane_id),
        ),
        workspaces: s.workspaces.push(
            new_home(d, list::lookup(s.terminals, d.moved.terminal_id), home),
        ),
        public_pane_id_aliases: list::with(
            s.public_pane_id_aliases,
            d.place.pane_id,
            d.moved.pane_id,
        ),
        active: if s.active is None {
            Some(i)
        } else {
            s.active
        },
        selected: if s.active is None {
            i
        } else {
            s.selected
        },
        ..s
    }
}

/// What comes of handing the pane of a public id back to this host.
pub open spec fn handed_off(
    s: AppView,
    public_pane_id: Seq<char>,
    home: PlaceView,
    now_ms: u64,
) -> (AppView, Result<DelegationView, Refusal>) {
    match list::first(s.delegated, presentations::publicly(s, public_pane_id)) {
        None => (
            s,
            Err(
                (
                    "pane_not_remotely_presented"@,
                    "remote-handoff only works in the currently delegated remote pane"@,
                ),
            ),
        ),
        Some((delegation_id, d)) => if presentations::has_downstream(s, d.moved.terminal_id) {
            (
                s,
                Err(
                    (
                        "nested_terminal_handoff_unsupported"@,
                        "this pane currently owns a deeper remote presentation; hand off or close the innermost pane first"@,
                    ),
                ),
            )
        } else {
            let back = rehomed(
                AppView { delegated: list::without(s.delegated, delegation_id), ..s },
                d,
                home,
            );
            (
                AppView {
                    session_dirty: true,
                    save_scheduled: true,
                    ..presentations::ended(
                        presentations::takeovers_failed(back, delegation_id, now_ms),
                        delegation_id,
                        d.info,
                        TerminalDelegationStatus::HandedOff,
                        now_ms,
                    )
                },
                Ok(DelegationView { status: TerminalDelegationStatus::HandedOff, ..d.info }),
            )
        },
    }
}

/// What the claimant of that epoch is told of a delegation.
pub open spec fn delegation_at(s: AppView, delegation_id: Seq<char>, epoch: u64) -> Option<
    DelegationView,
> {
    match delegation_known(s, delegation_id) {
        Some(info) => if info.epoch == epoch {
            Some(info)
        } else {
            None
        },
        None => None,
    }
}

impl App {
    /// What is known of a delegation, as the claimant of that epoch may ask.
    pub fn terminal_delegation_info(&self, delegation_id: &str, epoch: u64) -> (r: Option<
        TerminalDelegationInfo,
    >)
        ensures
            text::viewed(r) == delegation_at(self@, delegation_id@, epoch),
    {
        let info = match self.pending.get(delegation_id) {
            Some(p) => &p.info,
            None => match self.delegated.get(delegation_id) {
                Some(d) => &d.info,
                None => match self.completed.get(delegation_id) {
                    Some(c) => &c.info,
                    None => return None,
                },
            },
        };
        if info.epoch == epoch {
            Some(info.clone())
        } else {
            None
        }
    }

    fn rehome(&mut self, d: &DelegatedPane, home: PublicPlace)
        requires
            old(self)@.workspaces.len() < usize::MAX,
        ensures
            final(self)@ == rehomed(old(self)@, d@, home@),
    {
        let pane_id: u64 = d.moved.pane_id;
        let other = |row: &(u64, String)| -> (b: bool)
            ensures
                b == (row@.0 != pane_id),
        {
            row.0 != pane_id
        };
        self.delegated_terminal_ids.retain_by(
            other,
            Ghost(presentations::other_delegated(pane_id)),
        );
        let (cwd, label) = match self.terminals.get(d.moved.terminal_id.as_str()) {
            Some(t) => (t.cwd.clone(), text::clone_opt(&t.manual_label)),
            None => ("/".to_string(), None),
        };
        let mut tabs: List<Tab> = List::new();
        tabs.push(Tab { public_tab_id: Some(home.tab_id), label, focused: pane_id });
        let mut panes: List<Pane> = List::new();
        panes.push(
            Pane {
                pane_id,
                terminal_id: d.moved.terminal_id.clone(),
                public_pane_id: Some(home.pane_id),
                tab: 0,
                seen: d.moved.seen,
            },
        );
        let w = Workspace {
            id: home.workspace_id,
            cwd,
            tabs,
            active_tab: 0,
            panes,
            focused: Some(pane_id),
        };
        assert(w@.tabs =~= new_home(
            d@,
            list::lookup(old(self)@.terminals, d@.moved.terminal_id),
            home@,
        ).tabs);
        assert(w@.panes =~= new_home(
            d@,
            list::lookup(old(self)@.terminals, d@.moved.terminal_id),
            home@,
        ).panes);
        let i: usize = self.workspaces.len();
        self.workspaces.push(w);
        self.public_pane_id_aliases.insert(d.place.pane_id.clone(), pane_id);
        if self.active.is_none() {
            self.active = Some(i);
            self.selected = i;
        }
    }

    /// Takes a delegated pane back into a workspace of this host. `home` is the
    /// place that it gets.
    pub fn handoff_delegated_pane(
        &mut self,
        public_pane_id: &str,
        home: PublicPlace,
        now_ms: u64,
    ) -> (r: Result<TerminalDelegationInfo, ErrorBody>)
        requires
            old(self)@.workspaces.len() < usize::MAX,
        ensures
            final(self)@ == handed_off(old(self)@, public_pane_id@, home@, now_ms).0,
            text::outcome(r) == handed_off(old(self)@, public_pane_id@, home@, now_ms).1,
    {
        let i = match self.delegated_index(public_pane_id) {
            Some(i) => i,
            None => {
                return Err(
                    ErrorBody::new(
                        "pane_not_remotely_presented",
                        "remote-handoff only works in the currently delegated remote pane",
                    ),
                );
            },
        };
        if self.terminal_has_downstream_presentation(
            self.delegated.at(i).1.moved.terminal_id.as_str(),
        ) {
            return Err(
                ErrorBody::new(
                    "nested_terminal_handoff_unsupported",
                    "this pane currently owns a deeper remote presentation; hand off or close the innermost pane first",
                ),
            );
        }
        let ghost before = self@.delegated;
        let (delegation_id, d) = self.delegated.remove_at(i);
        proof {
            list::lemma_without_removed(before, i as int);
        }
        self.delegated.discard(delegation_id.as_str());
        self.rehome(&d, home);
        self.fail_pending_takeovers_for(delegation_id.as_str(), now_ms);
        let mut answer = d.info.clone();
        answer.status = TerminalDelegationStatus::HandedOff;
        self.complete(
            delegation_id.as_str(),
            d.info,
            TerminalDelegationStatus::HandedOff,
            now_ms,
        );
        self.session_dirty = true;
        self.save_scheduled = true;
        Ok(answer)
    }
}

// ---------------------------------------------------------------------------
// Time

pub open spec fn pending_expired(now_ms: u64) -> spec_fn((Seq<char>, PendingView)) -> bool {
    |row: (Seq<char>, PendingView)|
        now_ms - row.1.created_at_ms >= presentations::PENDING_DELEGATION_TTL_MS
}

pub open spec fn still_remembered(now_ms: u64) -> spec_fn((Seq<char>, CompletedView)) -> bool {
    |row: (Seq<char>, CompletedView)|
        now_ms - row.1.completed_at_ms < presentations::COMPLETED_DELEGATION_TTL_MS
}

/// What is left when what was prepared too long ago was given up and what ended
/// too long ago forgotten.
pub open spec fn aged(s: AppView, now_ms: u64) -> AppView {
    let given_up = presentations::failed_all(
        s,
        list::keys_of(s.pending.filter(pending_expired(now_ms))),
        now_ms,
    );
    AppView { completed: given_up.completed.filter(still_remembered(now_ms)), ..given_up }
}

/// The prepared delegation would present that pane.
pub open spec fn presents_pane(pane_id: u64) -> spec_fn((Seq<char>, PendingView)) -> bool {
    |row: (Seq<char>, PendingView)|
        match row.1.source {
            SourceView::New { moved, .. } => moved.pane_id == pane_id,
            SourceView::Existing { pane_id: p, .. } => p == pane_id,
            SourceView::Takeover { .. } => false,
        }
}

impl App {
    /// Gives up what was prepared too long ago; tells whether there was any.
    pub fn expire_remote_presentations(&mut self, now_ms: u64) -> (changed: bool)
        ensures
            final(self)@ == aged(old(self)@, now_ms),
            changed == list::some(old(self)@.pending, pending_expired(now_ms)),
    {
        let late = |row: &(String, PendingTerminalDelegation)| -> (b: bool)
            ensures
                b == pending_expired(now_ms)(row@),
        {
            now_ms >= row.1.created_at_ms && now_ms - row.1.created_at_ms
                >= presentations::PENDING_DELEGATION_TTL_MS
        };
        let changed = self.pending.some_by(late, Ghost(pending_expired(now_ms)));
        let ids = self.pending.keys_by(late, Ghost(pending_expired(now_ms)));
        self.fail_pending_ids(&ids, now_ms);
        let kept = |row: &(String, CompletedTerminalDelegation)| -> (b: bool)
            ensures
                b == still_remembered(now_ms)(row@),
        {
            now_ms < row.1.completed_at_ms || now_ms - row.1.completed_at_ms
                < presentations::COMPLETED_DELEGATION_TTL_MS
        };
        self.completed.retain_by(kept, Ghost(still_remembered(now_ms)));
        changed
    }

    /// The process of a pane has ended: a delegation that was prepared for it has
    /// failed. Tells whether the pane was one that no workspace shows.
    pub fn handle_pending_delegation_pane_exit(&mut self, pane_id: u64, now_ms: u64) -> (r: bool)
        ensures
            match list::first(old(self)@.pending, presents_pane(pane_id)) {
                None => !r && final(self)@ == old(self)@,
                Some((delegation_id, p)) => r == (p.source is New) && final(self)@
                    == presentations::failed(
                    AppView {
                        pending: list::without(old(self)@.pending, delegation_id),
                        ..old(self)@
                    },
                    p,
                    now_ms,
                ),
            },
    {
        let hit = |row: &(String, PendingTerminalDelegation)| -> (b: bool)
            ensures
                b == presents_pane(pane_id)(row@),
        {
            match &row.1.source {
                PendingDelegationSource::New { moved, .. } => moved.pane_id == pane_id,
                PendingDelegationSource::Existing { pane_id: p, .. } => *p == pane_id,
                PendingDelegationSource::Takeover { .. } => false,
            }
        };
        match self.pending.find_by(hit, Ghost(presents_pane(pane_id))) {
            None => false,
            Some(i) => {
                let ghost before = self@.pending;
                let (delegation_id, p) = self.pending.remove_at(i);
                proof {
                    list::lemma_without_removed(before, i as int);
                }
                self.pending.discard(delegation_id.as_str());
                let was_hidden = matches!(&p.source, PendingDelegationSource::New { .. });
                self.fail_pending_delegation_at(p, now_ms);
                was_hidden
            },
        }
    }
}

// ---------------------------------------------------------------------------
// Questions

pub open spec fn presents(terminal_id: Seq<char>) -> spec_fn((Seq<char>, DelegatedView)) -> bool {
    |row: (Seq<char>, DelegatedView)| row.1.info.terminal_id == terminal_id
}

pub open spec fn delegated_terminals(s: AppView) -> Seq<Seq<char>> {
    s.delegated.map_values(|row: (Seq<char>, DelegatedView)| row.1.moved.terminal_id)
}

/// The terminals that a stop of the server takes away from another host, or from
/// this one.
pub open spec fn shared_terminals(s: AppView) -> Set<Seq<char>> {
    list::keys_of(s.remote_owner_presentations).to_set().union(delegated_terminals(s).to_set())
}

/// The agent that runs in a delegated pane.
pub open spec fn delegated_agent(d: DelegatedView, t: TerminalView) -> AgentView {
    AgentView {
        terminal_id: d.moved.terminal_id,
        peer: None,
        qualified_target: None,
        presentation: Some(
            PresentationView {
                origin_peer_id: d.info.origin_peer_id,
                owner_peer_id: d.info.owner.peer_id,
                route: d.info.owner.route,
            },
        ),
        name: t.agent_name,
        agent: t.agent_label,
        title: t.title,
        display_agent: t.display_agent,
        agent_status: if d.moved.seen {
            t.seen_status
        } else {
            t.unseen_status
        },
        screen_detection_skipped: t.hook_authority,
        custom_status: t.custom_status,
        state_labels: t.state_labels,
        agent_session: t.agent_session,
        transport: t.remote_agent_transport,
        mirror_of_terminal_id: None,
        attach: None,
        workspace_id: d.place.workspace_id,
        tab_id: d.place.tab_id,
        pane_id: d.place.pane_id,
        focused: false,
        cwd: Some(t.cwd),
        foreground_cwd: t.foreground_cwd,
        revision: t.revision,
    }
}

/// The agent in the delegated pane that a target names, where one runs there.
pub open spec fn delegated_agent_named(s: AppView, target: Seq<char>) -> Option<AgentView> {
    match list::first(s.delegated, presentations::targets(s, target)) {
        None => None,
        Some((_, d)) => match list::lookup(s.terminals, d.moved.terminal_id) {
            None => None,
            Some(t) => if t.is_agent {
                Some(delegated_agent(d, t))
            } else {
                None
            },
        },
    }
}

fn add_distinct(ids: &mut Vec<String>, id: &String)
    requires
        text::views(old(ids)@).no_duplicates(),
    ensures
        text::views(final(ids)@).no_duplicates(),
        text::views(final(ids)@).to_set() == text::views(old(ids)@).to_set().insert(id@),
{
    let ghost before = text::views(ids@);
    if text::contains_string(ids, id.as_str()) {
        assert(before.to_set() =~= before.to_set().insert(id@));
        return;
    }
    ids.push(id.clone());
    assert(text::views(ids@) =~= before.push(id@));
    assert(before.push(id@).to_set() =~= before.to_set().insert(id@)) by {
        before.lemma_push_to_set_commute(id@);
    }
}

impl App {
    pub fn active_remote_presentation_count(&self) -> (n: usize)
        ensures
            n == self@.delegated.len(),
    {
        self.delegated.len()
    }

    /// Something is presented across hosts, or about to be.
    pub fn has_remote_presentation_activity(&self) -> (r: bool)
        ensures
            r == (self@.pending.len() > 0 || self@.delegated.len() > 0
                || self@.remote_owner_presentations.len() > 0
                || self@.pending_owner_activations.len() > 0
                || self@.pending_owner_operations.len() > 0),
    {
        !self.pending.is_empty() || !self.delegated.is_empty()
            || !self.remote_owner_presentations.is_empty()
            || !self.pending_owner_activations.is_empty()
            || !self.pending_owner_operations.is_empty()
    }

    /// How many terminals a stop of the server would end or give back.
    pub fn shutdown_remote_presentation_count(&self) -> (n: usize)
        ensures
            n == shared_terminals(self@).len(),
    {
        let mut ids: Vec<String> = Vec::new();
        let ghost owned = list::keys_of(self@.remote_owner_presentations);
        let ghost lent = delegated_terminals(self@);
        let mut i: usize = 0;
        assert(text::views(ids@).to_set() =~= owned.take(0).to_set());
        while i < self.remote_owner_presentations.len()
            invariant
                i <= self@.remote_owner_presentations.len() == owned.len(),
                owned == list::keys_of(self@.remote_owner_presentations),
                text::views(ids@).no_duplicates(),
                text::views(ids@).to_set() == owned.take(i as int).to_set(),
            decreases owned.len() - i,
        {
            add_distinct(&mut ids, &self.remote_owner_presentations.at(i).0);
            proof {
                assert(owned.take(i as int + 1) =~= owned.take(i as int).push(owned[i as int]));
                owned.take(i as int).lemma_push_to_set_commute(owned[i as int]);
            }
            i += 1;
        }
        assert(owned.take(owned.len() as int) =~= owned);
        let mut j: usize = 0;
        assert(text::views(ids@).to_set() =~= owned.to_set().union(lent.take(0).to_set()));
        while j < self.delegated.len()
            invariant
                j <= self@.delegated.len() == lent.len(),
                lent == delegated_terminals(self@),
                text::views(ids@).no_duplicates(),
                text::views(ids@).to_set() == owned.to_set().union(lent.take(j as int).to_set()),
            decreases lent.len() - j,
        {
            add_distinct(&mut ids, &self.delegated.at(j).1.moved.terminal_id);
            proof {
                assert(lent.take(j as int + 1) =~= lent.take(j as int).push(lent[j as int]));
                lent.take(j as int).lemma_push_to_set_commute(lent[j as int]);
                assert(owned.to_set().union(lent.take(j as int).to_set()).insert(lent[j as int])
                    =~= owned.to_set().union(lent.take(j as int + 1).to_set()));
            }
            j += 1;
        }
        assert(lent.take(lent.len() as int) =~= lent);
        proof {
            text::views(ids@).unique_seq_to_set();
        }
        ids.len()
    }

    pub fn terminal_is_remotely_presented(&self, terminal_id: &str) -> (r: bool)
        ensures
            r == list::some(self@.delegated, presents(terminal_id@)),
    {
        let hit = |row: &(String, DelegatedPane)| -> (b: bool)
            ensures
                b == presents(terminal_id@)(row@),
        {
            text::str_eq(row.1.info.terminal_id.as_str(), terminal_id)
        };
        self.delegated.some_by(hit, Ghost(presents(terminal_id@)))
    }

    /// The pane that a report is about; `parsed` is the pane of a workspace of
    /// that public id, where there is one.
    pub fn resolve_internal_report_pane(&self, pane_id: &str, parsed: Option<u64>) -> (r: Option<u64>)
        ensures
            r == match parsed {
                Some(p) => Some(p),
                None => match list::first(
                    self@.delegated,
                    presentations::publicly(self@, pane_id@),
                ) {
                    Some((_, d)) => Some(d.moved.pane_id),
                    None => None,
                },
            },
    {
        match parsed {
            Some(p) => Some(p),
            None => match self.delegated_pane_for_public_id(pane_id) {
                Some(d) => Some(d.moved.pane_id),
                None => None,
            },
        }
    }

    pub fn delegated_agent_info_for_target(&self, target: &str) -> (r: Option<AgentInfo>)
        ensures
            text::viewed(r) == delegated_agent_named(self@, target@),
    {
        let d = match self.delegated_target(target) {
            Some(i) => &self.delegated.at(i).1,
            None => return None,
        };
        let t = match self.terminals.get(d.moved.terminal_id.as_str()) {
            Some(t) => t,
            None => return None,
        };
        if !t.is_agent {
            return None;
        }
        Some(
            AgentInfo {
                terminal_id: d.moved.terminal_id.clone(),
                peer: None,
                qualified_target: None,
                presentation: Some(
                    AgentPresentationInfo {
                        origin_peer_id: d.info.origin_peer_id.clone(),
                        owner_peer_id: d.info.owner.peer_id.clone(),
                        route: text::clone_strings(&d.info.owner.route),
                    },
                ),
                name: text::clone_opt(&t.agent_name),
                agent: text::clone_opt(&t.agent_label),
                title: text::clone_opt(&t.title),
                display_agent: text::clone_opt(&t.display_agent),
                agent_status: if d.moved.seen {
                    t.seen_status
                } else {
                    t.unseen_status
                },
                screen_detection_skipped: t.hook_authority,
                custom_status: text::clone_opt(&t.custom_status),
                state_labels: text::clone_pairs(&t.state_labels),
                agent_session: match &t.agent_session {
                    Some(s) => Some(s.clone()),
                    None => None,
                },
                transport: match &t.remote_agent_transport {
                    Some(x) => Some(x.clone()),
                    None => None,
                },
                mirror_of_terminal_id: None,
                attach: None,
                workspace_id: d.place.workspace_id.clone(),
                tab_id: d.place.tab_id.clone(),
                pane_id: d.place.pane_id.clone(),
                focused: false,
                cwd: Some(t.cwd.clone()),
                foreground_cwd: text::clone_opt(&t.foreground_cwd),
                revision: t.revision,
            },
        )
    }
}

} // verus!
