//! Handing remote panes back to their hosts before the server stops, and getting
//! them again afterwards.

use vstd::prelude::*;
use vstd::string::*;

use super::api::peers as api_peers;
use super::handed_back;
use super::list::{self, List};
use super::remote_presentations as presentations;
use super::returning;
use super::{
    App, AppView, BridgeRef, BridgeRefView, BridgeView, Effect, EffectView, Pane, PaneView,
    PeerBridge, TerminalView, Workspace, WorkspaceView,
};
use crate::api::schema::agents::{AgentInfo, AgentTransportInfo, AgentTransportView, AgentView};
use crate::api::schema::common::{self as schema_common, ErrorResponse};
use crate::api::schema::peers::{
    DelegationView, PeerInfo, PeerTransportInfo, PeerTransportView, PeerView, RemoteResumeOutcome,
    RemoteResumeParams, TerminalDelegationInfo,
};
use crate::remote_resume::{
    self as records, PeerGroup, RecordView, ResumeAgent, ResumeAgentView, ResumePlacement,
    ResumePlacementView, ResumeRecord, ResumeSsh, ResumeSshView,
};
use crate::text;

verus! {

// ---------------------------------------------------------------------------
// What it takes to get a pane back

/// The peer over which a terminal shows a remote one. Agents are linked through
/// a connection of their own, shells through theirs, the others by the peer.
pub open spec fn link_of(s: AppView, terminal_id: Seq<char>) -> Option<Seq<char>> {
    match list::lookup(s.remote_terminal_bridges, terminal_id) {
        Some(b) => Some(b.peer_id),
        None => match list::lookup(s.ssh_shell_bridges, terminal_id) {
            Some(b) => Some(b.peer_id),
            None => list::lookup(s.remote_owner_peers, terminal_id),
        },
    }
}

pub open spec fn resume_ssh(peer: PeerView) -> Option<ResumeSshView> {
    match peer.transport {
        PeerTransportView::Ssh { target, ssh_args, session, .. } => Some(
            ResumeSshView { target, ssh_args, session },
        ),
        PeerTransportView::ApiSocket { .. } => None,
    }
}

pub open spec fn remote_agent_of(t: Option<TerminalView>) -> (Option<Seq<char>>, Option<Seq<char>>) {
    match t {
        Some(t) => match t.remote_agent_transport {
            Some(AgentTransportView::Ssh { remote_agent, remote_cwd, .. }) => (
                remote_agent,
                remote_cwd,
            ),
            None => (None, None),
        },
        None => (None, None),
    }
}

pub open spec fn name_of(t: Option<TerminalView>) -> Option<Seq<char>> {
    match t {
        Some(t) => match t.agent_name {
            Some(name) => Some(name),
            None => t.manual_label,
        },
        None => None,
    }
}

/// Where the pane of a terminal is, for those who look for it later.
pub open spec fn placement_of(s: AppView, terminal_id: Seq<char>) -> Option<ResumePlacementView> {
    match list::first(s.workspaces, presentations::holds_terminal(terminal_id)) {
        None => None,
        Some(w) => match list::first(w.panes, presentations::pane_attached(terminal_id)) {
            None => None,
            Some(p) => match presentations::public_tab(w, p.tab) {
                None => None,
                Some(public_tab_id) => Some(
                    ResumePlacementView {
                        workspace_id: w.id,
                        public_tab_id,
                        public_pane_id: p.public_pane_id,
                        pane_index: None,
                    },
                ),
            },
        },
    }
}

/// The record of a pane that is to be handed back.
pub open spec fn record_for(
    s: AppView,
    terminal_id: Seq<char>,
    peer_id: Seq<char>,
    peer: PeerView,
    schema: u32,
    unix_ms: u64,
) -> Option<RecordView> {
    match (
        resume_ssh(peer),
        list::lookup(s.remote_owner_presentations, terminal_id),
        placement_of(s, terminal_id),
    ) {
        (Some(ssh), Some(d), Some(placement)) => {
            let t = list::lookup(s.terminals, terminal_id);
            Some(
                RecordView {
                    schema,
                    remote_terminal_id: d.terminal_id,
                    remote_pane_id: d.pane_id,
                    peer_id,
                    ssh,
                    agent: Some(
                        ResumeAgentView {
                            name: name_of(t),
                            agent: remote_agent_of(t).0,
                            cwd: remote_agent_of(t).1,
                        },
                    ),
                    placement,
                    handed_off_at_unix_ms: unix_ms,
                    last_error: None,
                },
            )
        },
        _ => None,
    }
}

impl App {
    fn linked_peer(&self, terminal_id: &str) -> (r: Option<String>)
        ensures
            text::opt_view(r) == link_of(self@, terminal_id@),
    {
        match self.remote_terminal_bridges.get(terminal_id) {
            Some(b) => return Some(b.peer_id.clone()),
            None => {},
        }
        match self.ssh_shell_bridges.get(terminal_id) {
            Some(b) => return Some(b.peer_id.clone()),
            None => {},
        }
        match self.remote_owner_peers.get(terminal_id) {
            Some(peer_id) => Some(peer_id.clone()),
            None => None,
        }
    }

    fn resume_placement(&self, terminal_id: &str) -> (r: Option<ResumePlacement>)
        ensures
            text::viewed(r) == placement_of(self@, terminal_id@),
    {
        let hit = |w: &Workspace| -> (b: bool)
            ensures
                b == presentations::holds_terminal(terminal_id@)(w@),
        {
            w.pane_of_terminal(terminal_id).is_some()
        };
        let i: usize = match self.workspaces.find_by(
            hit,
            Ghost(presentations::holds_terminal(terminal_id@)),
        ) {
            Some(i) => i,
            None => return None,
        };
        let w = self.workspaces.at(i);
        let p = match w.pane_of_terminal(terminal_id) {
            Some(p) => p,
            None => return None,
        };
        let public_tab_id = match w.public_tab_id(p.tab) {
            Some(id) => id,
            None => return None,
        };
        Some(
            ResumePlacement {
                workspace_id: w.id.clone(),
                public_tab_id,
                public_pane_id: text::clone_opt(&p.public_pane_id),
                pane_index: None,
            },
        )
    }

    fn resume_agent(&self, terminal_id: &str) -> (r: ResumeAgent)
        ensures
            ({
                let t = list::lookup(self@.terminals, terminal_id@);
                r@ == (ResumeAgentView {
                    name: name_of(t),
                    agent: remote_agent_of(t).0,
                    cwd: remote_agent_of(t).1,
                })
            }),
    {
        let t = match self.terminals.get(terminal_id) {
            Some(t) => t,
            None => return ResumeAgent { name: None, agent: None, cwd: None },
        };
        let name = match &t.agent_name {
            Some(name) => Some(name.clone()),
            None => text::clone_opt(&t.manual_label),
        };
        match &t.remote_agent_transport {
            Some(AgentTransportInfo::Ssh { remote_agent, remote_cwd, .. }) => ResumeAgent {
                name,
                agent: text::clone_opt(remote_agent),
                cwd: text::clone_opt(remote_cwd),
            },
            None => ResumeAgent { name, agent: None, cwd: None },
        }
    }

    /// The record of a pane that is to be handed back; none where the peer is not
    /// reached over SSH or the pane cannot be found again.
    pub fn resume_record_for_terminal(
        &self,
        terminal_id: &str,
        peer_id: &str,
        peer: &PeerInfo,
        schema: u32,
        unix_ms: u64,
    ) -> (r: Option<ResumeRecord>)
        ensures
            text::viewed(r) == record_for(
                self@,
                terminal_id@,
                peer_id@,
                peer@,
                schema,
                unix_ms,
            ),
    {
        let ssh = match &peer.transport {
            PeerTransportInfo::Ssh { target, ssh_args, session, .. } => ResumeSsh {
                target: target.clone(),
                ssh_args: text::clone_strings(ssh_args),
                session: text::clone_opt(session),
            },
            PeerTransportInfo::ApiSocket { .. } => return None,
        };
        let delegation = match self.remote_owner_presentations.get(terminal_id) {
            Some(d) => d,
            None => return None,
        };
        let placement = match self.resume_placement(terminal_id) {
            Some(placement) => placement,
            None => return None,
        };
        Some(
            ResumeRecord {
                schema,
                remote_terminal_id: delegation.terminal_id.clone(),
                remote_pane_id: delegation.pane_id.clone(),
                peer_id: peer_id.to_string(),
                ssh,
                agent: Some(self.resume_agent(terminal_id)),
                placement,
                handed_off_at_unix_ms: unix_ms,
                last_error: None,
            },
        )
    }
}

impl Workspace {
    /// The public id of a tab.
    pub fn public_tab_id(&self, tab_idx: usize) -> (r: Option<String>)
        ensures
            text::opt_view(r) == presentations::public_tab(self@, tab_idx),
    {
        if tab_idx < self.tabs.len() {
            text::clone_opt(&self.tabs.at(tab_idx).public_tab_id)
        } else {
            None
        }
    }
}

// ---------------------------------------------------------------------------
// Handing back

/// A pane on its way to its host.
pub struct HandoffPane {
    pub terminal_id: String,
    pub peer: PeerInfo,
    pub delegation: TerminalDelegationInfo,
    pub remote_terminal_id: String,
}

pub struct HandoffPaneView {
    pub terminal_id: Seq<char>,
    pub peer: PeerView,
    pub delegation: DelegationView,
    pub remote_terminal_id: Seq<char>,
}

impl View for HandoffPane {
    type V = HandoffPaneView;

    open spec fn view(&self) -> HandoffPaneView {
        HandoffPaneView {
            terminal_id: self.terminal_id@,
            peer: self.peer@,
            delegation: self.delegation@,
            remote_terminal_id: self.remote_terminal_id@,
        }
    }
}

/// What is being done outside.
pub enum HandoffStage {
    /// The record of the pane is being written.
    Persisting(HandoffPane),
    /// The host is being asked to take the pane.
    HandingOff(HandoffPane),
    /// A record that serves nothing is being removed.
    Forgetting,
    Over,
}

pub enum StageView {
    Persisting(HandoffPaneView),
    HandingOff(HandoffPaneView),
    Forgetting,
    Over,
}

impl View for HandoffStage {
    type V = StageView;

    open spec fn view(&self) -> StageView {
        match self {
            HandoffStage::Persisting(p) => StageView::Persisting(p@),
            HandoffStage::HandingOff(p) => StageView::HandingOff(p@),
            HandoffStage::Forgetting => StageView::Forgetting,
            HandoffStage::Over => StageView::Over,
        }
    }
}

/// The panes that are handed back, one after the other.
pub struct HandoffRun {
    /// The terminals whose turn has not come.
    pub rest: Vec<String>,
    pub stage: HandoffStage,
    pub handed_off: usize,
    /// The connections of panes that were handed back, kept because something else
    /// hangs on them.
    pub held: List<BridgeRef>,
}

pub struct HandoffRunView {
    pub rest: Seq<Seq<char>>,
    pub stage: StageView,
    pub handed_off: usize,
    pub held: Seq<BridgeRefView>,
}

impl View for HandoffRun {
    type V = HandoffRunView;

    open spec fn view(&self) -> HandoffRunView {
        HandoffRunView {
            rest: text::views(self.rest@),
            stage: self.stage@,
            handed_off: self.handed_off,
            held: self.held@,
        }
    }
}

/// There are no more panes than can be counted.
pub open spec fn countable(run: HandoffRunView) -> bool {
    match run.stage {
        StageView::Persisting(_) | StageView::HandingOff(_) => run.handed_off + run.rest.len()
            < usize::MAX,
        _ => run.handed_off + run.rest.len() <= usize::MAX,
    }
}

/// What is to be done next.
pub enum HandoffAction {
    Persist(ResumeRecord),
    HandOff { peer: PeerInfo, delegation: TerminalDelegationInfo },
    /// Remove the record of this remote terminal.
    Forget(String),
    /// Nothing is left; so many panes were handed back.
    Done(usize),
}

pub enum HandoffActionView {
    Persist(RecordView),
    HandOff { peer: PeerView, delegation: DelegationView },
    Forget(Seq<char>),
    Done(usize),
}

impl View for HandoffAction {
    type V = HandoffActionView;

    open spec fn view(&self) -> HandoffActionView {
        match self {
            HandoffAction::Persist(r) => HandoffActionView::Persist(r@),
            HandoffAction::HandOff { peer, delegation } => HandoffActionView::HandOff {
                peer: peer@,
                delegation: delegation@,
            },
            HandoffAction::Forget(t) => HandoffActionView::Forget(t@),
            HandoffAction::Done(n) => HandoffActionView::Done(*n),
        }
    }
}

/// The record of a pane that can be handed back, and the pane.
pub open spec fn returnable(s: AppView, terminal_id: Seq<char>, schema: u32, unix_ms: u64) -> Option<
    (RecordView, HandoffPaneView),
> {
    match (list::lookup(s.remote_owner_presentations, terminal_id), link_of(s, terminal_id)) {
        (Some(delegation), Some(peer_id)) => match list::lookup(s.peers, peer_id) {
            Some(peer) => match record_for(s, terminal_id, peer_id, peer, schema, unix_ms) {
                Some(record) => Some(
                    (
                        record,
                        HandoffPaneView {
                            terminal_id,
                            peer,
                            delegation,
                            remote_terminal_id: record.remote_terminal_id,
                        },
                    ),
                ),
                None => None,
            },
            None => None,
        },
        _ => None,
    }
}

/// The next pane that can be handed back; those that cannot stay as they are.
pub open spec fn next_pane(
    s: AppView,
    rest: Seq<Seq<char>>,
    handed_off: usize,
    held: Seq<BridgeRefView>,
    schema: u32,
    unix_ms: u64,
) -> (HandoffRunView, HandoffActionView)
    decreases rest.len(),
{
    if rest.len() == 0 {
        (
            HandoffRunView { rest, stage: StageView::Over, handed_off, held },
            HandoffActionView::Done(handed_off),
        )
    } else {
        match returnable(s, rest[0], schema, unix_ms) {
            None => next_pane(s, rest.skip(1), handed_off, held, schema, unix_ms),
            Some((record, pane)) => (
                HandoffRunView {
                    rest: rest.skip(1),
                    stage: StageView::Persisting(pane),
                    handed_off,
                    held,
                },
                HandoffActionView::Persist(record),
            ),
        }
    }
}

/// A pane lives on its host again: nothing of it is left here. The second result
/// are the connections that are kept for others.
#[verifier::opaque]
pub open spec fn given_back(
    s: AppView,
    terminal_id: Seq<char>,
    held: Seq<BridgeRefView>,
    now_ms: u64,
) -> (AppView, Seq<BridgeRefView>) {
    let (released, kept) = returning::let_go(s, terminal_id, held, now_ms);
    let gone = presentations::shut_down(
        AppView { terminals: list::without(released.terminals, terminal_id), ..released },
        terminal_id,
    );
    (
        AppView {
            effects: match presentations::pane_showing(gone.workspaces, terminal_id) {
                Some(pane) => gone.effects.push(EffectView::PaneDied(pane.pane_id)),
                None => gone.effects,
            },
            ..gone
        },
        kept,
    )
}

/// What follows when what was being done outside has succeeded, or not.
pub open spec fn handoff_follows(
    s: AppView,
    run: HandoffRunView,
    ok: bool,
    schema: u32,
    unix_ms: u64,
    now_ms: u64,
) -> (AppView, HandoffRunView, HandoffActionView) {
    match run.stage {
        StageView::Persisting(p) => if ok {
            (
                s,
                HandoffRunView { stage: StageView::HandingOff(p), ..run },
                HandoffActionView::HandOff { peer: p.peer, delegation: p.delegation },
            )
        } else {
            (
                s,
                HandoffRunView { stage: StageView::Forgetting, ..run },
                HandoffActionView::Forget(p.remote_terminal_id),
            )
        },
        StageView::HandingOff(p) => if ok {
            let (after, held) = given_back(s, p.terminal_id, run.held, now_ms);
            let (next, action) = next_pane(
                after,
                run.rest,
                (run.handed_off + 1) as usize,
                held,
                schema,
                unix_ms,
            );
            (after, next, action)
        } else {
            (
                s,
                HandoffRunView { stage: StageView::Forgetting, ..run },
                HandoffActionView::Forget(p.remote_terminal_id),
            )
        },
        _ => {
            let (next, action) = next_pane(
                s,
                run.rest,
                run.handed_off,
                run.held,
                schema,
                unix_ms,
            );
            (s, next, action)
        },
    }
}

impl App {
    fn returnable_pane(&self, terminal_id: &str, schema: u32, unix_ms: u64) -> (r: Option<
        (ResumeRecord, HandoffPane),
    >)
        ensures
            match returnable(self@, terminal_id@, schema, unix_ms) {
                Some((record, pane)) => r matches Some((rec, p)) && rec@ == record && p@ == pane,
                None => r is None,
            },
    {
        let delegation = match self.remote_owner_presentations.get(terminal_id) {
            Some(d) => d.clone(),
            None => return None,
        };
        let peer_id = match self.linked_peer(terminal_id) {
            Some(peer_id) => peer_id,
            None => return None,
        };
        let peer = match self.peers.get(peer_id.as_str()) {
            Some(peer) => peer.clone(),
            None => return None,
        };
        let record = match self.resume_record_for_terminal(
            terminal_id,
            peer_id.as_str(),
            &peer,
            schema,
            unix_ms,
        ) {
            Some(record) => record,
            None => return None,
        };
        let remote_terminal_id = record.remote_terminal_id.clone();
        Some(
            (
                record,
                HandoffPane {
                    terminal_id: terminal_id.to_string(),
                    peer,
                    delegation,
                    remote_terminal_id,
                },
            ),
        )
    }

    #[verifier::loop_isolation(false)]
    fn next_handoff(
        &self,
        rest: Vec<String>,
        handed_off: usize,
        held: List<BridgeRef>,
        schema: u32,
        unix_ms: u64,
    ) -> (r: (HandoffRun, HandoffAction))
        requires
            handed_off + rest@.len() <= usize::MAX,
        ensures
            (r.0@, r.1@) == next_pane(
                self@,
                text::views(rest@),
                handed_off,
                held@,
                schema,
                unix_ms,
            ),
            countable(r.0@),
    {
        let mut rest = rest;
        let ghost all = text::views(rest@);
        while rest.len() > 0
            invariant
                handed_off + rest@.len() <= usize::MAX,
                next_pane(self@, text::views(rest@), handed_off, held@, schema, unix_ms)
                    == next_pane(self@, all, handed_off, held@, schema, unix_ms),
            decreases rest@.len(),
        {
            let ghost before = text::views(rest@);
            let terminal_id = rest.remove(0);
            assert(before[0] == terminal_id@);
            assert(text::views(rest@) =~= before.skip(1));
            match self.returnable_pane(terminal_id.as_str(), schema, unix_ms) {
                Some((record, pane)) => {
                    let stage = HandoffStage::Persisting(pane);
                    return (
                        HandoffRun { rest, stage, handed_off, held },
                        HandoffAction::Persist(record),
                    );
                },
                None => {},
            }
        }
        assert(text::views(rest@) =~= Seq::<Seq<char>>::empty());
        (
            HandoffRun { rest, stage: HandoffStage::Over, handed_off, held },
            HandoffAction::Done(handed_off),
        )
    }

    /// Begins to hand every remote pane back to its host, where that is wanted and
    /// records can be kept.
    pub fn auto_handoff_remote_presentations(
        &self,
        enabled: bool,
        store_open: bool,
        schema: u32,
        unix_ms: u64,
    ) -> (r: (HandoffRun, HandoffAction))
        ensures
            (r.0@, r.1@) == next_pane(
                self@,
                if enabled && store_open {
                    list::keys_of(self@.remote_owner_presentations)
                } else {
                    Seq::empty()
                },
                0,
                Seq::empty(),
                schema,
                unix_ms,
            ),
            countable(r.0@),
    {
        let held: List<BridgeRef> = List::new();
        assert(held@ =~= Seq::<BridgeRefView>::empty());
        if !enabled || !store_open {
            let none: Vec<String> = Vec::new();
            assert(text::views(none@) =~= Seq::<Seq<char>>::empty());
            return self.next_handoff(none, 0, held, schema, unix_ms);
        }
        let terminals = self.remote_owner_presentations.keys();
        let n: usize = terminals.len();
        assert(terminals@.len() == n);
        self.next_handoff(terminals, 0, held, schema, unix_ms)
    }

    #[verifier::spinoff_prover]
    fn give_back(&mut self, terminal_id: &str, held: List<BridgeRef>, now_ms: u64) -> (kept: List<
        BridgeRef,
    >)
        ensures
            (final(self)@, kept@) == given_back(old(self)@, terminal_id@, held@, now_ms),
    {
        proof {
            reveal(given_back);
        }
        let kept = self.let_terminal_go(terminal_id, held, now_ms);
        self.terminals.discard(terminal_id);
        self.shut_down_runtime(terminal_id);
        match self.pane_for_terminal(terminal_id) {
            Some(pane_id) => self.effects.push(Effect::PaneDied(pane_id)),
            None => {},
        }
        kept
    }

    /// Goes on when what was being done outside has succeeded, or not. A record is
    /// written before its pane is handed back; where either fails the pane stays
    /// as it is, and the record goes. No pane goes with another.
    pub fn auto_handoff_step(
        &mut self,
        run: HandoffRun,
        ok: bool,
        schema: u32,
        unix_ms: u64,
        now_ms: u64,
    ) -> (r: (HandoffRun, HandoffAction))
        requires
            countable(run@),
        ensures
            (final(self)@, r.0@, r.1@) == handoff_follows(
                old(self)@,
                run@,
                ok,
                schema,
                unix_ms,
                now_ms,
            ),
            countable(r.0@),
            forall|k: Seq<char>|
                list::present(old(self)@.remote_owner_presentations, k)
                    && !handed_back::handed_in(run@, ok).contains(k) ==> #[trigger] list::present(
                    final(self)@.remote_owner_presentations,
                    k,
                ),
    {
        proof {
            let s = self@;
            let after = handoff_follows(s, run@, ok, schema, unix_ms, now_ms).0;
            assert forall|k: Seq<char>|
                list::present(s.remote_owner_presentations, k) && !handed_back::handed_in(
                    run@,
                    ok,
                ).contains(k) implies #[trigger] list::present(
                after.remote_owner_presentations,
                k,
            ) by {
                handed_back::lemma_step_takes_one_pane(
                    s,
                    run@,
                    ok,
                    schema,
                    unix_ms,
                    now_ms,
                    k,
                );
            }
        }
        let HandoffRun { rest, stage, handed_off, held } = run;
        match stage {
            HandoffStage::Persisting(p) => {
                if ok {
                    let action = HandoffAction::HandOff {
                        peer: p.peer.clone(),
                        delegation: p.delegation.clone(),
                    };
                    let stage = HandoffStage::HandingOff(p);
                    (HandoffRun { rest, stage, handed_off, held }, action)
                } else {
                    (
                        HandoffRun { rest, stage: HandoffStage::Forgetting, handed_off, held },
                        HandoffAction::Forget(p.remote_terminal_id),
                    )
                }
            },
            HandoffStage::HandingOff(p) => {
                if ok {
                    let kept = self.give_back(p.terminal_id.as_str(), held, now_ms);
                    self.next_handoff(rest, handed_off + 1, kept, schema, unix_ms)
                } else {
                    (
                        HandoffRun { rest, stage: HandoffStage::Forgetting, handed_off, held },
                        HandoffAction::Forget(p.remote_terminal_id),
                    )
                }
            },
            _ => self.next_handoff(rest, handed_off, held, schema, unix_ms),
        }
    }
}

/// A pane is handed back only after its record was written.
pub proof fn lemma_record_precedes_handoff(
    s: AppView,
    run: HandoffRunView,
    ok: bool,
    schema: u32,
    unix_ms: u64,
    now_ms: u64,
)
    ensures
        handoff_follows(s, run, ok, schema, unix_ms, now_ms).2 is HandOff ==> ok && run.stage is Persisting,
{
    lemma_next_pane_persists(s, run.rest, run.handed_off, run.held, schema, unix_ms);
    match run.stage {
        StageView::HandingOff(p) => {
            let (after, held) = given_back(s, p.terminal_id, run.held, now_ms);
            lemma_next_pane_persists(
                after,
                run.rest,
                (run.handed_off + 1) as usize,
                held,
                schema,
                unix_ms,
            );
        },
        _ => {},
    }
}

proof fn lemma_next_pane_persists(
    s: AppView,
    rest: Seq<Seq<char>>,
    handed_off: usize,
    held: Seq<BridgeRefView>,
    schema: u32,
    unix_ms: u64,
)
    ensures
        next_pane(s, rest, handed_off, held, schema, unix_ms).1 is Persist || next_pane(
            s,
            rest,
            handed_off,
            held,
            schema,
            unix_ms,
        ).1 is Done,
    decreases rest.len(),
{
    if rest.len() > 0 {
        lemma_next_pane_persists(s, rest.skip(1), handed_off, held, schema, unix_ms);
    }
}

/// Where writing the record or handing the pane back fails, nothing here changes,
/// and the record of that pane goes.
pub proof fn lemma_failed_handoff_keeps_the_pane(
    s: AppView,
    run: HandoffRunView,
    schema: u32,
    unix_ms: u64,
    now_ms: u64,
)
    requires
        run.stage is Persisting || run.stage is HandingOff,
    ensures
        handoff_follows(s, run, false, schema, unix_ms, now_ms).0 == s,
        handoff_follows(s, run, false, schema, unix_ms, now_ms).2 == HandoffActionView::Forget(
            match run.stage {
                StageView::Persisting(p) => p.remote_terminal_id,
                StageView::HandingOff(p) => p.remote_terminal_id,
                _ => Seq::empty(),
            },
        ),
{
}

// ---------------------------------------------------------------------------
// Getting panes again

/// The panes to get again after a start, by peer; none where that is not wanted.
pub fn spawn_remote_reacquires(enabled: bool, stored: Option<Vec<ResumeRecord>>) -> (r: Vec<
    PeerGroup,
>)
    ensures
        match stored {
            Some(records) => if enabled {
                records::grouped(records@, r@)
            } else {
                r@.len() == 0
            },
            None => r@.len() == 0,
        },
{
    match stored {
        Some(records) => if enabled {
            records::group_by_peer(records)
        } else {
            Vec::new()
        },
        None => Vec::new(),
    }
}

pub open spec fn other_peer(records: Seq<ResumeRecord>, peer_id: Seq<char>) -> bool {
    exists|i: int| 0 <= i < records.len() && (#[trigger] records[i]).peer_id@ != peer_id
}

/// The records that a request is about.
pub open spec fn requested(p: RemoteResumeParams, stored: Seq<ResumeRecord>) -> Seq<ResumeRecord> {
    match p.peer_id {
        Some(peer_id) => records::of_peer(stored, peer_id@),
        None => stored,
    }
}

pub open spec fn none_pending(peer_id: Option<Seq<char>>) -> Seq<char> {
    match peer_id {
        Some(peer_id) => "no handed-off remote panes are pending for peer "@ + peer_id,
        None => "no handed-off remote panes are pending"@,
    }
}

/// Why the panes of a request cannot be got again.
pub open spec fn resume_objection(
    p: RemoteResumeParams,
    stored: Result<Vec<ResumeRecord>, String>,
) -> Option<(Seq<char>, Seq<char>)> {
    match stored {
        Err(err) => Some(
            (
                "remote_resume_unavailable"@,
                "could not open the remote resume store: "@ + err@,
            ),
        ),
        Ok(all) => {
            let wanted = requested(p, all@);
            if wanted.len() == 0 {
                Some(("remote_resume_empty"@, none_pending(text::opt_view(p.peer_id))))
            } else if p.managed_control_path is Some && other_peer(wanted, wanted[0].peer_id@) {
                Some(
                    (
                        "invalid_request"@,
                        "a managed control path belongs to one peer; resume one peer at a time with --peer"@,
                    ),
                )
            } else {
                None
            }
        },
    }
}

fn records_of(stored: Vec<ResumeRecord>, peer_id: &str) -> (r: Vec<ResumeRecord>)
    ensures
        r@ == records::of_peer(stored@, peer_id@),
{
    let mut rest = stored;
    let ghost all = rest@;
    let ghost p = |r: ResumeRecord| r.peer_id@ == peer_id@;
    let mut out: Vec<ResumeRecord> = Vec::new();
    let ghost mut n: int = 0;
    proof {
        list::lemma_filter_empty(p);
        assert(all.take(0) =~= Seq::<ResumeRecord>::empty());
    }
    while rest.len() > 0
        invariant
            0 <= n <= all.len(),
            rest@ == all.skip(n),
            out@ == all.take(n).filter(p),
            p == (|r: ResumeRecord| r.peer_id@ == peer_id@),
        decreases rest@.len(),
    {
        let record = rest.remove(0);
        proof {
            assert(record == all[n]);
            assert(rest@ =~= all.skip(n + 1));
            list::lemma_filter_step(all, n, p);
            n = n + 1;
        }
        if text::str_eq(record.peer_id.as_str(), peer_id) {
            out.push(record);
        }
    }
    assert(all.take(n) =~= all);
    out
}

fn names_other_peer(records: &Vec<ResumeRecord>, peer_id: &str) -> (r: bool)
    ensures
        r == other_peer(records@, peer_id@),
{
    let mut i: usize = 0;
    while i < records.len()
        invariant
            i <= records@.len(),
            forall|k: int| 0 <= k < i ==> (#[trigger] records@[k]).peer_id@ == peer_id@,
        decreases records@.len() - i,
    {
        if !text::str_eq(records[i].peer_id.as_str(), peer_id) {
            return true;
        }
        i += 1;
    }
    false
}

/// The panes that a request is about, with the peer of the first of them.
pub fn resume_records_for_request(
    params: &RemoteResumeParams,
    stored: Result<Vec<ResumeRecord>, String>,
) -> (r: Result<(String, Vec<ResumeRecord>), ErrorResponse>)
    ensures
        match resume_objection(*params, stored) {
            Some((code, message)) => r matches Err(e) && schema_common::is_error(
                e,
                "remote_resume"@,
                code,
                message,
            ),
            None => r matches Ok((peer_id, records)) && records@ == requested(
                *params,
                stored->Ok_0@,
            ) && peer_id@ == records@[0].peer_id@,
        },
{
    let all = match stored {
        Ok(all) => all,
        Err(err) => return Err(
            ErrorResponse::new(
                "remote_resume",
                "remote_resume_unavailable",
                presentations::joined(
                    "could not open the remote resume store: ",
                    err.as_str(),
                ).as_str(),
            ),
        ),
    };
    let wanted = match &params.peer_id {
        Some(peer_id) => records_of(all, peer_id.as_str()),
        None => all,
    };
    if wanted.len() == 0 {
        let message = match &params.peer_id {
            Some(peer_id) => presentations::joined(
                "no handed-off remote panes are pending for peer ",
                peer_id.as_str(),
            ),
            None => "no handed-off remote panes are pending".to_string(),
        };
        return Err(
            ErrorResponse::new("remote_resume", "remote_resume_empty", message.as_str()),
        );
    }
    let peer_id = wanted[0].peer_id.clone();
    if params.managed_control_path.is_some() && names_other_peer(&wanted, peer_id.as_str()) {
        return Err(
            ErrorResponse::new(
                "remote_resume",
                "invalid_request",
                "a managed control path belongs to one peer; resume one peer at a time with --peer",
            ),
        );
    }
    Ok((peer_id, wanted))
}

/// A remote terminal that was claimed again, ready to be shown.
pub struct RemoteAgentStart {
    pub agent: AgentInfo,
    pub transport: AgentTransportInfo,
    pub delegation: TerminalDelegationInfo,
    pub attach_argv: Vec<String>,
    pub peer: Option<PeerInfo>,
    pub bridge: Option<PeerBridge>,
}

pub struct StartView {
    pub agent: AgentView,
    pub transport: AgentTransportView,
    pub delegation: DelegationView,
    pub peer: Option<PeerView>,
    pub bridge: Option<BridgeView>,
}

impl View for RemoteAgentStart {
    type V = StartView;

    open spec fn view(&self) -> StartView {
        StartView {
            agent: self.agent@,
            transport: self.transport@,
            delegation: self.delegation@,
            peer: text::viewed(self.peer),
            bridge: text::viewed(self.bridge),
        }
    }
}

/// Where the pane of a remote terminal opens.
#[derive(Debug, Clone, Copy, PartialEq, Eq, Structural)]
pub enum PaneSlot {
    /// To the right of this pane.
    BesidePane { ws_idx: usize, pane_id: u64 },
    NewWorkspace,
}

/// There is a workspace to look at, with a tab.
pub open spec fn something_active(s: AppView) -> bool {
    let ws = active_workspace(s);
    ws < s.workspaces.len() && s.workspaces[ws].active_tab < s.workspaces[ws].tabs.len()
}

pub open spec fn active_workspace(s: AppView) -> int {
    match s.active {
        Some(ws) => ws as int,
        None => 0,
    }
}

/// The slot for a pane: beside the pane that its tab has in focus, where the tab
/// is still there, beside the pane in focus otherwise.
pub open spec fn slot_for(s: AppView, tab: Option<(usize, usize)>) -> PaneSlot {
    match tab {
        Some((ws_idx, tab_idx)) => PaneSlot::BesidePane {
            ws_idx,
            pane_id: s.workspaces[ws_idx as int].tabs[tab_idx as int].focused,
        },
        None => if s.workspaces.len() == 0 {
            PaneSlot::NewWorkspace
        } else {
            let w = s.workspaces[active_workspace(s)];
            PaneSlot::BesidePane {
                ws_idx: active_workspace(s) as usize,
                pane_id: w.tabs[w.active_tab as int].focused,
            }
        },
    }
}

pub open spec fn named_as(t: TerminalView, r: RecordView) -> TerminalView {
    match r.agent {
        Some(a) => match a.name {
            Some(name) => TerminalView {
                agent_name: Some(name),
                manual_label: Some(name),
                ..t
            },
            None => t,
        },
        None => t,
    }
}

/// The connection of the pane is up.
pub open spec fn connected_for(s: AppView, terminal_id: Seq<char>, r: StartView) -> AppView {
    match r.peer {
        None => s,
        Some(peer) => api_peers::peer_known(
            match r.bridge {
                None => s,
                Some(bridge) => AppView {
                    peer_bridges: s.peer_bridges.push((peer.id, bridge)),
                    remote_terminal_bridges: list::with(
                        s.remote_terminal_bridges,
                        terminal_id,
                        BridgeRefView { peer_id: peer.id, connection_id: bridge.connection_id },
                    ),
                    ..s
                },
            },
            peer,
        ),
    }
}

/// The pane shows the remote terminal.
pub open spec fn shown_again(
    s: AppView,
    terminal_id: Seq<char>,
    pane_id: u64,
    record: RecordView,
    r: StartView,
) -> AppView {
    let t = list::lookup(s.terminals, terminal_id)->0;
    let owned = AppView {
        terminals: list::with(
            s.terminals,
            terminal_id,
            TerminalView {
                remote_agent_transport: Some(r.transport),
                ..named_as(t, record)
            },
        ),
        remote_owner_presentations: list::with(
            s.remote_owner_presentations,
            terminal_id,
            r.delegation,
        ),
        ..s
    };
    let linked = connected_for(owned, terminal_id, r);
    AppView {
        session_dirty: true,
        remote_mirrors: list::with(linked.remote_mirrors, terminal_id, ()),
        effects: linked.effects.push(
            EffectView::ReportAgent { pane_id, agent: r.agent, transport: r.transport },
        ).push(EffectView::StartMirror { terminal_id, pane_id, transport: r.transport }),
        ..linked
    }
}

pub open spec fn has_public_id(public_pane_id: Seq<char>) -> spec_fn(PaneView) -> bool {
    |p: PaneView| p.public_pane_id == Some(public_pane_id)
}

pub open spec fn holds_public_id(public_pane_id: Seq<char>) -> spec_fn(WorkspaceView) -> bool {
    |w: WorkspaceView| list::some(w.panes, has_public_id(public_pane_id))
}

pub open spec fn pane_called(s: AppView, public_pane_id: Seq<char>) -> Option<PaneView> {
    match list::first(s.workspaces, holds_public_id(public_pane_id)) {
        Some(w) => list::first(w.panes, has_public_id(public_pane_id)),
        None => None,
    }
}

/// The pane holds nothing but the shell that keeps its place.
pub open spec fn is_placeholder(s: AppView, pane: PaneView) -> bool {
    match presentations::pane_anywhere(s.workspaces, pane.pane_id) {
        Some(p) => match list::lookup(s.terminals, p.terminal_id) {
            Some(t) => t.remote_agent_transport is None && !t.is_agent && !t.has_launch_argv,
            None => false,
        },
        None => false,
    }
}

/// The pane that kept the place of a remote one closes, unless it was put to
/// other use.
pub open spec fn placeholder_closed(s: AppView, record: RecordView) -> AppView {
    AppView {
        effects: match record.placement.public_pane_id {
            None => s.effects,
            Some(id) => match pane_called(s, id) {
                Some(pane) => if is_placeholder(s, pane) {
                    s.effects.push(EffectView::ClosePane(id))
                } else {
                    s.effects
                },
                None => s.effects,
            },
        },
        ..s
    }
}

/// The terminal in the pane that was opened.
pub open spec fn opened_terminal(s: AppView, ws_idx: usize, pane_id: u64) -> Option<Seq<char>> {
    if ws_idx < s.workspaces.len() {
        match presentations::pane_in(s.workspaces[ws_idx as int], pane_id) {
            Some(p) => if list::present(s.terminals, p.terminal_id) {
                Some(p.terminal_id)
            } else {
                None
            },
            None => None,
        }
    } else {
        None
    }
}

/// What comes of a remote terminal for which a pane was opened, or not.
pub open spec fn placed(
    s: AppView,
    record: RecordView,
    r: StartView,
    opened: Result<(usize, u64), String>,
) -> (AppView, Result<(), Seq<char>>) {
    match opened {
        Err(err) => (s, Err(err@)),
        Ok((ws_idx, pane_id)) => match opened_terminal(s, ws_idx, pane_id) {
            None => (s, Err("terminal disappeared after spawn"@)),
            Some(t) => (
                placeholder_closed(shown_again(s, t, pane_id, record, r), record),
                Ok(()),
            ),
        },
    }
}

impl App {
    /// Where the pane of a record opens. `tab` is what its tab id names.
    pub fn reacquire_slot(&self, tab: Option<(usize, usize)>) -> (r: PaneSlot)
        requires
            match tab {
                Some((ws_idx, tab_idx)) => ws_idx < self@.workspaces.len() && tab_idx
                    < self@.workspaces[ws_idx as int].tabs.len(),
                None => self@.workspaces.len() > 0 ==> something_active(self@),
            },
        ensures
            r == slot_for(self@, tab),
    {
        match tab {
            Some((ws_idx, tab_idx)) => PaneSlot::BesidePane {
                ws_idx,
                pane_id: self.workspaces.at(ws_idx).tabs.at(tab_idx).focused,
            },
            None => {
                if self.workspaces.is_empty() {
                    return PaneSlot::NewWorkspace;
                }
                let ws_idx: usize = match self.active {
                    Some(ws_idx) => ws_idx,
                    None => 0,
                };
                let w = self.workspaces.at(ws_idx);
                PaneSlot::BesidePane { ws_idx, pane_id: w.tabs.at(w.active_tab).focused }
            },
        }
    }

    fn take_up_connection(
        &mut self,
        terminal_id: &str,
        peer: Option<PeerInfo>,
        bridge: Option<PeerBridge>,
        Ghost(r): Ghost<StartView>,
    )
        requires
            text::viewed(peer) == r.peer,
            text::viewed(bridge) == r.bridge,
        ensures
            final(self)@ == connected_for(old(self)@, terminal_id@, r),
    {
        match peer {
            None => {},
            Some(peer) => {
                match bridge {
                    Some(bridge) => {
                        let link = BridgeRef {
                            peer_id: peer.id.clone(),
                            connection_id: bridge.connection_id.clone(),
                        };
                        self.peer_bridges.push((peer.id.clone(), bridge));
                        self.remote_terminal_bridges.insert(terminal_id.to_string(), link);
                    },
                    None => {},
                }
                self.know_peer(peer);
            },
        }
    }

    fn own_terminal(
        &mut self,
        terminal_id: &str,
        record: &ResumeRecord,
        transport: AgentTransportInfo,
        delegation: TerminalDelegationInfo,
    )
        requires
            list::present(old(self)@.terminals, terminal_id@),
        ensures
            final(self)@ == (AppView {
                terminals: list::with(
                    old(self)@.terminals,
                    terminal_id@,
                    TerminalView {
                        remote_agent_transport: Some(transport@),
                        ..named_as(
                            list::lookup(old(self)@.terminals, terminal_id@)->0,
                            record@,
                        )
                    },
                ),
                remote_owner_presentations: list::with(
                    old(self)@.remote_owner_presentations,
                    terminal_id@,
                    delegation@,
                ),
                ..old(self)@
            }),
    {
        match self.terminals.remove(terminal_id) {
            Some(terminal) => {
                let mut terminal = terminal;
                match &record.agent {
                    Some(agent) => match &agent.name {
                        Some(name) => {
                            terminal.agent_name = Some(name.clone());
                            terminal.manual_label = Some(name.clone());
                        },
                        None => {},
                    },
                    None => {},
                }
                terminal.remote_agent_transport = Some(transport);
                proof {
                    list::lemma_without_twice(old(self)@.terminals, terminal_id@);
                }
                self.terminals.insert(terminal_id.to_string(), terminal);
            },
            None => {},
        }
        self.remote_owner_presentations.insert(terminal_id.to_string(), delegation);
    }

    fn show_again(
        &mut self,
        terminal_id: &str,
        pane_id: u64,
        record: &ResumeRecord,
        remote: RemoteAgentStart,
    )
        requires
            list::present(old(self)@.terminals, terminal_id@),
        ensures
            final(self)@ == shown_again(old(self)@, terminal_id@, pane_id, record@, remote@),
    {
        let ghost r = remote@;
        self.own_terminal(terminal_id, record, remote.transport.clone(), remote.delegation);
        self.take_up_connection(terminal_id, remote.peer, remote.bridge, Ghost(r));
        self.session_dirty = true;
        self.remote_mirrors.insert(terminal_id.to_string(), ());
        self.effects.push(
            Effect::ReportAgent {
                pane_id,
                agent: remote.agent,
                transport: remote.transport.clone(),
            },
        );
        self.effects.push(
            Effect::StartMirror {
                terminal_id: terminal_id.to_string(),
                pane_id,
                transport: remote.transport,
            },
        );
    }

    fn pane_by_public_id(&self, public_pane_id: &str) -> (r: Option<&Pane>)
        ensures
            text::viewed(r) == pane_called(self@, public_pane_id@),
    {
        let named = |p: &Pane| -> (b: bool)
            ensures
                b == has_public_id(public_pane_id@)(p@),
        {
            match &p.public_pane_id {
                Some(id) => text::str_eq(id.as_str(), public_pane_id),
                None => false,
            }
        };
        let hit = |w: &Workspace| -> (b: bool)
            ensures
                b == holds_public_id(public_pane_id@)(w@),
        {
            w.panes.some_by(named, Ghost(has_public_id(public_pane_id@)))
        };
        match self.workspaces.find_by(hit, Ghost(holds_public_id(public_pane_id@))) {
            Some(i) => {
                let w = self.workspaces.at(i);
                match w.panes.find_by(named, Ghost(has_public_id(public_pane_id@))) {
                    Some(k) => Some(w.panes.at(k)),
                    None => None,
                }
            },
            None => None,
        }
    }

    /// Closes the pane that kept the place of a remote one, unless it was put to
    /// other use.
    pub fn close_reacquire_placeholder(&mut self, record: &ResumeRecord)
        ensures
            final(self)@ == placeholder_closed(old(self)@, record@),
    {
        let id = match &record.placement.public_pane_id {
            Some(id) => id.clone(),
            None => return,
        };
        let pane_id: u64 = match self.pane_by_public_id(id.as_str()) {
            Some(p) => p.pane_id,
            None => return,
        };
        let untouched = match self.find_pane(pane_id) {
            Some(p) => match self.terminals.get(p.terminal_id.as_str()) {
                Some(t) => t.remote_agent_transport.is_none() && !t.is_agent && !t.has_launch_argv,
                None => false,
            },
            None => false,
        };
        if untouched {
            self.effects.push(Effect::ClosePane(id));
        }
    }

    fn opened(&self, ws_idx: usize, pane_id: u64) -> (r: Option<String>)
        ensures
            text::opt_view(r) == opened_terminal(self@, ws_idx, pane_id),
    {
        if ws_idx >= self.workspaces.len() {
            return None;
        }
        match self.workspaces.at(ws_idx).pane(pane_id) {
            Some(p) => if self.terminals.contains(p.terminal_id.as_str()) {
                Some(p.terminal_id.clone())
            } else {
                None
            },
            None => None,
        }
    }

    /// Shows a remote terminal in the pane that was opened for it.
    pub fn place_reacquired_pane(
        &mut self,
        record: &ResumeRecord,
        remote: RemoteAgentStart,
        opened: Result<(usize, u64), String>,
    ) -> (r: Result<(), String>)
        ensures
            final(self)@ == placed(old(self)@, record@, remote@, opened).0,
            match placed(old(self)@, record@, remote@, opened).1 {
                Ok(()) => r is Ok,
                Err(e) => r matches Err(message) && message@ == e,
            },
    {
        let (ws_idx, pane_id) = match opened {
            Ok(opened) => opened,
            Err(err) => return Err(err),
        };
        let terminal_id = match self.opened(ws_idx, pane_id) {
            Some(t) => t,
            None => return Err("terminal disappeared after spawn".to_string()),
        };
        self.show_again(terminal_id.as_str(), pane_id, record, remote);
        self.close_reacquire_placeholder(record);
        Ok(())
    }
}

// ---------------------------------------------------------------------------
// What becomes of the records

/// What is to be changed about a record.
pub enum StoreChange {
    Remove(String),
    SetLastError { remote_terminal_id: String, error: String },
}

pub enum StoreChangeView {
    Remove(Seq<char>),
    SetLastError { remote_terminal_id: Seq<char>, error: Seq<char> },
}

impl View for StoreChange {
    type V = StoreChangeView;

    open spec fn view(&self) -> StoreChangeView {
        match self {
            StoreChange::Remove(t) => StoreChangeView::Remove(t@),
            StoreChange::SetLastError { remote_terminal_id, error } => StoreChangeView::SetLastError {
                remote_terminal_id: remote_terminal_id@,
                error: error@,
            },
        }
    }
}

/// How an attempt to get a pane again ended.
pub enum Reacquired {
    /// The remote terminal was claimed, and its pane was shown, or not.
    Claimed { shown: Result<(), String> },
    /// It could not be claimed.
    Failed(String),
}

/// A record whose pane is shown is done with, and one whose pane its host does
/// not find any more can never serve again. The others keep the error.
pub open spec fn change_for(record: RecordView, ended: Reacquired) -> StoreChangeView {
    match ended {
        Reacquired::Claimed { shown: Ok(()) } => StoreChangeView::Remove(
            record.remote_terminal_id,
        ),
        Reacquired::Claimed { shown: Err(err) } => StoreChangeView::SetLastError {
            remote_terminal_id: record.remote_terminal_id,
            error: err@,
        },
        Reacquired::Failed(message) => if text::has_substring(message@, "not found"@) {
            StoreChangeView::Remove(record.remote_terminal_id)
        } else {
            StoreChangeView::SetLastError {
                remote_terminal_id: record.remote_terminal_id,
                error: message@,
            }
        },
    }
}

pub open spec fn error_of(ended: Reacquired) -> Option<Seq<char>> {
    match ended {
        Reacquired::Claimed { shown: Ok(()) } => None,
        Reacquired::Claimed { shown: Err(err) } => Some(err@),
        Reacquired::Failed(message) => Some(message@),
    }
}

/// What is told of a record, and what becomes of it. The claim is taken back
/// where its pane could not be shown.
pub fn apply_reacquire_result(record: &ResumeRecord, ended: &Reacquired) -> (r: (
    RemoteResumeOutcome,
    StoreChange,
    bool,
))
    ensures
        r.0.remote_terminal_id@ == record@.remote_terminal_id && r.0.peer_id@ == record@.peer_id,
        text::opt_view(r.0.error) == error_of(*ended),
        r.1@ == change_for(record@, *ended),
        r.2 == (ended matches Reacquired::Claimed { shown: Err(_) }),
{
    let id = record.remote_terminal_id.clone();
    let (error, change, rollback) = match ended {
        Reacquired::Claimed { shown: Ok(()) } => (None, StoreChange::Remove(id), false),
        Reacquired::Claimed { shown: Err(err) } => (
            Some(err.clone()),
            StoreChange::SetLastError { remote_terminal_id: id, error: err.clone() },
            true,
        ),
        Reacquired::Failed(message) => if text::contains_str(message.as_str(), "not found") {
            (Some(message.clone()), StoreChange::Remove(id), false)
        } else {
            (
                Some(message.clone()),
                StoreChange::SetLastError { remote_terminal_id: id, error: message.clone() },
                false,
            )
        },
    };
    (
        RemoteResumeOutcome {
            remote_terminal_id: record.remote_terminal_id.clone(),
            peer_id: record.peer_id.clone(),
            error,
        },
        change,
        rollback,
    )
}

/// A record is given up only when its pane is shown or its host does not know it.
pub proof fn lemma_records_are_kept_for_retry(record: RecordView, ended: Reacquired)
    ensures
        change_for(record, ended) is Remove <==> error_of(ended) is None || (ended matches
            Reacquired::Failed(message) && text::has_substring(message@, "not found"@)),
{
}

} // verus!
