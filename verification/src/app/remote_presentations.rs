//! Terminals that other hosts present.
//!
//! A delegation is prepared, committed when the other host attaches, and ends
//! when the pane is handed back, taken over, terminated or given up.

use vstd::prelude::*;
use vstd::string::*;

use super::list::{self, List};
use super::{
    App, AppView, CompletedTerminalDelegation, CompletedView, DelegatedPane, DelegatedView, Effect,
    EffectView, Mode, MovedPane, MovedView, Overlays, Pane, PaneView, PendingDelegationSource,
    PendingTerminalDelegation, PendingView, PlaceView, PublicPlace, SourceView, Tab, TabView,
    Terminal, TerminalView, Workspace, WorkspaceView,
};
use crate::api::schema::common::ErrorBody;
use crate::api::schema::peers::{
    DelegationView, OwnerView, PeerView, TerminalDelegateClaimParams, TerminalDelegateCreateParams,
    TerminalDelegationClaim, TerminalDelegationInfo, TerminalDelegationStatus,
    TerminalPresentationOwner,
};
use crate::text;

verus! {

/// A delegation that is not committed within this time is given up.
pub const PENDING_DELEGATION_TTL_MS: u64 = 30000;

/// A delegation that has ended is remembered for this time.
pub const COMPLETED_DELEGATION_TTL_MS: u64 = 30000;

/// A route that is this long is refused.
pub const MAX_ROUTE_HOSTS: usize = 32;

pub type Refusal = (Seq<char>, Seq<char>);

// ---------------------------------------------------------------------------
// Routes

/// Why a delegation to `owner` is refused.
pub open spec fn route_objection(owner: OwnerView, origin_peer_id: Seq<char>) -> Option<Refusal> {
    if owner.peer_id.len() == 0 || owner.pane_id.len() == 0 {
        Some(
            (
                "invalid_terminal_presentation_owner"@,
                "terminal presentation owner requires non-empty peer and pane ids"@,
            ),
        )
    } else if owner.route.len() == 0 || owner.route[0] != owner.peer_id {
        Some(
            (
                "invalid_terminal_presentation_route"@,
                "terminal presentation route must begin with its owner peer id"@,
            ),
        )
    } else if !owner.route.no_duplicates() {
        Some(
            (
                "invalid_terminal_presentation_route"@,
                "terminal presentation route must not repeat a host"@,
            ),
        )
    } else if owner.route.len() >= MAX_ROUTE_HOSTS {
        Some(
            (
                "terminal_presentation_route_too_deep"@,
                "terminal presentation route exceeds the 32-host safety limit"@,
            ),
        )
    } else if owner.route.contains(origin_peer_id) {
        Some(
            (
                "terminal_presentation_cycle"@,
                "terminal presentation route would revisit Herdr peer "@ + origin_peer_id,
            ),
        )
    } else {
        None
    }
}

/// Checks the owner that a terminal of `origin_peer_id` is to be delegated to.
pub fn validate_owner_route(owner: &TerminalPresentationOwner, origin_peer_id: &str) -> (r: Result<
    (),
    ErrorBody,
>)
    ensures
        match r {
            Ok(()) => route_objection(owner@, origin_peer_id@) is None,
            Err(e) => route_objection(owner@, origin_peer_id@) == Some(e@),
        },
{
    if owner.peer_id.as_str().is_empty() || owner.pane_id.as_str().is_empty() {
        return Err(
            ErrorBody::new(
                "invalid_terminal_presentation_owner",
                "terminal presentation owner requires non-empty peer and pane ids",
            ),
        );
    }
    if owner.route.len() == 0 || !text::str_eq(owner.route[0].as_str(), owner.peer_id.as_str()) {
        return Err(
            ErrorBody::new(
                "invalid_terminal_presentation_route",
                "terminal presentation route must begin with its owner peer id",
            ),
        );
    }
    if !text::distinct(&owner.route) {
        return Err(
            ErrorBody::new(
                "invalid_terminal_presentation_route",
                "terminal presentation route must not repeat a host",
            ),
        );
    }
    if owner.route.len() >= MAX_ROUTE_HOSTS {
        return Err(
            ErrorBody::new(
                "terminal_presentation_route_too_deep",
                "terminal presentation route exceeds the 32-host safety limit",
            ),
        );
    }
    if text::contains_string(&owner.route, origin_peer_id) {
        return Err(
            ErrorBody::new(
                "terminal_presentation_cycle",
                joined("terminal presentation route would revisit Herdr peer ", origin_peer_id).as_str(),
            ),
        );
    }
    Ok(())
}

pub(crate) fn joined(a: &str, b: &str) -> (r: String)
    ensures
        r@ == a@ + b@,
{
    let mut s = a.to_string();
    s.append(b);
    s
}

// ---------------------------------------------------------------------------
// Panes

pub open spec fn pane_numbered(pane_id: u64) -> spec_fn(PaneView) -> bool {
    |p: PaneView| p.pane_id == pane_id
}

pub open spec fn pane_attached(terminal_id: Seq<char>) -> spec_fn(PaneView) -> bool {
    |p: PaneView| p.terminal_id == terminal_id
}

pub open spec fn pane_in(w: WorkspaceView, pane_id: u64) -> Option<PaneView> {
    list::first(w.panes, pane_numbered(pane_id))
}

pub open spec fn holds_pane(pane_id: u64) -> spec_fn(WorkspaceView) -> bool {
    |w: WorkspaceView| list::some(w.panes, pane_numbered(pane_id))
}

pub open spec fn holds_terminal(terminal_id: Seq<char>) -> spec_fn(WorkspaceView) -> bool {
    |w: WorkspaceView| list::some(w.panes, pane_attached(terminal_id))
}

/// The pane of that number, in whatever workspace it is.
pub open spec fn pane_anywhere(workspaces: Seq<WorkspaceView>, pane_id: u64) -> Option<PaneView> {
    match list::first(workspaces, holds_pane(pane_id)) {
        Some(w) => pane_in(w, pane_id),
        None => None,
    }
}

/// The pane of a workspace that shows the terminal.
pub open spec fn pane_showing(workspaces: Seq<WorkspaceView>, terminal_id: Seq<char>) -> Option<
    PaneView,
> {
    match list::first(workspaces, holds_terminal(terminal_id)) {
        Some(w) => list::first(w.panes, pane_attached(terminal_id)),
        None => None,
    }
}

impl Workspace {
    pub fn pane(&self, pane_id: u64) -> (r: Option<&Pane>)
        ensures
            text::viewed(r) == pane_in(self@, pane_id),
    {
        let hit = |p: &Pane| -> (b: bool)
            ensures
                b == (p@.pane_id == pane_id),
        {
            p.pane_id == pane_id
        };
        match self.panes.find_by(hit, Ghost(pane_numbered(pane_id))) {
            Some(i) => Some(self.panes.at(i)),
            None => None,
        }
    }

    pub fn pane_of_terminal(&self, terminal_id: &str) -> (r: Option<&Pane>)
        ensures
            text::viewed(r) == list::first(self@.panes, pane_attached(terminal_id@)),
    {
        let hit = |p: &Pane| -> (b: bool)
            ensures
                b == (p@.terminal_id == terminal_id@),
        {
            text::str_eq(p.terminal_id.as_str(), terminal_id)
        };
        match self.panes.find_by(hit, Ghost(pane_attached(terminal_id@))) {
            Some(i) => Some(self.panes.at(i)),
            None => None,
        }
    }
}

impl App {
    /// The workspace that holds a pane.
    pub(crate) fn workspace_of(&self, pane_id: u64) -> (r: Option<usize>)
        ensures
            match r {
                Some(i) => i < self@.workspaces.len() && list::first(
                    self@.workspaces,
                    holds_pane(pane_id),
                ) == Some(self@.workspaces[i as int]) && i == list::place(
                    self@.workspaces,
                    holds_pane(pane_id),
                ) && pane_in(self@.workspaces[i as int], pane_id) is Some,
                None => list::first(self@.workspaces, holds_pane(pane_id)) is None,
            },
    {
        let hit = |w: &Workspace| -> (b: bool)
            ensures
                b == list::some(w@.panes, pane_numbered(pane_id)),
        {
            w.pane(pane_id).is_some()
        };
        self.workspaces.find_by(hit, Ghost(holds_pane(pane_id)))
    }

    pub fn find_pane(&self, pane_id: u64) -> (r: Option<&Pane>)
        ensures
            text::viewed(r) == pane_anywhere(self@.workspaces, pane_id),
    {
        match self.workspace_of(pane_id) {
            Some(i) => self.workspaces.at(i).pane(pane_id),
            None => None,
        }
    }

    /// The pane of a workspace that shows a terminal.
    pub fn pane_for_terminal(&self, terminal_id: &str) -> (r: Option<u64>)
        ensures
            r == match pane_showing(self@.workspaces, terminal_id@) {
                Some(p) => Some(p.pane_id),
                None => None,
            },
    {
        let hit = |w: &Workspace| -> (b: bool)
            ensures
                b == list::some(w@.panes, pane_attached(terminal_id@)),
        {
            w.pane_of_terminal(terminal_id).is_some()
        };
        match self.workspaces.find_by(hit, Ghost(holds_terminal(terminal_id@))) {
            Some(i) => match self.workspaces.at(i).pane_of_terminal(terminal_id) {
                Some(p) => Some(p.pane_id),
                None => None,
            },
            None => None,
        }
    }
}

// ---------------------------------------------------------------------------
// New delegations

/// The hosts on the way, ending with the one that the terminal runs on.
pub open spec fn route_from(route: Seq<Seq<char>>, origin_peer_id: Seq<char>) -> Seq<Seq<char>> {
    if route.len() > 0 && route.last() == origin_peer_id {
        route
    } else {
        route.push(origin_peer_id)
    }
}

pub open spec fn delegation_name(terminal_id: Seq<char>, sequence: u64) -> Seq<char> {
    "delegation-"@ + text::without_prefixes(terminal_id, "term_"@) + "-"@ + text::hex(
        sequence as nat,
    )
}

/// The delegation that is prepared next.
pub open spec fn new_info(
    s: AppView,
    terminal_id: Seq<char>,
    public_pane_id: Seq<char>,
    owner: OwnerView,
) -> DelegationView {
    DelegationView {
        delegation_id: delegation_name(terminal_id, s.next_delegation),
        epoch: 1,
        terminal_id,
        pane_id: public_pane_id,
        origin_peer_id: s.local_peer_id,
        owner: OwnerView { route: route_from(owner.route, s.local_peer_id), ..owner },
        status: TerminalDelegationStatus::Pending,
    }
}

pub open spec fn next_sequence(n: u64) -> u64 {
    if n == u64::MAX {
        0
    } else {
        (n + 1) as u64
    }
}

/// `s` with a delegation prepared.
pub open spec fn prepared(
    s: AppView,
    terminal_id: Seq<char>,
    public_pane_id: Seq<char>,
    owner: OwnerView,
    source: SourceView,
    now_ms: u64,
) -> AppView {
    let info = new_info(s, terminal_id, public_pane_id, owner);
    AppView {
        next_delegation: next_sequence(s.next_delegation),
        pending: list::with(
            s.pending,
            info.delegation_id,
            PendingView { info, source, created_at_ms: now_ms },
        ),
        ..s
    }
}

impl App {
    /// Makes the record of a new delegation of a terminal of this server.
    pub(crate) fn new_delegation_info(
        &mut self,
        terminal_id: &str,
        public_pane_id: &str,
        owner: TerminalPresentationOwner,
    ) -> (info: TerminalDelegationInfo)
        ensures
            info@ == new_info(old(self)@, terminal_id@, public_pane_id@, owner@),
            final(self)@ == (AppView {
                next_delegation: next_sequence(old(self)@.next_delegation),
                ..old(self)@
            }),
    {
        let sequence: u64 = self.next_delegation;
        self.next_delegation = self.next_delegation.wrapping_add(1);
        let mut owner = owner;
        let hops: usize = owner.route.len();
        if hops == 0 || !text::str_eq(
            owner.route[hops - 1].as_str(),
            self.local_peer_id.as_str(),
        ) {
            let ghost before = owner.route@;
            owner.route.push(self.local_peer_id.clone());
            assert(text::views(owner.route@) =~= text::views(before).push(self.local_peer_id@));
        }
        let mut delegation_id = joined(
            "delegation-",
            text::trim_prefixes(terminal_id, "term_").as_str(),
        );
        delegation_id.append("-");
        delegation_id.append(text::hex_string(sequence as u128).as_str());
        TerminalDelegationInfo {
            delegation_id,
            epoch: 1,
            terminal_id: terminal_id.to_string(),
            pane_id: public_pane_id.to_string(),
            origin_peer_id: self.local_peer_id.clone(),
            owner,
            status: TerminalDelegationStatus::Pending,
        }
    }

    fn prepare(
        &mut self,
        terminal_id: &str,
        public_pane_id: &str,
        owner: TerminalPresentationOwner,
        source: PendingDelegationSource,
        now_ms: u64,
    ) -> (info: TerminalDelegationInfo)
        ensures
            info@ == new_info(old(self)@, terminal_id@, public_pane_id@, owner@),
            final(self)@ == prepared(
                old(self)@,
                terminal_id@,
                public_pane_id@,
                owner@,
                source@,
                now_ms,
            ),
    {
        let info = self.new_delegation_info(terminal_id, public_pane_id, owner);
        let answer = info.clone();
        self.pending.insert(
            info.delegation_id.clone(),
            PendingTerminalDelegation { info, source, created_at_ms: now_ms },
        );
        answer
    }
}

/// A terminal that was started for a delegation.
pub struct NewShell {
    pub terminal_id: String,
    pub terminal: Terminal,
    /// The pane, where it could be taken out of the workspace it was made in.
    pub moved: Option<MovedPane>,
    pub place: PublicPlace,
}

/// The terminal under the label that was asked for; an empty one counts for
/// nothing.
pub open spec fn labelled(t: TerminalView, label: Option<Seq<char>>) -> TerminalView {
    match label {
        Some(l) => if l.len() > 0 {
            TerminalView { manual_label: Some(l), ..t }
        } else {
            t
        },
        None => t,
    }
}

/// How a shell is to be started for a delegation.
pub struct ShellLaunch {
    pub cwd: String,
    pub env: Vec<(String, String)>,
}

/// What comes of a terminal that was to be started.
pub open spec fn shell_prepared(
    s: AppView,
    owner: OwnerView,
    label: Option<Seq<char>>,
    created: Result<NewShell, String>,
    now_ms: u64,
) -> (AppView, Result<DelegationView, Refusal>) {
    match created {
        Err(e) => (s, Err(("terminal_delegate_create_failed"@, e@))),
        Ok(shell) => match shell.moved {
            None => (
                AppView {
                    effects: s.effects.push(EffectView::ShutDownRuntime(shell.terminal_id@)),
                    ..s
                },
                Err(
                    (
                        "terminal_delegate_create_failed"@,
                        "new remote terminal could not be detached for delegation"@,
                    ),
                ),
            ),
            Some(moved) => (
                prepared(
                    AppView {
                        terminals: list::with(
                            s.terminals,
                            shell.terminal_id@,
                            labelled(shell.terminal@, label),
                        ),
                        runtimes: list::with(s.runtimes, shell.terminal_id@, ()),
                        ..s
                    },
                    shell.terminal_id@,
                    shell.place@.pane_id,
                    owner,
                    SourceView::New { moved: moved@, place: shell.place@ },
                    now_ms,
                ),
                Ok(new_info(s, shell.terminal_id@, shell.place@.pane_id, owner)),
            ),
        },
    }
}

impl App {
    /// Whether and how a shell is to be started for a delegation. `env` is what
    /// the environment that was asked for comes to.
    pub fn begin_delegated_terminal(
        &self,
        params: &TerminalDelegateCreateParams,
        env: Result<Vec<(String, String)>, ErrorBody>,
        default_cwd: String,
    ) -> (r: Result<ShellLaunch, ErrorBody>)
        ensures
            match route_objection(params.owner@, self@.local_peer_id) {
                Some(e) => r matches Err(body) && body@ == e,
                None => match env {
                    Err(e) => r == Err::<ShellLaunch, ErrorBody>(e),
                    Ok(vars) => r matches Ok(launch) && launch.env == vars && launch.cwd@
                        == match params.cwd {
                        Some(cwd) => cwd@,
                        None => default_cwd@,
                    },
                },
            },
    {
        match validate_owner_route(&params.owner, self.local_peer_id.as_str()) {
            Ok(()) => {},
            Err(e) => return Err(e),
        }
        let env = match env {
            Ok(env) => env,
            Err(e) => return Err(e),
        };
        let cwd = match &params.cwd {
            Some(cwd) => cwd.clone(),
            None => default_cwd,
        };
        Ok(ShellLaunch { cwd, env })
    }

    /// Prepares the delegation of a terminal that was just started for it.
    pub fn prepare_delegated_terminal(
        &mut self,
        owner: TerminalPresentationOwner,
        label: Option<String>,
        created: Result<NewShell, String>,
        now_ms: u64,
    ) -> (r: Result<TerminalDelegationInfo, ErrorBody>)
        ensures
            final(self)@ == shell_prepared(
                old(self)@,
                owner@,
                text::opt_view(label),
                created,
                now_ms,
            ).0,
            text::outcome(r) == shell_prepared(
                old(self)@,
                owner@,
                text::opt_view(label),
                created,
                now_ms,
            ).1,
    {
        let shell = match created {
            Ok(shell) => shell,
            Err(e) => {
                return Err(ErrorBody::new("terminal_delegate_create_failed", e.as_str()));
            },
        };
        let moved = match shell.moved {
            Some(moved) => moved,
            None => {
                self.effects.push(Effect::ShutDownRuntime(shell.terminal_id));
                return Err(
                    ErrorBody::new(
                        "terminal_delegate_create_failed",
                        "new remote terminal could not be detached for delegation",
                    ),
                );
            },
        };
        let mut terminal = shell.terminal;
        match label {
            Some(label) => if !label.as_str().is_empty() {
                terminal.manual_label = Some(label);
            },
            None => {},
        }
        self.runtimes.insert(shell.terminal_id.clone(), ());
        self.terminals.insert(shell.terminal_id.clone(), terminal);
        let public_pane_id = shell.place.pane_id.clone();
        Ok(
            self.prepare(
                shell.terminal_id.as_str(),
                public_pane_id.as_str(),
                owner,
                PendingDelegationSource::New { moved, place: shell.place },
                now_ms,
            ),
        )
    }
}

// ---------------------------------------------------------------------------
// Who presents what

pub open spec fn for_terminal(terminal_id: Seq<char>) -> spec_fn(
    (Seq<char>, super::ActivationView),
) -> bool {
    |row: (Seq<char>, super::ActivationView)| row.1.terminal_id == terminal_id
}

/// The terminal shows, or is about to show, a terminal of another host.
pub open spec fn has_downstream(s: AppView, terminal_id: Seq<char>) -> bool {
    ||| list::present(s.remote_owner_presentations, terminal_id)
    ||| list::present(s.ssh_shell_bridges, terminal_id)
    ||| list::present(s.remote_terminal_bridges, terminal_id)
    ||| list::present(s.pending_owner_operations, terminal_id)
    ||| list::some(s.pending_owner_activations, for_terminal(terminal_id))
}

/// The terminal goes by that name.
pub open spec fn terminal_named(s: AppView, terminal_id: Seq<char>, name: Seq<char>) -> bool {
    match list::lookup(s.terminals, terminal_id) {
        Some(t) => t.agent_name == Some(name) || t.agent_label == Some(name),
        None => false,
    }
}

pub open spec fn delegated_matches(d: DelegatedView, target: Seq<char>, aliased: Option<u64>) -> bool {
    ||| d.info.terminal_id == target
    ||| d.info.pane_id == target
    ||| d.place.pane_id == target
    ||| aliased == Some(d.moved.pane_id)
}

/// The delegated pane is the one that a target names.
pub open spec fn targets(s: AppView, target: Seq<char>) -> spec_fn((Seq<char>, DelegatedView)) -> bool {
    |row: (Seq<char>, DelegatedView)|
        delegated_matches(row.1, target, list::lookup(s.public_pane_id_aliases, target))
            || terminal_named(s, row.1.moved.terminal_id, target)
}

/// The delegated pane has that public id, now or before.
pub open spec fn publicly(s: AppView, public_pane_id: Seq<char>) -> spec_fn(
    (Seq<char>, DelegatedView),
) -> bool {
    |row: (Seq<char>, DelegatedView)|
        row.1.place.pane_id == public_pane_id || list::lookup(
            s.public_pane_id_aliases,
            public_pane_id,
        ) == Some(row.1.moved.pane_id)
}

impl App {
    pub fn terminal_has_downstream_presentation(&self, terminal_id: &str) -> (r: bool)
        ensures
            r == has_downstream(self@, terminal_id@),
    {
        let waits = |row: &(String, super::PendingOwnerActivation)| -> (b: bool)
            ensures
                b == (row@.1.terminal_id == terminal_id@),
        {
            text::str_eq(row.1.terminal_id.as_str(), terminal_id)
        };
        self.remote_owner_presentations.contains(terminal_id) || self.ssh_shell_bridges.contains(
            terminal_id,
        ) || self.remote_terminal_bridges.contains(terminal_id)
            || self.pending_owner_operations.contains(terminal_id)
            || self.pending_owner_activations.some_by(waits, Ghost(for_terminal(terminal_id@)))
    }

    fn goes_by(&self, terminal_id: &str, name: &str) -> (r: bool)
        ensures
            r == terminal_named(self@, terminal_id@, name@),
    {
        match self.terminals.get(terminal_id) {
            Some(t) => named(&t.agent_name, name) || named(&t.agent_label, name),
            None => false,
        }
    }

    fn alias(&self, public_pane_id: &str) -> (r: Option<u64>)
        ensures
            r == list::lookup(self@.public_pane_id_aliases, public_pane_id@),
    {
        match self.public_pane_id_aliases.get(public_pane_id) {
            Some(pane_id) => Some(*pane_id),
            None => None,
        }
    }

    pub(crate) fn delegated_target(&self, target: &str) -> (r: Option<usize>)
        ensures
            match r {
                Some(i) => i < self@.delegated.len() && list::first(
                    self@.delegated,
                    targets(self@, target@),
                ) == Some(self@.delegated[i as int]),
                None => list::first(self@.delegated, targets(self@, target@)) is None,
            },
    {
        let aliased = self.alias(target);
        let hit = |row: &(String, DelegatedPane)| -> (b: bool)
            ensures
                b == targets(self@, target@)(row@),
        {
            delegated_matches_target(&row.1, target, aliased) || self.goes_by(
                row.1.moved.terminal_id.as_str(),
                target,
            )
        };
        self.delegated.find_by(hit, Ghost(targets(self@, target@)))
    }

    /// The delegated pane of a public id, now or before.
    pub fn delegated_pane_for_public_id(&self, public_pane_id: &str) -> (r: Option<&DelegatedPane>)
        ensures
            text::viewed(r) == match list::first(
                self@.delegated,
                publicly(self@, public_pane_id@),
            ) {
                Some(row) => Some(row.1),
                None => None,
            },
    {
        match self.delegated_index(public_pane_id) {
            Some(i) => Some(&self.delegated.at(i).1),
            None => None,
        }
    }

    pub(crate) fn delegated_index(&self, public_pane_id: &str) -> (r: Option<usize>)
        ensures
            match r {
                Some(i) => i < self@.delegated.len() && list::first(
                    self@.delegated,
                    publicly(self@, public_pane_id@),
                ) == Some(self@.delegated[i as int]),
                None => list::first(self@.delegated, publicly(self@, public_pane_id@)) is None,
            },
    {
        let aliased = self.alias(public_pane_id);
        let hit = |row: &(String, DelegatedPane)| -> (b: bool)
            ensures
                b == publicly(self@, public_pane_id@)(row@),
        {
            text::str_eq(row.1.place.pane_id.as_str(), public_pane_id) || same_pane(
                aliased,
                row.1.moved.pane_id,
            )
        };
        self.delegated.find_by(hit, Ghost(publicly(self@, public_pane_id@)))
    }
}

fn same_pane(aliased: Option<u64>, pane_id: u64) -> (r: bool)
    ensures
        r == (aliased == Some(pane_id)),
{
    match aliased {
        Some(p) => p == pane_id,
        None => false,
    }
}

fn named(label: &Option<String>, name: &str) -> (r: bool)
    ensures
        r == (text::opt_view(*label) == Some(name@)),
{
    match label {
        Some(l) => text::str_eq(l.as_str(), name),
        None => false,
    }
}

/// A delegated pane is known by its terminal, its pane ids and their aliases.
pub fn delegated_matches_target(
    delegated: &DelegatedPane,
    target: &str,
    aliased_pane_id: Option<u64>,
) -> (r: bool)
    ensures
        r == delegated_matches(delegated@, target@, aliased_pane_id),
{
    text::str_eq(delegated.info.terminal_id.as_str(), target) || text::str_eq(
        delegated.info.pane_id.as_str(),
        target,
    ) || text::str_eq(delegated.place.pane_id.as_str(), target) || same_pane(
        aliased_pane_id,
        delegated.moved.pane_id,
    )
}

// ---------------------------------------------------------------------------
// Delegating what runs already

/// Where a target was found.
#[derive(Debug, Clone, Copy, PartialEq, Eq, Structural)]
pub struct TerminalTarget {
    pub ws_idx: usize,
    pub tab_idx: usize,
    pub pane_id: u64,
}

pub open spec fn target_refusal(target: Seq<char>, what: Seq<char>) -> Refusal {
    ("terminal_not_found"@, "terminal target "@ + target + what)
}

pub open spec fn public_tab(w: WorkspaceView, tab_idx: usize) -> Option<Seq<char>> {
    if tab_idx < w.tabs.len() {
        w.tabs[tab_idx as int].public_tab_id
    } else {
        None
    }
}

/// The public ids of a pane that was found, and its terminal.
pub open spec fn found_pane(s: AppView, target: Seq<char>, resolved: Option<TerminalTarget>) -> Result<
    (Seq<char>, PlaceView),
    Refusal,
> {
    match resolved {
        None => Err(target_refusal(target, " not found"@)),
        Some(t) => {
            let w = s.workspaces[t.ws_idx as int];
            match pane_in(w, t.pane_id) {
                None => Err(target_refusal(target, " not found"@)),
                Some(pane) => match pane.public_pane_id {
                    None => Err(target_refusal(target, " has no public pane id"@)),
                    Some(pane_id) => match public_tab(w, t.tab_idx) {
                        None => Err(target_refusal(target, " has no public tab id"@)),
                        Some(tab_id) => Ok(
                            (
                                pane.terminal_id,
                                PlaceView { pane_id, workspace_id: w.id, tab_id },
                            ),
                        ),
                    },
                },
            }
        },
    }
}

pub open spec fn already_delegated(d: DelegatedView) -> Refusal {
    (
        "terminal_already_delegated"@,
        "terminal "@ + d.info.terminal_id + " is already presented by "@ + d.info.owner.peer_id
            + "; retry with --takeover"@,
    )
}

pub open spec fn nested_takeover() -> Refusal {
    (
        "nested_terminal_takeover_unsupported"@,
        "this pane currently owns a deeper remote presentation; hand that presentation back or close it before taking over the pane"@,
    )
}

/// What comes of the claim of a terminal that runs already: a terminal that
/// another host presents can only be taken over.
pub open spec fn claimed(
    s: AppView,
    target: Seq<char>,
    owner: OwnerView,
    takeover: bool,
    terminate_on_expire: bool,
    resolved: Option<TerminalTarget>,
    now_ms: u64,
) -> (AppView, Result<DelegationView, Refusal>) {
    match route_objection(owner, s.local_peer_id) {
        Some(e) => (s, Err(e)),
        None => match list::first(s.delegated, targets(s, target)) {
            Some((delegation_id, d)) => if !takeover {
                (s, Err(already_delegated(d)))
            } else if has_downstream(s, d.moved.terminal_id) {
                (s, Err(nested_takeover()))
            } else {
                (
                    prepared(
                        s,
                        d.moved.terminal_id,
                        d.place.pane_id,
                        owner,
                        SourceView::Takeover { previous_delegation_id: delegation_id },
                        now_ms,
                    ),
                    Ok(new_info(s, d.moved.terminal_id, d.place.pane_id, owner)),
                )
            },
            None => match found_pane(s, target, resolved) {
                Err(e) => (s, Err(e)),
                Ok((terminal_id, place)) => (
                    prepared(
                        s,
                        terminal_id,
                        place.pane_id,
                        owner,
                        SourceView::Existing {
                            pane_id: resolved->0.pane_id,
                            place,
                            terminate_on_expire,
                        },
                        now_ms,
                    ),
                    Ok(new_info(s, terminal_id, place.pane_id, owner)),
                ),
            },
        },
    }
}

fn refuse_target(target: &str, what: &str) -> (e: ErrorBody)
    ensures
        e@ == target_refusal(target@, what@),
{
    let mut message = joined("terminal target ", target);
    message.append(what);
    ErrorBody::new("terminal_not_found", message.as_str())
}

impl App {
    fn place_of(&self, target: &str, resolved: Option<TerminalTarget>) -> (r: Result<
        (String, PublicPlace),
        ErrorBody,
    >)
        requires
            resolved matches Some(t) ==> t.ws_idx < self@.workspaces.len(),
        ensures
            match r {
                Ok((terminal_id, place)) => found_pane(self@, target@, resolved)
                    == Ok::<(Seq<char>, PlaceView), Refusal>((terminal_id@, place@)),
                Err(e) => found_pane(self@, target@, resolved)
                    == Err::<(Seq<char>, PlaceView), Refusal>(e@),
            },
    {
        let t = match resolved {
            Some(t) => t,
            None => return Err(refuse_target(target, " not found")),
        };
        let w = self.workspaces.at(t.ws_idx);
        let pane = match w.pane(t.pane_id) {
            Some(pane) => pane,
            None => return Err(refuse_target(target, " not found")),
        };
        let pane_id = match &pane.public_pane_id {
            Some(id) => id.clone(),
            None => return Err(refuse_target(target, " has no public pane id")),
        };
        if t.tab_idx >= w.tabs.len() {
            return Err(refuse_target(target, " has no public tab id"));
        }
        let tab_id = match &w.tabs.at(t.tab_idx).public_tab_id {
            Some(id) => id.clone(),
            None => return Err(refuse_target(target, " has no public tab id")),
        };
        Ok((pane.terminal_id.clone(), PublicPlace { pane_id, workspace_id: w.id.clone(), tab_id }))
    }

    /// Prepares the delegation of a terminal that runs already. `resolved` is
    /// where the target was found among the panes of the workspaces.
    pub fn prepare_existing_terminal_delegation(
        &mut self,
        params: TerminalDelegateClaimParams,
        resolved: Option<TerminalTarget>,
        now_ms: u64,
    ) -> (r: Result<TerminalDelegationInfo, ErrorBody>)
        requires
            resolved matches Some(t) ==> t.ws_idx < old(self)@.workspaces.len(),
        ensures
            final(self)@ == claimed(
                old(self)@,
                params.target@,
                params.owner@,
                params.takeover,
                params.terminate_on_expire,
                resolved,
                now_ms,
            ).0,
            text::outcome(r) == claimed(
                old(self)@,
                params.target@,
                params.owner@,
                params.takeover,
                params.terminate_on_expire,
                resolved,
                now_ms,
            ).1,
    {
        match validate_owner_route(&params.owner, self.local_peer_id.as_str()) {
            Ok(()) => {},
            Err(e) => return Err(e),
        }
        match self.delegated_target(params.target.as_str()) {
            Some(i) => {
                let row = self.delegated.at(i);
                let d = &row.1;
                if !params.takeover {
                    let mut message = joined("terminal ", d.info.terminal_id.as_str());
                    message.append(" is already presented by ");
                    message.append(d.info.owner.peer_id.as_str());
                    message.append("; retry with --takeover");
                    return Err(ErrorBody::new("terminal_already_delegated", message.as_str()));
                }
                if self.terminal_has_downstream_presentation(d.moved.terminal_id.as_str()) {
                    return Err(
                        ErrorBody::new(
                            "nested_terminal_takeover_unsupported",
                            "this pane currently owns a deeper remote presentation; hand that presentation back or close it before taking over the pane",
                        ),
                    );
                }
                let previous_delegation_id = row.0.clone();
                let terminal_id = d.moved.terminal_id.clone();
                let public_pane_id = d.place.pane_id.clone();
                return Ok(
                    self.prepare(
                        terminal_id.as_str(),
                        public_pane_id.as_str(),
                        params.owner,
                        PendingDelegationSource::Takeover { previous_delegation_id },
                        now_ms,
                    ),
                );
            },
            None => {},
        }
        match self.place_of(params.target.as_str(), resolved) {
            Err(e) => Err(e),
            Ok((terminal_id, place)) => {
                let pane_id: u64 = match resolved {
                    Some(t) => t.pane_id,
                    None => 0,
                };
                let public_pane_id = place.pane_id.clone();
                Ok(
                    self.prepare(
                        terminal_id.as_str(),
                        public_pane_id.as_str(),
                        params.owner,
                        PendingDelegationSource::Existing {
                            pane_id,
                            place,
                            terminate_on_expire: params.terminate_on_expire,
                        },
                        now_ms,
                    ),
                )
            },
        }
    }
}

// ---------------------------------------------------------------------------
// Giving up what was prepared

/// `effects`, and `more` where `yes`.
pub open spec fn effects_if(effects: Seq<EffectView>, yes: bool, more: EffectView) -> Seq<
    EffectView,
> {
    if yes {
        effects.push(more)
    } else {
        effects
    }
}

/// The process of a terminal is ended, where it runs.
pub open spec fn shut_down(s: AppView, terminal_id: Seq<char>) -> AppView {
    AppView {
        runtimes: list::without(s.runtimes, terminal_id),
        effects: effects_if(
            s.effects,
            list::present(s.runtimes, terminal_id),
            EffectView::ShutDownRuntime(terminal_id),
        ),
        ..s
    }
}

/// The prepared delegation has failed. A terminal that was started for it goes
/// with it.
pub open spec fn failed(s: AppView, p: PendingView, now_ms: u64) -> AppView {
    let stopped = match p.source {
        SourceView::New { moved, .. } => shut_down(
            AppView { terminals: list::without(s.terminals, moved.terminal_id), ..s },
            moved.terminal_id,
        ),
        SourceView::Existing { pane_id, terminate_on_expire, .. } => if terminate_on_expire {
            match pane_anywhere(s.workspaces, pane_id) {
                Some(pane) => shut_down(s, pane.terminal_id),
                None => s,
            }
        } else {
            s
        },
        SourceView::Takeover { .. } => s,
    };
    AppView {
        completed: list::with(
            stopped.completed,
            p.info.delegation_id,
            CompletedView {
                info: DelegationView { status: TerminalDelegationStatus::Failed, ..p.info },
                completed_at_ms: now_ms,
            },
        ),
        session_dirty: true,
        ..stopped
    }
}

/// The prepared delegations of these ids have failed, in that order.
pub open spec fn failed_all(s: AppView, ids: Seq<Seq<char>>, now_ms: u64) -> AppView
    decreases ids.len(),
{
    if ids.len() == 0 {
        s
    } else {
        failed_all(failed_one(s, ids[0], now_ms), ids.skip(1), now_ms)
    }
}

pub open spec fn failed_one(s: AppView, id: Seq<char>, now_ms: u64) -> AppView {
    match list::lookup(s.pending, id) {
        Some(p) => failed(AppView { pending: list::without(s.pending, id), ..s }, p, now_ms),
        None => s,
    }
}

/// What was prepared can fail without a change to what is presented.
pub proof fn lemma_failing_keeps(s: AppView, ids: Seq<Seq<char>>, now_ms: u64)
    ensures
        failed_all(s, ids, now_ms).delegated == s.delegated,
        failed_all(s, ids, now_ms).delegated_terminal_ids == s.delegated_terminal_ids,
        failed_all(s, ids, now_ms).workspaces == s.workspaces,
        failed_all(s, ids, now_ms).active == s.active,
        failed_all(s, ids, now_ms).peers == s.peers,
        failed_all(s, ids, now_ms).peer_bridges == s.peer_bridges,
        failed_all(s, ids, now_ms).remote_owner_presentations == s.remote_owner_presentations,
    decreases ids.len(),
{
    if ids.len() > 0 {
        lemma_failing_keeps(failed_one(s, ids[0], now_ms), ids.skip(1), now_ms);
    }
}

/// The prepared delegation would take over that one.
pub open spec fn takes_over(delegation_id: Seq<char>) -> spec_fn((Seq<char>, PendingView)) -> bool {
    |row: (Seq<char>, PendingView)|
        row.1.source == SourceView::Takeover { previous_delegation_id: delegation_id }
}

pub open spec fn takeovers_failed(s: AppView, delegation_id: Seq<char>, now_ms: u64) -> AppView {
    failed_all(s, list::keys_of(s.pending.filter(takes_over(delegation_id))), now_ms)
}

impl App {
    pub(crate) fn shut_down_runtime(&mut self, terminal_id: &str)
        ensures
            final(self)@ == shut_down(old(self)@, terminal_id@),
    {
        if self.runtimes.contains(terminal_id) {
            self.effects.push(Effect::ShutDownRuntime(terminal_id.to_string()));
        }
        self.runtimes.discard(terminal_id);
    }

    pub(crate) fn fail_pending_delegation_at(
        &mut self,
        pending: PendingTerminalDelegation,
        now_ms: u64,
    )
        ensures
            final(self)@ == failed(old(self)@, pending@, now_ms),
    {
        match &pending.source {
            PendingDelegationSource::New { moved, .. } => {
                self.terminals.discard(moved.terminal_id.as_str());
                self.shut_down_runtime(moved.terminal_id.as_str());
            },
            PendingDelegationSource::Existing { pane_id, terminate_on_expire, .. } => {
                if *terminate_on_expire {
                    let terminal_id = match self.find_pane(*pane_id) {
                        Some(pane) => Some(pane.terminal_id.clone()),
                        None => None,
                    };
                    match terminal_id {
                        Some(t) => self.shut_down_runtime(t.as_str()),
                        None => {},
                    }
                }
            },
            PendingDelegationSource::Takeover { .. } => {},
        }
        let mut info = pending.info;
        info.status = TerminalDelegationStatus::Failed;
        self.completed.insert(
            info.delegation_id.clone(),
            CompletedTerminalDelegation { info, completed_at_ms: now_ms },
        );
        self.session_dirty = true;
    }

    pub(crate) fn fail_pending_ids(&mut self, ids: &Vec<String>, now_ms: u64)
        ensures
            final(self)@ == failed_all(old(self)@, text::views(ids@), now_ms),
    {
        let mut i: usize = 0;
        assert(text::views(ids@).skip(0) =~= text::views(ids@));
        while i < ids.len()
            invariant
                i <= ids@.len(),
                failed_all(self@, text::views(ids@).skip(i as int), now_ms) == failed_all(
                    old(self)@,
                    text::views(ids@),
                    now_ms,
                ),
            decreases ids@.len() - i,
        {
            assert(text::views(ids@).skip(i as int)[0] == ids@[i as int]@);
            assert(text::views(ids@).skip(i as int).skip(1) =~= text::views(ids@).skip(
                i as int + 1,
            ));
            let ghost before = self@;
            match self.pending.remove(ids[i].as_str()) {
                Some(p) => self.fail_pending_delegation_at(p, now_ms),
                None => {
                    proof {
                        list::lemma_without_absent(before.pending, ids@[i as int]@);
                    }
                },
            }
            assert(self@ == failed_one(before, ids@[i as int]@, now_ms));
            i += 1;
        }
    }

    pub(crate) fn fail_pending_takeovers_for(&mut self, previous_delegation_id: &str, now_ms: u64)
        ensures
            final(self)@ == takeovers_failed(old(self)@, previous_delegation_id@, now_ms),
    {
        let hit = |row: &(String, PendingTerminalDelegation)| -> (b: bool)
            ensures
                b == takes_over(previous_delegation_id@)(row@),
        {
            match &row.1.source {
                PendingDelegationSource::Takeover { previous_delegation_id: candidate } =>
                    text::str_eq(candidate.as_str(), previous_delegation_id),
                _ => false,
            }
        };
        let ids = self.pending.keys_by(hit, Ghost(takes_over(previous_delegation_id@)));
        self.fail_pending_ids(&ids, now_ms);
    }
}

// ---------------------------------------------------------------------------
// Committing

/// What a workspace looks like once a pane was taken out of its layout.
pub struct Detached {
    pub tabs: List<Tab>,
    pub active_tab: usize,
    pub focused: Option<u64>,
}

pub struct DetachedView {
    pub tabs: Seq<TabView>,
    pub active_tab: usize,
    pub focused: Option<u64>,
}

impl View for Detached {
    type V = DetachedView;

    open spec fn view(&self) -> DetachedView {
        DetachedView { tabs: self.tabs@, active_tab: self.active_tab, focused: self.focused }
    }
}

pub open spec fn other_panes(pane_id: u64) -> spec_fn(PaneView) -> bool {
    |p: PaneView| p.pane_id != pane_id
}

pub open spec fn other_numbers(pane_id: u64) -> spec_fn(u64) -> bool {
    |p: u64| p != pane_id
}

pub open spec fn other_delegated(pane_id: u64) -> spec_fn((u64, Seq<char>)) -> bool {
    |row: (u64, Seq<char>)| row.0 != pane_id
}

pub open spec fn unless(x: Option<u64>, pane_id: u64) -> Option<u64> {
    if x == Some(pane_id) {
        None
    } else {
        x
    }
}

/// Nothing on the screen is about the pane any more.
pub open spec fn hidden(s: AppView, workspace_id: Seq<char>, pane_id: u64) -> AppView {
    AppView {
        pending_agent_notifications: s.pending_agent_notifications.filter(other_numbers(pane_id)),
        overlays: Overlays {
            previous_pane_focus: unless(s.overlays.previous_pane_focus, pane_id),
            rename_pane_target: unless(s.overlays.rename_pane_target, pane_id),
            selection: unless(s.overlays.selection, pane_id),
            selection_autoscroll: s.overlays.selection_autoscroll && s.overlays.selection != Some(
                pane_id,
            ),
            copy_mode: unless(s.overlays.copy_mode, pane_id),
            context_menu: false,
            drag: false,
            workspace_press: false,
            tab_press: false,
        },
        toast: if s.toast == Some((workspace_id, pane_id)) {
            None
        } else {
            s.toast
        },
        ..s
    }
}

/// Where a place in a list of `n` is found after the row at `gone` has left.
pub open spec fn shifted(place: usize, gone: int, n: int) -> usize {
    if place == gone {
        if gone < n {
            place
        } else {
            (n - 1) as usize
        }
    } else if place > gone {
        (place - 1) as usize
    } else {
        place
    }
}

/// The workspace at `i` is gone.
pub open spec fn workspace_removed(s: AppView, i: int) -> AppView {
    let left = s.workspaces.remove(i);
    if left.len() == 0 {
        AppView {
            workspaces: left,
            active: None,
            selected: 0,
            mode: if s.mode == Mode::Terminal {
                Mode::Navigate
            } else {
                s.mode
            },
            ..s
        }
    } else {
        AppView {
            workspaces: left,
            active: match s.active {
                Some(a) => Some(shifted(a, i, left.len() as int)),
                None => None,
            },
            selected: shifted(s.selected, i, left.len() as int),
            ..s
        }
    }
}

/// The focus follows the active workspace.
pub open spec fn refocused(s: AppView) -> AppView {
    AppView {
        last_focus: match s.active {
            Some(i) => if i < s.workspaces.len() {
                match s.workspaces[i as int].focused {
                    Some(pane_id) => Some((i, pane_id)),
                    None => None,
                }
            } else {
                None
            },
            None => None,
        },
        ..s
    }
}

/// The pane has left its workspace; an empty workspace goes with it.
pub open spec fn pane_taken(s: AppView, pane_id: u64, detached: DetachedView) -> AppView {
    let i = list::place(s.workspaces, holds_pane(pane_id));
    let w = s.workspaces[i];
    let left = w.panes.filter(other_panes(pane_id));
    let cleared = hidden(s, w.id, pane_id);
    refocused(
        if left.len() == 0 {
            workspace_removed(cleared, i)
        } else {
            AppView {
                workspaces: s.workspaces.update(
                    i,
                    WorkspaceView {
                        panes: left,
                        tabs: detached.tabs,
                        active_tab: detached.active_tab,
                        focused: detached.focused,
                        ..w
                    },
                ),
                ..cleared
            }
        },
    )
}

impl App {
    fn clear_hidden_pane_presentation_state(&mut self, workspace_id: &str, pane_id: u64)
        ensures
            final(self)@ == hidden(old(self)@, workspace_id@, pane_id),
    {
        let other = |p: &u64| -> (b: bool)
            ensures
                b == (*p != pane_id),
        {
            *p != pane_id
        };
        self.pending_agent_notifications.retain_by(other, Ghost(other_numbers(pane_id)));
        let o = self.overlays;
        let selected = same_pane(o.selection, pane_id);
        self.overlays = Overlays {
            previous_pane_focus: drop_pane(o.previous_pane_focus, pane_id),
            rename_pane_target: drop_pane(o.rename_pane_target, pane_id),
            selection: drop_pane(o.selection, pane_id),
            selection_autoscroll: o.selection_autoscroll && !selected,
            copy_mode: drop_pane(o.copy_mode, pane_id),
            context_menu: false,
            drag: false,
            workspace_press: false,
            tab_press: false,
        };
        let about = match &self.toast {
            Some(t) => t.pane_id == pane_id && text::str_eq(t.workspace_id.as_str(), workspace_id),
            None => false,
        };
        if about {
            self.toast = None;
        }
    }

    fn forget_workspace(&mut self, i: usize)
        requires
            i < old(self)@.workspaces.len(),
        ensures
            final(self)@ == workspace_removed(old(self)@, i as int),
    {
        let _ = self.workspaces.remove_at(i);
        let n: usize = self.workspaces.len();
        if n == 0 {
            self.active = None;
            self.selected = 0;
            if self.mode == Mode::Terminal {
                self.mode = Mode::Navigate;
            }
        } else {
            self.active = match self.active {
                Some(a) => Some(shift(a, i, n)),
                None => None,
            };
            self.selected = shift(self.selected, i, n);
        }
    }

    fn refocus(&mut self)
        ensures
            final(self)@ == refocused(old(self)@),
    {
        self.last_focus = match self.active {
            Some(i) => if i < self.workspaces.len() {
                match self.workspaces.at(i).focused {
                    Some(pane_id) => Some((i, pane_id)),
                    None => None,
                }
            } else {
                None
            },
            None => None,
        };
    }

    /// Takes a pane out of its workspace. `detached` is what the layout made of
    /// it, where the layout could give it up.
    fn take_active_pane_for_delegation(&mut self, pane_id: u64, detached: Option<Detached>) -> (r:
        Option<MovedPane>)
        ensures
            match (pane_anywhere(old(self)@.workspaces, pane_id), detached) {
                (Some(pane), Some(d)) => {
                    &&& r matches Some(m) && m@ == (MovedView {
                        pane_id,
                        terminal_id: pane.terminal_id,
                        seen: pane.seen,
                    })
                    &&& final(self)@ == pane_taken(old(self)@, pane_id, d@)
                },
                _ => r is None && final(self)@ == old(self)@,
            },
    {
        let i = match self.workspace_of(pane_id) {
            Some(i) => i,
            None => return None,
        };
        let d = match detached {
            Some(d) => d,
            None => return None,
        };
        let moved = match self.workspaces.at(i).pane(pane_id) {
            Some(pane) => MovedPane {
                pane_id,
                terminal_id: pane.terminal_id.clone(),
                seen: pane.seen,
            },
            None => return None,
        };
        proof {
            list::lemma_first(self@.workspaces[i as int].panes, pane_numbered(pane_id));
        }
        let workspace_id = self.workspaces.at(i).id.clone();
        self.clear_hidden_pane_presentation_state(workspace_id.as_str(), pane_id);
        let ghost cleared = self@;
        let mut w = self.workspaces.remove_at(i);
        let other = |p: &Pane| -> (b: bool)
            ensures
                b == (p@.pane_id != pane_id),
        {
            p.pane_id != pane_id
        };
        w.panes.retain_by(other, Ghost(other_panes(pane_id)));
        let empty = w.panes.is_empty();
        if !empty {
            w.tabs = d.tabs;
            w.active_tab = d.active_tab;
            w.focused = d.focused;
        }
        self.workspaces.insert_at(i, w);
        assert(self@.workspaces =~= cleared.workspaces.update(i as int, w@));
        if empty {
            self.forget_workspace(i);
            assert(self@.workspaces =~= cleared.workspaces.remove(i as int));
        }
        self.refocus();
        Some(moved)
    }
}

fn drop_pane(x: Option<u64>, pane_id: u64) -> (r: Option<u64>)
    ensures
        r == unless(x, pane_id),
{
    match x {
        Some(p) => if p == pane_id {
            None
        } else {
            x
        },
        None => x,
    }
}

fn shift(place: usize, gone: usize, n: usize) -> (r: usize)
    requires
        n > 0,
    ensures
        r == shifted(place, gone as int, n as int),
{
    if place == gone {
        if gone < n {
            place
        } else {
            n - 1
        }
    } else if place > gone {
        place - 1
    } else {
        place
    }
}

/// What the delegation is to present still runs.
pub open spec fn source_available(s: AppView, p: PendingView, requested: Seq<char>) -> bool {
    match p.source {
        SourceView::New { moved, .. } => runs(s, moved.terminal_id),
        SourceView::Existing { pane_id, .. } => match pane_anywhere(s.workspaces, pane_id) {
            Some(pane) => runs(s, pane.terminal_id),
            None => false,
        },
        SourceView::Takeover { previous_delegation_id } => match list::lookup(
            s.delegated,
            previous_delegation_id,
        ) {
            Some(d) => d.info.terminal_id == requested,
            None => false,
        },
    }
}

pub open spec fn runs(s: AppView, terminal_id: Seq<char>) -> bool {
    list::present(s.terminals, terminal_id) && list::present(s.runtimes, terminal_id)
}

/// The pane that would be taken over has come to present another one.
pub open spec fn takeover_nested(s: AppView, p: PendingView) -> bool {
    match p.source {
        SourceView::Takeover { previous_delegation_id } => match list::lookup(
            s.delegated,
            previous_delegation_id,
        ) {
            Some(d) => has_downstream(s, d.moved.terminal_id),
            None => false,
        },
        _ => false,
    }
}

/// The host before this one on the route, where it is a peer.
pub open spec fn previous_host(s: AppView, info: DelegationView) -> Option<PeerView> {
    let n = info.owner.route.len();
    if n >= 2 {
        list::lookup(s.peers, info.owner.route[n - 2])
    } else {
        None
    }
}

/// The host before this one on the route is told.
pub open spec fn acknowledged(s: AppView, info: DelegationView) -> AppView {
    AppView {
        effects: match previous_host(s, info) {
            Some(peer) => s.effects.push(
                EffectView::AcknowledgeActivation {
                    peer,
                    claim: (info.delegation_id, info.epoch),
                },
            ),
            None => s.effects,
        },
        ..s
    }
}

/// The delegation is active.
pub open spec fn activated(
    s: AppView,
    delegation_id: Seq<char>,
    info: DelegationView,
    moved: MovedView,
    place: PlaceView,
) -> AppView {
    let active = DelegationView { status: TerminalDelegationStatus::Active, ..info };
    acknowledged(
        AppView {
            delegated: list::with(
                s.delegated,
                delegation_id,
                DelegatedView { info: active, moved, place },
            ),
            delegated_terminal_ids: s.delegated_terminal_ids.filter(
                other_delegated(moved.pane_id),
            ).push((moved.pane_id, moved.terminal_id)),
            session_dirty: true,
            ..s
        },
        active,
    )
}

/// The delegation has ended.
pub open spec fn ended(
    s: AppView,
    delegation_id: Seq<char>,
    info: DelegationView,
    status: TerminalDelegationStatus,
    now_ms: u64,
) -> AppView {
    AppView {
        completed: list::with(
            s.completed,
            delegation_id,
            CompletedView { info: DelegationView { status, ..info }, completed_at_ms: now_ms },
        ),
        ..s
    }
}

/// What comes of a claim: the state after it, and the terminal to attach to.
pub open spec fn committed(
    s: AppView,
    claim: (Seq<char>, u64),
    requested: Seq<char>,
    detached: Option<DetachedView>,
    now_ms: u64,
) -> (AppView, Result<Seq<char>, Seq<char>>) {
    match list::lookup(s.pending, claim.0) {
        None => (s, Err("terminal delegation was not found or has expired"@)),
        Some(p) => {
            let claimed = AppView { pending: list::without(s.pending, claim.0), ..s };
            if p.info.epoch != claim.1 || p.info.terminal_id != requested {
                (s, Err("terminal delegation claim does not match the prepared terminal"@))
            } else if !source_available(s, p, requested) {
                (
                    failed(claimed, p, now_ms),
                    Err("terminal delegation source is no longer running"@),
                )
            } else if takeover_nested(s, p) {
                (
                    failed(claimed, p, now_ms),
                    Err(
                        "this pane started owning a deeper remote presentation before takeover committed; hand that presentation back or close it before retrying"@,
                    ),
                )
            } else {
                match p.source {
                    SourceView::New { moved, place } => (
                        activated(claimed, claim.0, p.info, moved, place),
                        Ok(moved.terminal_id),
                    ),
                    SourceView::Existing { pane_id, place, .. } => match detached {
                        None => (
                            claimed,
                            Err("source pane disappeared before delegation committed"@),
                        ),
                        Some(d) => {
                            let pane = pane_anywhere(s.workspaces, pane_id)->0;
                            (
                                activated(
                                    pane_taken(claimed, pane_id, d),
                                    claim.0,
                                    p.info,
                                    MovedView {
                                        pane_id,
                                        terminal_id: pane.terminal_id,
                                        seen: pane.seen,
                                    },
                                    place,
                                ),
                                Ok(pane.terminal_id),
                            )
                        },
                    },
                    SourceView::Takeover { previous_delegation_id } => {
                        let d = list::lookup(s.delegated, previous_delegation_id)->0;
                        (
                            activated(
                                ended(
                                    AppView {
                                        delegated: list::without(
                                            s.delegated,
                                            previous_delegation_id,
                                        ),
                                        ..claimed
                                    },
                                    previous_delegation_id,
                                    d.info,
                                    TerminalDelegationStatus::TakenOver,
                                    now_ms,
                                ),
                                claim.0,
                                p.info,
                                d.moved,
                                d.place,
                            ),
                            Ok(d.moved.terminal_id),
                        )
                    },
                }
            }
        },
    }
}

impl App {
    fn terminal_runs(&self, terminal_id: &str) -> (r: bool)
        ensures
            r == runs(self@, terminal_id@),
    {
        self.terminals.contains(terminal_id) && self.runtimes.contains(terminal_id)
    }

    fn source_is_available(&self, p: &PendingTerminalDelegation, requested: &str) -> (r: bool)
        ensures
            r == source_available(self@, p@, requested@),
    {
        match &p.source {
            PendingDelegationSource::New { moved, .. } => self.terminal_runs(
                moved.terminal_id.as_str(),
            ),
            PendingDelegationSource::Existing { pane_id, .. } => match self.find_pane(*pane_id) {
                Some(pane) => self.terminal_runs(pane.terminal_id.as_str()),
                None => false,
            },
            PendingDelegationSource::Takeover { previous_delegation_id } => {
                match self.delegated.get(previous_delegation_id.as_str()) {
                    Some(d) => text::str_eq(d.info.terminal_id.as_str(), requested),
                    None => false,
                }
            },
        }
    }

    fn takeover_is_nested(&self, p: &PendingTerminalDelegation) -> (r: bool)
        ensures
            r == takeover_nested(self@, p@),
    {
        match &p.source {
            PendingDelegationSource::Takeover { previous_delegation_id } => {
                match self.delegated.get(previous_delegation_id.as_str()) {
                    Some(d) => self.terminal_has_downstream_presentation(
                        d.moved.terminal_id.as_str(),
                    ),
                    None => false,
                }
            },
            _ => false,
        }
    }

    fn notify_previous_presentation_owner(&mut self, info: &TerminalDelegationInfo)
        ensures
            final(self)@ == acknowledged(old(self)@, info@),
    {
        let n: usize = info.owner.route.len();
        if n < 2 {
            return;
        }
        let peer = match self.peers.get(info.owner.route[n - 2].as_str()) {
            Some(peer) => peer.clone(),
            None => return,
        };
        self.effects.push(
            Effect::AcknowledgeActivation {
                peer,
                claim: TerminalDelegationClaim {
                    delegation_id: info.delegation_id.clone(),
                    epoch: info.epoch,
                },
            },
        );
    }

    fn activate(
        &mut self,
        delegation_id: &str,
        info: TerminalDelegationInfo,
        moved: MovedPane,
        place: PublicPlace,
    ) -> (terminal_id: String)
        ensures
            terminal_id@ == moved@.terminal_id,
            final(self)@ == activated(old(self)@, delegation_id@, info@, moved@, place@),
    {
        let terminal_id = moved.terminal_id.clone();
        let pane_id: u64 = moved.pane_id;
        let mut info = info;
        info.status = TerminalDelegationStatus::Active;
        let activation = info.clone();
        self.delegated.insert(delegation_id.to_string(), DelegatedPane { info, moved, place });
        let other = |row: &(u64, String)| -> (b: bool)
            ensures
                b == (row@.0 != pane_id),
        {
            row.0 != pane_id
        };
        self.delegated_terminal_ids.retain_by(other, Ghost(other_delegated(pane_id)));
        self.delegated_terminal_ids.push((pane_id, terminal_id.clone()));
        self.session_dirty = true;
        self.notify_previous_presentation_owner(&activation);
        terminal_id
    }

    pub(crate) fn complete(
        &mut self,
        delegation_id: &str,
        info: TerminalDelegationInfo,
        status: TerminalDelegationStatus,
        now_ms: u64,
    )
        ensures
            final(self)@ == ended(old(self)@, delegation_id@, info@, status, now_ms),
    {
        let mut info = info;
        info.status = status;
        self.completed.insert(
            delegation_id.to_string(),
            CompletedTerminalDelegation { info, completed_at_ms: now_ms },
        );
    }

    /// The other host attaches: the pane leaves this screen. `detached` is what
    /// the layout of its workspace makes of that.
    pub fn commit_terminal_delegation(
        &mut self,
        claim: &TerminalDelegationClaim,
        requested_terminal_id: &str,
        detached: Option<Detached>,
        now_ms: u64,
    ) -> (r: Result<String, String>)
        ensures
            final(self)@ == committed(
                old(self)@,
                claim@,
                requested_terminal_id@,
                text::viewed(detached),
                now_ms,
            ).0,
            text::outcome(r) == committed(
                old(self)@,
                claim@,
                requested_terminal_id@,
                text::viewed(detached),
                now_ms,
            ).1,
    {
        let id = claim.delegation_id.as_str();
        let matching = match self.pending.get(id) {
            Some(p) => p.info.epoch == claim.epoch && text::str_eq(
                p.info.terminal_id.as_str(),
                requested_terminal_id,
            ),
            None => {
                return Err("terminal delegation was not found or has expired".to_string());
            },
        };
        if !matching {
            return Err(
                "terminal delegation claim does not match the prepared terminal".to_string(),
            );
        }
        let p = match self.pending.remove(id) {
            Some(p) => p,
            None => {
                return Err("terminal delegation was not found or has expired".to_string());
            },
        };
        if !self.source_is_available(&p, requested_terminal_id) {
            self.fail_pending_delegation_at(p, now_ms);
            return Err("terminal delegation source is no longer running".to_string());
        }
        if self.takeover_is_nested(&p) {
            self.fail_pending_delegation_at(p, now_ms);
            return Err(
                "this pane started owning a deeper remote presentation before takeover committed; hand that presentation back or close it before retrying".to_string(),
            );
        }
        match p.source {
            PendingDelegationSource::New { moved, place } => Ok(
                self.activate(id, p.info, moved, place),
            ),
            PendingDelegationSource::Existing { pane_id, place, .. } => {
                match self.take_active_pane_for_delegation(pane_id, detached) {
                    Some(moved) => Ok(self.activate(id, p.info, moved, place)),
                    None => Err(
                        "source pane disappeared before delegation committed".to_string(),
                    ),
                }
            },
            PendingDelegationSource::Takeover { previous_delegation_id } => {
                match self.delegated.remove(previous_delegation_id.as_str()) {
                    Some(previous) => {
                        self.complete(
                            previous_delegation_id.as_str(),
                            previous.info,
                            TerminalDelegationStatus::TakenOver,
                            now_ms,
                        );
                        Ok(self.activate(id, p.info, previous.moved, previous.place))
                    },
                    None => Err(
                        "terminal presentation changed before takeover committed".to_string(),
                    ),
                }
            },
        }
    }
}

} // verus!
