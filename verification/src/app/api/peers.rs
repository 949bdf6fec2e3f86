//! Requests about peers and the connections to them.

use vstd::prelude::*;
use vstd::string::*;

use crate::api::schema::agents::{AgentAttachInfo, AttachView};
use crate::api::schema::common::ErrorBody;
use crate::api::schema::peers::{
    DelegationView, OwnerView, PeerConnectSshParams, PeerDisconnectSshParams, PeerInfo,
    PeerKeepaliveSshParams, PeerRegisterParams, PeerStatus, PeerTarget, PeerTransportInfo, PeerView,
    TerminalDelegationClaim, TerminalDelegationInfo, TerminalPresentationOwner,
};
use crate::app::list;
use crate::app::owners;
use crate::app::peer_agents;
use crate::app::release;
use crate::app::remote_presentations::{self as presentations, Refusal};
use crate::app::{
    App, AppView, BridgeRef, BridgeRefView, BridgeView, DelegatedPane, Effect, EffectView,
    PeerBridge,
};
use crate::text;

verus! {

/// A connection that was set up outside, with the terminal prepared for it.
pub struct RemoteShellConnect {
    pub peer: PeerInfo,
    pub delegation: TerminalDelegationInfo,
    pub attach: AgentAttachInfo,
    pub bridge: PeerBridge,
}

pub struct ShellConnectView {
    pub peer: PeerView,
    pub delegation: DelegationView,
    pub attach: AttachView,
    pub bridge: BridgeView,
}

impl View for RemoteShellConnect {
    type V = ShellConnectView;

    open spec fn view(&self) -> ShellConnectView {
        ShellConnectView {
            peer: self.peer@,
            delegation: self.delegation@,
            attach: self.attach@,
            bridge: self.bridge@,
        }
    }
}

/// What a client learns of a connection that was made for it.
pub struct PeerSshConnected {
    pub peer: PeerInfo,
    pub connection_id: String,
    pub attach: AgentAttachInfo,
}

pub struct ConnectedView {
    pub peer: PeerView,
    pub connection_id: Seq<char>,
    pub attach: AttachView,
}

impl View for PeerSshConnected {
    type V = ConnectedView;

    open spec fn view(&self) -> ConnectedView {
        ConnectedView {
            peer: self.peer@,
            connection_id: self.connection_id@,
            attach: self.attach@,
        }
    }
}

// ---------------------------------------------------------------------------
// Names

pub open spec fn peer_id_char(c: char) -> bool {
    text::is_alnum(c) || c == '.' || c == '_' || c == '-'
}

/// A name that a peer may go by.
pub open spec fn peer_id_valid(value: Seq<char>) -> bool {
    &&& value.len() > 0
    &&& text::utf8_len(value) <= 64
    &&& forall|i: int| 0 <= i < value.len() ==> peer_id_char(#[trigger] value[i])
}

pub fn valid_peer_id(value: &str) -> (r: bool)
    ensures
        r == peer_id_valid(value@),
{
    if value.is_empty() || text::byte_len(value) > 64 {
        return false;
    }
    let v = text::chars_of(value);
    let mut i: usize = 0;
    while i < v.len()
        invariant
            i <= v@.len(),
            v@ == value@,
            forall|j: int| 0 <= j < i ==> peer_id_char(#[trigger] v@[j]),
        decreases v@.len() - i,
    {
        let c = v[i];
        if !(text::alnum(c) || c == '.' || c == '_' || c == '-') {
            assert(!peer_id_char(value@[i as int]));
            return false;
        }
        i += 1;
    }
    true
}

// ---------------------------------------------------------------------------
// Who asks

pub open spec fn no_owner(pane: Seq<char>, what: Seq<char>) -> Refusal {
    ("invalid_ssh_owner"@, "SSH owner pane "@ + pane + what)
}

/// The terminal of the pane that asks for a connection. `parsed` is the pane of
/// a workspace that the id names.
pub open spec fn owner_terminal(
    s: AppView,
    owner_pane_id: Option<Seq<char>>,
    parsed: Option<(usize, u64)>,
) -> Result<Option<Seq<char>>, Refusal> {
    match owner_pane_id {
        None => Ok(None),
        Some(pane) => match list::first(s.delegated, presentations::publicly(s, pane)) {
            Some((_, d)) => Ok(Some(d.moved.terminal_id)),
            None => match parsed {
                None => Err(no_owner(pane, " was not found"@)),
                Some((ws_idx, pane_id)) => if ws_idx < s.workspaces.len() {
                    match presentations::pane_in(s.workspaces[ws_idx as int], pane_id) {
                        Some(p) => Ok(Some(p.terminal_id)),
                        None => Err(no_owner(pane, " has no terminal"@)),
                    }
                } else {
                    Err(no_owner(pane, " has no terminal"@))
                },
            },
        },
    }
}

/// The owner on whose behalf a connection is made: that of the pane where
/// another host presents it, this host otherwise.
pub open spec fn connect_owner(
    s: AppView,
    terminal_id: Option<Seq<char>>,
    owner_pane_id: Option<Seq<char>>,
) -> Option<OwnerView> {
    match lent_owner(s, terminal_id) {
        Some(owner) => Some(owner),
        None => match owner_pane_id {
            Some(pane_id) => Some(local_owner(s, pane_id)),
            None => None,
        },
    }
}

pub open spec fn lent_owner(s: AppView, terminal_id: Option<Seq<char>>) -> Option<OwnerView> {
    match terminal_id {
        Some(t) => match list::first(s.delegated, release::lends(t)) {
            Some((_, d)) => Some(d.info.owner),
            None => None,
        },
        None => None,
    }
}

pub open spec fn local_owner(s: AppView, pane_id: Seq<char>) -> OwnerView {
    OwnerView { peer_id: s.local_peer_id, pane_id, route: seq![s.local_peer_id] }
}

fn refuse_owner(pane: &str, what: &str) -> (e: ErrorBody)
    ensures
        e@ == no_owner(pane@, what@),
{
    let mut message = presentations::joined("SSH owner pane ", pane);
    message.append(what);
    ErrorBody::new("invalid_ssh_owner", message.as_str())
}

impl App {
    pub fn resolve_ssh_owner_terminal(
        &self,
        owner_pane_id: &Option<String>,
        parsed: Option<(usize, u64)>,
    ) -> (r: Result<Option<String>, ErrorBody>)
        ensures
            match r {
                Ok(t) => owner_terminal(self@, text::opt_view(*owner_pane_id), parsed)
                    == Ok::<Option<Seq<char>>, Refusal>(text::opt_view(t)),
                Err(e) => owner_terminal(self@, text::opt_view(*owner_pane_id), parsed)
                    == Err::<Option<Seq<char>>, Refusal>(e@),
            },
    {
        let pane = match owner_pane_id {
            Some(pane) => pane.as_str(),
            None => return Ok(None),
        };
        match self.delegated_pane_for_public_id(pane) {
            Some(d) => return Ok(Some(d.moved.terminal_id.clone())),
            None => {},
        }
        let (ws_idx, pane_id) = match parsed {
            Some(p) => p,
            None => return Err(refuse_owner(pane, " was not found")),
        };
        if ws_idx >= self.workspaces.len() {
            return Err(refuse_owner(pane, " has no terminal"));
        }
        match self.workspaces.at(ws_idx).pane(pane_id) {
            Some(p) => Ok(Some(p.terminal_id.clone())),
            None => Err(refuse_owner(pane, " has no terminal")),
        }
    }

    pub(crate) fn owner_here(&self, pane_id: &str) -> (r: TerminalPresentationOwner)
        ensures
            r@ == local_owner(self@, pane_id@),
    {
        let mut route: Vec<String> = Vec::new();
        route.push(self.local_peer_id.clone());
        assert(text::views(route@) =~= seq![self.local_peer_id@]);
        TerminalPresentationOwner {
            peer_id: self.local_peer_id.clone(),
            pane_id: pane_id.to_string(),
            route,
        }
    }

    fn owner_of_lent(&self, terminal_id: &Option<String>) -> (r: Option<TerminalPresentationOwner>)
        ensures
            text::viewed(r) == lent_owner(self@, text::opt_view(*terminal_id)),
    {
        let t = match terminal_id {
            Some(t) => t.as_str(),
            None => return None,
        };
        let hit = |row: &(String, DelegatedPane)| -> (b: bool)
            ensures
                b == release::lends(t@)(row@),
        {
            text::str_eq(row.1.moved.terminal_id.as_str(), t)
        };
        match self.delegated.find_by(hit, Ghost(release::lends(t@))) {
            Some(i) => Some(self.delegated.at(i).1.info.owner.clone()),
            None => None,
        }
    }

    /// The connection that a client asks for, with the owner it is made for.
    pub fn prepare_peer_connect_ssh(
        &self,
        params: PeerConnectSshParams,
        parsed: Option<(usize, u64)>,
    ) -> (r: Result<(PeerConnectSshParams, Option<String>), ErrorBody>)
        ensures
            match owner_terminal(self@, text::opt_view(params.owner_pane_id), parsed) {
                Err(e) => r matches Err(body) && body@ == e,
                Ok(t) => r matches Ok((p, terminal)) && text::opt_view(terminal) == t
                    && p.target == params.target && p.ssh_args == params.ssh_args
                    && p.managed_control_path == params.managed_control_path && p.session
                    == params.session && p.label == params.label && p.owner_pane_id
                    == params.owner_pane_id && text::viewed(p.owner) == connect_owner(
                    self@,
                    t,
                    text::opt_view(params.owner_pane_id),
                ),
            },
    {
        let terminal = match self.resolve_ssh_owner_terminal(&params.owner_pane_id, parsed) {
            Ok(terminal) => terminal,
            Err(e) => return Err(e),
        };
        let mut params = params;
        params.owner = match self.owner_of_lent(&terminal) {
            Some(owner) => Some(owner),
            None => match &params.owner_pane_id {
                Some(pane_id) => Some(self.owner_here(pane_id.as_str())),
                None => None,
            },
        };
        Ok((params, terminal))
    }
}

// ---------------------------------------------------------------------------
// Connecting

/// How often the peer was removed.
pub open spec fn generation_of(s: AppView, peer_id: Seq<char>) -> u64 {
    match list::lookup(s.peer_lifecycle_generations, peer_id) {
        Some(g) => g,
        None => 0,
    }
}

/// A connection that came too late is closed; on Unix the peer keeps those it
/// has, elsewhere it is told that this was the last.
pub open spec fn bridge_uncommitted(s: AppView, b: BridgeRefView) -> AppView {
    match release::latest(s.peer_bridges, b.peer_id) {
        Some(survivor) if s.unix => release::survivor_stands(
            AppView {
                effects: s.effects.push(EffectView::StopBridge { bridge: b, unregister: false }),
                ..s
            },
            b.peer_id,
            survivor,
        ),
        _ => AppView {
            effects: s.effects.push(EffectView::StopBridge { bridge: b, unregister: true }),
            ..s
        },
    }
}

/// The lease of a connection begins anew.
pub open spec fn bridge_leased(s: AppView, b: BridgeRefView, now_ms: u64) -> AppView {
    AppView {
        ssh_shell_bridge_deadlines: s.ssh_shell_bridge_deadlines.filter(
            release::deadline_of_other(b),
        ).push((b, owners::lease_end(now_ms, owners::SSH_SHELL_BRIDGE_LEASE_MS))),
        ..s
    }
}

/// A peer is known, and asked for its agents.
pub open spec fn peer_known(s: AppView, peer: PeerView) -> AppView {
    release::refresh_started(AppView { peers: list::with(s.peers, peer.id, peer), ..s }, peer)
}

/// A connection is up. On Unix the peer is asked what it has parked.
pub open spec fn linked(
    s: AppView,
    c: ShellConnectView,
    owner: Option<Seq<char>>,
    now_ms: u64,
) -> AppView {
    let b = BridgeRefView { peer_id: c.peer.id, connection_id: c.bridge.connection_id };
    let leased = bridge_leased(
        AppView { peer_bridges: s.peer_bridges.push((c.peer.id, c.bridge)), ..s },
        b,
        now_ms,
    );
    let awaited = match owner {
        Some(t) => owners::waiting(
            leased,
            t,
            c.peer,
            c.bridge.connection_id,
            c.delegation,
            c.attach,
            true,
        ),
        None => leased,
    };
    let known = peer_known(awaited, c.peer);
    AppView {
        effects: if s.unix {
            known.effects.push(EffectView::DiscoverParked(c.peer))
        } else {
            known.effects
        },
        session_dirty: true,
        ..known
    }
}

pub open spec fn connect_cancelled(peer_id: Seq<char>) -> Refusal {
    (
        "peer_connect_cancelled"@,
        "SSH peer connection for "@ + peer_id + " was cancelled by peer removal"@,
    )
}

pub open spec fn owner_closed() -> Refusal {
    (
        "invalid_ssh_owner"@,
        "SSH owner pane closed while the remote connection was starting"@,
    )
}

pub open spec fn owner_is_gone(s: AppView, owner: Option<Seq<char>>) -> bool {
    match owner {
        Some(t) => !list::present(s.terminals, t),
        None => false,
    }
}

/// What comes of a connection that was set up outside.
pub open spec fn connect_finished(
    s: AppView,
    peer_id: Seq<char>,
    generation: u64,
    owner: Option<Seq<char>>,
    result: Result<RemoteShellConnect, String>,
    now_ms: u64,
) -> (AppView, Result<ConnectedView, Refusal>) {
    let done = owners::operation_finished(s, owner);
    match result {
        Err(message) => (done, Err(("ssh_peer_connect_failed"@, message@))),
        Ok(c) => {
            let b = BridgeRefView { peer_id, connection_id: c@.bridge.connection_id };
            if c@.peer.id != peer_id || generation_of(s, peer_id) != generation {
                (bridge_uncommitted(done, b), Err(connect_cancelled(peer_id)))
            } else if owner_is_gone(s, owner) {
                (bridge_uncommitted(done, b), Err(owner_closed()))
            } else {
                (
                    linked(done, c@, owner, now_ms),
                    Ok(
                        ConnectedView {
                            peer: c@.peer,
                            connection_id: c@.bridge.connection_id,
                            attach: c@.attach,
                        },
                    ),
                )
            }
        },
    }
}

impl App {
    fn generation(&self, peer_id: &str) -> (g: u64)
        ensures
            g == generation_of(self@, peer_id@),
    {
        match self.peer_lifecycle_generations.get(peer_id) {
            Some(g) => *g,
            None => 0,
        }
    }

    /// The setup of a connection begins, where `granted`; the answer is the
    /// generation of the peer that it is made for.
    pub fn begin_peer_connect_ssh(
        &mut self,
        peer_id: &str,
        owner_terminal_id: &Option<String>,
        granted: bool,
    ) -> (r: Option<u64>)
        ensures
            if granted {
                r == Some(generation_of(old(self)@, peer_id@)) && final(self)@
                    == owners::operation_begun(old(self)@, text::opt_view(*owner_terminal_id))
            } else {
                r is None && final(self)@ == old(self)@
            },
    {
        if !granted {
            return None;
        }
        let generation: u64 = self.generation(peer_id);
        self.begin_pending_owner_operation(owner_terminal_id);
        Some(generation)
    }

    /// The setup of a connection could not be started.
    pub fn abort_peer_connect_ssh(&mut self, owner_terminal_id: &Option<String>, err: &str) -> (e:
        ErrorBody)
        ensures
            e@ == ("ssh_peer_connect_failed"@, "could not start SSH peer setup: "@ + err@),
            final(self)@ == owners::operation_finished(
                old(self)@,
                text::opt_view(*owner_terminal_id),
            ),
    {
        self.finish_pending_owner_operation(owner_terminal_id);
        ErrorBody::new(
            "ssh_peer_connect_failed",
            presentations::joined("could not start SSH peer setup: ", err).as_str(),
        )
    }

    /// Closes a connection that came too late.
    pub fn stop_uncommitted_peer_bridge(&mut self, peer_id: &str, connection_id: String)
        ensures
            final(self)@ == bridge_uncommitted(
                old(self)@,
                BridgeRefView { peer_id: peer_id@, connection_id: connection_id@ },
            ),
    {
        let survivor = match self.latest_bridge(peer_id) {
            Some(bridge) if self.unix => Some(
                (bridge.peer.clone(), bridge.connection_id.clone()),
            ),
            _ => None,
        };
        let stopped = BridgeRef { peer_id: peer_id.to_string(), connection_id };
        match survivor {
            Some((peer, survivor_id)) => {
                self.effects.push(Effect::StopBridge { bridge: stopped, unregister: false });
                self.stand_in(peer_id, peer, survivor_id);
            },
            None => {
                self.effects.push(Effect::StopBridge { bridge: stopped, unregister: true });
            },
        }
    }

    fn lease_bridge(&mut self, peer_id: &str, connection_id: &str, now_ms: u64)
        ensures
            final(self)@ == bridge_leased(
                old(self)@,
                BridgeRefView { peer_id: peer_id@, connection_id: connection_id@ },
                now_ms,
            ),
    {
        let other = |row: &(BridgeRef, u64)| -> (r: bool)
            ensures
                r == release::deadline_of_other(
                    BridgeRefView { peer_id: peer_id@, connection_id: connection_id@ },
                )(row@),
        {
            !release::same_bridge(&row.0, peer_id, connection_id)
        };
        self.ssh_shell_bridge_deadlines.retain_by(
            other,
            Ghost(
                release::deadline_of_other(
                    BridgeRefView { peer_id: peer_id@, connection_id: connection_id@ },
                ),
            ),
        );
        self.ssh_shell_bridge_deadlines.push(
            (
                BridgeRef {
                    peer_id: peer_id.to_string(),
                    connection_id: connection_id.to_string(),
                },
                now_ms.saturating_add(owners::SSH_SHELL_BRIDGE_LEASE_MS),
            ),
        );
    }

    pub(crate) fn know_peer(&mut self, peer: PeerInfo)
        ensures
            final(self)@ == peer_known(old(self)@, peer@),
    {
        self.peers.insert(peer.id.clone(), peer.clone());
        self.start_peer_refresh(peer);
    }

    fn await_owner(
        &mut self,
        owner: Option<String>,
        peer: &PeerInfo,
        connection_id: &str,
        delegation: TerminalDelegationInfo,
        attach: &AgentAttachInfo,
    )
        ensures
            final(self)@ == match text::opt_view(owner) {
                Some(t) => owners::waiting(
                    old(self)@,
                    t,
                    peer@,
                    connection_id@,
                    delegation@,
                    attach@,
                    true,
                ),
                None => old(self)@,
            },
    {
        match owner {
            Some(t) => self.register_pending_owner_activation(
                t,
                peer.clone(),
                connection_id.to_string(),
                delegation,
                attach.clone(),
                true,
            ),
            None => {},
        }
    }

    fn link(&mut self, c: RemoteShellConnect, owner: Option<String>, now_ms: u64) -> (r:
        PeerSshConnected)
        ensures
            r@ == (ConnectedView {
                peer: c@.peer,
                connection_id: c@.bridge.connection_id,
                attach: c@.attach,
            }),
            final(self)@ == linked(old(self)@, c@, text::opt_view(owner), now_ms),
    {
        let unix = self.unix;
        let connection_id = c.bridge.connection_id.clone();
        self.peer_bridges.push((c.peer.id.clone(), c.bridge));
        self.lease_bridge(c.peer.id.as_str(), connection_id.as_str(), now_ms);
        self.await_owner(owner, &c.peer, connection_id.as_str(), c.delegation, &c.attach);
        self.know_peer(c.peer.clone());
        if unix {
            self.effects.push(Effect::DiscoverParked(c.peer.clone()));
        }
        self.session_dirty = true;
        PeerSshConnected { peer: c.peer, connection_id, attach: c.attach }
    }

    /// The setup of a connection has ended. A peer that was removed in the
    /// meantime stays removed, and a pane that was closed gets no connection.
    pub fn handle_peer_connect_ssh_finished(
        &mut self,
        peer_id: &str,
        generation: u64,
        owner_terminal_id: Option<String>,
        result: Result<RemoteShellConnect, String>,
        now_ms: u64,
    ) -> (r: Result<PeerSshConnected, ErrorBody>)
        ensures
            final(self)@ == connect_finished(
                old(self)@,
                peer_id@,
                generation,
                text::opt_view(owner_terminal_id),
                result,
                now_ms,
            ).0,
            text::outcome(r) == connect_finished(
                old(self)@,
                peer_id@,
                generation,
                text::opt_view(owner_terminal_id),
                result,
                now_ms,
            ).1,
    {
        self.finish_pending_owner_operation(&owner_terminal_id);
        let c = match result {
            Ok(c) => c,
            Err(message) => {
                return Err(ErrorBody::new("ssh_peer_connect_failed", message.as_str()));
            },
        };
        if !text::str_eq(c.peer.id.as_str(), peer_id) || self.generation(peer_id) != generation {
            self.stop_uncommitted_peer_bridge(peer_id, c.bridge.connection_id);
            let mut message = presentations::joined("SSH peer connection for ", peer_id);
            message.append(" was cancelled by peer removal");
            return Err(ErrorBody::new("peer_connect_cancelled", message.as_str()));
        }
        let closed = match &owner_terminal_id {
            Some(t) => !self.terminals.contains(t.as_str()),
            None => false,
        };
        if closed {
            self.stop_uncommitted_peer_bridge(peer_id, c.bridge.connection_id);
            return Err(
                ErrorBody::new(
                    "invalid_ssh_owner",
                    "SSH owner pane closed while the remote connection was starting",
                ),
            );
        }
        Ok(self.link(c, owner_terminal_id, now_ms))
    }

    /// A connection that was set up at once, without leaving the request.
    pub fn handle_peer_connect_ssh(
        &mut self,
        owner_terminal_id: Option<String>,
        result: Result<RemoteShellConnect, String>,
        now_ms: u64,
    ) -> (r: Result<PeerSshConnected, ErrorBody>)
        ensures
            match result {
                Err(message) => final(self)@ == old(self)@ && text::outcome(r)
                    == Err::<ConnectedView, Refusal>(("ssh_peer_connect_failed"@, message@)),
                Ok(c) => final(self)@ == linked(
                    old(self)@,
                    c@,
                    text::opt_view(owner_terminal_id),
                    now_ms,
                ) && text::outcome(r) == Ok::<ConnectedView, Refusal>(
                    ConnectedView {
                        peer: c@.peer,
                        connection_id: c@.bridge.connection_id,
                        attach: c@.attach,
                    },
                ),
            },
    {
        match result {
            Ok(c) => Ok(self.link(c, owner_terminal_id, now_ms)),
            Err(message) => Err(ErrorBody::new("ssh_peer_connect_failed", message.as_str())),
        }
    }

    /// Nobody took the answer to a connect request: the connection goes.
    pub fn abandon_peer_connection(
        &mut self,
        delegation_id: &str,
        peer_id: &str,
        connection_id: &str,
        now_ms: u64,
    )
        ensures
            final(self)@ == release::bridge_released(
                release::activation_cancelled(old(self)@, delegation_id@),
                BridgeRefView { peer_id: peer_id@, connection_id: connection_id@ },
                now_ms,
            ),
    {
        self.cancel_pending_owner_activation(delegation_id);
        self.release_peer_bridge(peer_id, connection_id, now_ms);
    }
}

// ---------------------------------------------------------------------------
// Peers that come and go

pub open spec fn is_incoming(peer: PeerView) -> bool {
    peer.transport is ApiSocket
}

/// The lease of a peer that connected to this server begins anew.
pub open spec fn incoming_leased(s: AppView, peer_id: Seq<char>, now_ms: u64) -> AppView {
    AppView {
        incoming_peer_deadlines: match list::lookup(s.peers, peer_id) {
            Some(peer) => if is_incoming(peer) {
                list::with(
                    s.incoming_peer_deadlines,
                    peer_id,
                    owners::lease_end(now_ms, owners::INCOMING_PEER_LEASE_MS),
                )
            } else {
                s.incoming_peer_deadlines
            },
            None => s.incoming_peer_deadlines,
        },
        ..s
    }
}

pub open spec fn registered(s: AppView, peer: PeerView, now_ms: u64) -> AppView {
    let connected = PeerView { status: PeerStatus::Connected, ..peer };
    AppView {
        session_dirty: true,
        ..incoming_leased(peer_known(s, connected), peer.id, now_ms)
    }
}

pub open spec fn bridges_with(peer_id: Seq<char>) -> spec_fn((Seq<char>, BridgeView)) -> bool {
    |row: (Seq<char>, BridgeView)| row.0 == peer_id
}

/// Every connection to the peer is closed, and the peer told so.
pub open spec fn bridges_stopped(s: AppView, peer_id: Seq<char>) -> AppView {
    AppView {
        peer_bridges: list::without(s.peer_bridges, peer_id),
        effects: s.effects + stops(s.peer_bridges.filter(bridges_with(peer_id))),
        ..s
    }
}

pub open spec fn stops(rows: Seq<(Seq<char>, BridgeView)>) -> Seq<EffectView> {
    rows.map_values(
        |row: (Seq<char>, BridgeView)|
            EffectView::StopBridge {
                bridge: BridgeRefView { peer_id: row.0, connection_id: row.1.connection_id },
                unregister: true,
            },
    )
}

pub open spec fn not_by_peer(peer_id: Seq<char>) -> spec_fn((Seq<char>, BridgeRefView)) -> bool {
    |row: (Seq<char>, BridgeRefView)| row.1.peer_id != peer_id
}

pub open spec fn deadline_not_by(peer_id: Seq<char>) -> spec_fn((BridgeRefView, u64)) -> bool {
    |row: (BridgeRefView, u64)| row.0.peer_id != peer_id
}

/// The local terminals that show terminals of the peer.
pub open spec fn terminals_of_peer(s: AppView, peer_id: Seq<char>) -> Seq<Seq<char>> {
    text::firsts(
        list::keys_of(s.ssh_shell_bridges.filter(release::by_peer(peer_id))) + list::keys_of(
            s.remote_terminal_bridges.filter(release::by_peer(peer_id)),
        ) + release::peer_owners(s, peer_id),
    )
}

#[verifier::opaque]
pub open spec fn peer_terminals_gone(s: AppView, peer_id: Seq<char>, now_ms: u64) -> AppView {
    release::terminals_shut_down(s, terminals_of_peer(s, peer_id), now_ms)
}

/// Nothing waits for the peer, and no connection to it is left.
pub open spec fn peer_cut_off(s: AppView, peer_id: Seq<char>) -> AppView {
    let stopped = bridges_stopped(
        release::activations_cancelled(
            s,
            list::keys_of(s.pending_owner_activations.filter(release::over_peer(peer_id))),
        ),
        peer_id,
    );
    release::refresh_cancelled(
        AppView {
            ssh_shell_bridges: stopped.ssh_shell_bridges.filter(not_by_peer(peer_id)),
            ssh_shell_bridge_deadlines: stopped.ssh_shell_bridge_deadlines.filter(
                deadline_not_by(peer_id),
            ),
            ..stopped
        },
        peer_id,
    )
}

#[verifier::opaque]
pub open spec fn peer_routes_gone(s: AppView, peer_id: Seq<char>, now_ms: u64) -> AppView {
    owners::route_terminated(s, peer_id, now_ms)
}

/// The peer is gone, with all that was shared with it.
pub open spec fn unregistered(s: AppView, peer_id: Seq<char>, now_ms: u64) -> (AppView, Result<
    PeerView,
    Refusal,
>) {
    let counted = AppView {
        peer_lifecycle_generations: list::with(
            s.peer_lifecycle_generations,
            peer_id,
            presentations::next_sequence(generation_of(s, peer_id)),
        ),
        ..s
    };
    match list::lookup(s.peers, peer_id) {
        None => (counted, Err(peer_agents::peer_not_found(peer_id))),
        Some(peer) => (
            AppView {
                session_dirty: true,
                ..peer_cut_off(
                    peer_terminals_gone(
                        peer_routes_gone(
                            AppView { peers: list::without(s.peers, peer_id), ..counted },
                            peer_id,
                            now_ms,
                        ),
                        peer_id,
                        now_ms,
                    ),
                    peer_id,
                )
            },
            Ok(peer),
        ),
    }
}

impl App {
    /// Extends the lease of a peer that connected to this server.
    pub fn renew_incoming_peer_lease(&mut self, peer_id: &str, now_ms: u64)
        ensures
            final(self)@ == incoming_leased(old(self)@, peer_id@, now_ms),
    {
        let incoming = match self.peers.get(peer_id) {
            Some(peer) => matches!(&peer.transport, PeerTransportInfo::ApiSocket { .. }),
            None => false,
        };
        if incoming {
            self.incoming_peer_deadlines.insert(
                peer_id.to_string(),
                now_ms.saturating_add(owners::INCOMING_PEER_LEASE_MS),
            );
        }
    }

    /// A peer makes itself known.
    pub fn handle_peer_register(&mut self, params: PeerRegisterParams, now_ms: u64) -> (r: Result<
        PeerInfo,
        ErrorBody,
    >)
        ensures
            if peer_id_valid(params.peer@.id) {
                text::outcome(r) == Ok::<PeerView, Refusal>(
                    PeerView { status: PeerStatus::Connected, ..params.peer@ },
                ) && final(self)@ == registered(old(self)@, params.peer@, now_ms)
            } else {
                text::outcome(r) == Err::<PeerView, Refusal>(
                    (
                        "invalid_peer_id"@,
                        "peer id may contain only ASCII letters, digits, dot, underscore, and hyphen"@,
                    ),
                ) && final(self)@ == old(self)@
            },
    {
        let mut peer = params.peer;
        if !valid_peer_id(peer.id.as_str()) {
            return Err(
                ErrorBody::new(
                    "invalid_peer_id",
                    "peer id may contain only ASCII letters, digits, dot, underscore, and hyphen",
                ),
            );
        }
        peer.status = PeerStatus::Connected;
        self.know_peer(peer.clone());
        self.renew_incoming_peer_lease(peer.id.as_str(), now_ms);
        self.session_dirty = true;
        Ok(peer)
    }

    fn terminals_shown_for(&self, peer_id: &str) -> (r: Vec<String>)
        ensures
            text::views(r@) == terminals_of_peer(self@, peer_id@),
    {
        let by = |row: &(String, BridgeRef)| -> (b: bool)
            ensures
                b == release::by_peer(peer_id@)(row@),
        {
            text::str_eq(row.1.peer_id.as_str(), peer_id)
        };
        let mut all = self.ssh_shell_bridges.keys_by(by, Ghost(release::by_peer(peer_id@)));
        let more = self.remote_terminal_bridges.keys_by(by, Ghost(release::by_peer(peer_id@)));
        text::extend(&mut all, &more);
        let owned = |row: &(String, String)| -> (b: bool)
            ensures
                b == release::owned_by(peer_id@)(row@),
        {
            text::str_eq(row.1.as_str(), peer_id)
        };
        let rest = self.remote_owner_peers.keys_by(owned, Ghost(release::owned_by(peer_id@)));
        text::extend(&mut all, &rest);
        text::keep_firsts(&all)
    }

    fn shutdown_outbound_owner_terminals_for_peer(&mut self, peer_id: &str, now_ms: u64)
        ensures
            final(self)@ == peer_terminals_gone(old(self)@, peer_id@, now_ms),
    {
        proof {
            reveal(peer_terminals_gone);
        }
        let terminals = self.terminals_shown_for(peer_id);
        self.shutdown_outbound_owner_terminals(&terminals, now_ms);
    }

    pub(crate) fn end_routes_of(&mut self, peer_id: &str, now_ms: u64)
        ensures
            final(self)@ == peer_routes_gone(old(self)@, peer_id@, now_ms),
    {
        proof {
            reveal(peer_routes_gone);
        }
        let _ = self.terminate_remote_presentations_for_route_peer(peer_id, now_ms);
    }

    fn stop_bridges_of(&mut self, peer_id: &str)
        ensures
            final(self)@ == bridges_stopped(old(self)@, peer_id@),
    {
        let ghost all = self@.peer_bridges;
        let ghost before = self@;
        let ghost p = bridges_with(peer_id@);
        let mut i: usize = 0;
        proof {
            list::lemma_filter_empty(p);
            assert(all.take(0) =~= Seq::<(Seq<char>, BridgeView)>::empty());
            assert(before.effects + stops(all.take(0).filter(p)) =~= before.effects);
        }
        while i < self.peer_bridges.len()
            invariant
                i <= all.len(),
                all == before.peer_bridges,
                before == old(self)@,
                p == bridges_with(peer_id@),
                self@ == (AppView {
                    effects: before.effects + stops(all.take(i as int).filter(p)),
                    ..before
                }),
            decreases all.len() - i,
        {
            let row = self.peer_bridges.at(i);
            proof {
                list::lemma_filter_step(all, i as int, p);
            }
            if text::str_eq(row.0.as_str(), peer_id) {
                let bridge = BridgeRef {
                    peer_id: row.0.clone(),
                    connection_id: row.1.connection_id.clone(),
                };
                self.effects.push(Effect::StopBridge { bridge, unregister: true });
                assert(self@.effects =~= before.effects + stops(
                    all.take(i as int + 1).filter(p),
                ));
            }
            i += 1;
        }
        assert(all.take(all.len() as int) =~= all);
        self.peer_bridges.discard(peer_id);
    }

    fn drop_shell_rows_of(&mut self, peer_id: &str)
        ensures
            final(self)@ == (AppView {
                ssh_shell_bridges: old(self)@.ssh_shell_bridges.filter(not_by_peer(peer_id@)),
                ssh_shell_bridge_deadlines: old(self)@.ssh_shell_bridge_deadlines.filter(
                    deadline_not_by(peer_id@),
                ),
                ..old(self)@
            }),
    {
        let kept = |row: &(String, BridgeRef)| -> (b: bool)
            ensures
                b == not_by_peer(peer_id@)(row@),
        {
            !text::str_eq(row.1.peer_id.as_str(), peer_id)
        };
        self.ssh_shell_bridges.retain_by(kept, Ghost(not_by_peer(peer_id@)));
        let due = |row: &(BridgeRef, u64)| -> (b: bool)
            ensures
                b == deadline_not_by(peer_id@)(row@),
        {
            !text::str_eq(row.0.peer_id.as_str(), peer_id)
        };
        self.ssh_shell_bridge_deadlines.retain_by(due, Ghost(deadline_not_by(peer_id@)));
    }

    fn cut_peer_off(&mut self, peer_id: &str)
        ensures
            final(self)@ == peer_cut_off(old(self)@, peer_id@),
    {
        self.cancel_pending_owner_activations_for_peer(peer_id);
        self.stop_bridges_of(peer_id);
        self.drop_shell_rows_of(peer_id);
        self.cancel_peer_refresh(peer_id);
    }

    /// Removes a peer, and all that is shared with it. What is being set up for
    /// it counts as removed too, whether the peer is known yet or not.
    pub fn handle_peer_unregister(&mut self, target: &PeerTarget, now_ms: u64) -> (r: Result<
        PeerInfo,
        ErrorBody,
    >)
        ensures
            final(self)@ == unregistered(old(self)@, target.peer_id@, now_ms).0,
            text::outcome(r) == unregistered(old(self)@, target.peer_id@, now_ms).1,
    {
        let peer_id = target.peer_id.as_str();
        let generation: u64 = self.generation(peer_id);
        self.peer_lifecycle_generations.insert(
            peer_id.to_string(),
            generation.wrapping_add(1),
        );
        let peer = match self.peers.remove(peer_id) {
            Some(peer) => peer,
            None => {
                proof {
                    list::lemma_without_absent(old(self)@.peers, peer_id@);
                }
                return Err(peer_agents::refuse_peer(peer_id));
            },
        };
        self.end_routes_of(peer_id, now_ms);
        self.shutdown_outbound_owner_terminals_for_peer(peer_id, now_ms);
        self.cut_peer_off(peer_id);
        self.session_dirty = true;
        Ok(peer)
    }
}

// ---------------------------------------------------------------------------
// Connections of shells

pub open spec fn no_connection(params: PeerKeepaliveSshParams) -> Refusal {
    (
        "peer_connection_not_found"@,
        "SSH peer connection "@ + params.connection_id@ + " for "@ + params.peer_id@
            + " was not found"@,
    )
}

/// What a disconnect leaves: a delegation that was activated is shown first.
pub open spec fn disconnected(
    s: AppView,
    b: BridgeRefView,
    activated: Option<(Seq<char>, u64)>,
    now_ms: u64,
) -> AppView {
    let shown = match activated {
        Some(claim) => if owners::awaited(s, claim) {
            owners::activation_finished(s, claim.0, true, now_ms)
        } else {
            s
        },
        None => s,
    };
    release::bridge_released(shown, b, now_ms)
}

impl App {
    fn confirm(&mut self, claim: &Option<TerminalDelegationClaim>, now_ms: u64)
        ensures
            final(self)@ == match text::viewed(*claim) {
                Some(c) => if owners::awaited(old(self)@, c) {
                    owners::activation_finished(old(self)@, c.0, true, now_ms)
                } else {
                    old(self)@
                },
                None => old(self)@,
            },
    {
        match claim {
            Some(claim) => {
                if self.awaits(claim) {
                    self.finish_pending_owner_activation(
                        claim.delegation_id.as_str(),
                        true,
                        now_ms,
                    );
                }
            },
            None => {},
        }
    }

    /// A shell gives its connection back.
    pub fn handle_peer_disconnect_ssh(&mut self, params: &PeerDisconnectSshParams, now_ms: u64)
        ensures
            final(self)@ == disconnected(
                old(self)@,
                BridgeRefView {
                    peer_id: params.peer_id@,
                    connection_id: params.connection_id@,
                },
                text::viewed(params.activated_delegation),
                now_ms,
            ),
    {
        self.confirm(&params.activated_delegation, now_ms);
        self.release_peer_bridge(
            params.peer_id.as_str(),
            params.connection_id.as_str(),
            now_ms,
        );
    }

    /// A shell is still there.
    pub fn handle_peer_keepalive_ssh(&mut self, params: &PeerKeepaliveSshParams, now_ms: u64) -> (r:
        Result<(), ErrorBody>)
        ensures
            ({
                let b = BridgeRefView {
                    peer_id: params.peer_id@,
                    connection_id: params.connection_id@,
                };
                if release::connected(old(self)@, b) {
                    r is Ok && final(self)@ == bridge_leased(old(self)@, b, now_ms)
                } else {
                    r matches Err(e) && e@ == no_connection(*params) && final(self)@ == old(self)@
                }
            }),
    {
        if !self.is_connected(params.peer_id.as_str(), params.connection_id.as_str()) {
            let mut message = presentations::joined(
                "SSH peer connection ",
                params.connection_id.as_str(),
            );
            message.append(" for ");
            message.append(params.peer_id.as_str());
            message.append(" was not found");
            return Err(ErrorBody::new("peer_connection_not_found", message.as_str()));
        }
        self.lease_bridge(params.peer_id.as_str(), params.connection_id.as_str(), now_ms);
        Ok(())
    }

    /// A peer confirms that a presentation it prepared is active.
    pub fn handle_peer_presentation_activate(
        &mut self,
        claim: &TerminalDelegationClaim,
        now_ms: u64,
    ) -> (r: Result<(), ErrorBody>)
        ensures
            if owners::awaited(old(self)@, claim@) {
                r is Ok && final(self)@ == owners::activation_finished(
                    old(self)@,
                    claim@.0,
                    true,
                    now_ms,
                )
            } else {
                r matches Err(e) && e@ == (
                    "presentation_activation_not_found"@,
                    "the prepared owner presentation was not found or no longer matches"@,
                ) && final(self)@ == old(self)@
            },
    {
        if !self.awaits(claim) {
            return Err(
                ErrorBody::new(
                    "presentation_activation_not_found",
                    "the prepared owner presentation was not found or no longer matches",
                ),
            );
        }
        self.finish_pending_owner_activation(claim.delegation_id.as_str(), true, now_ms);
        Ok(())
    }
}

} // verus!
