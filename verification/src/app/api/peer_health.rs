//! Which peers there are, whether they answer, and when they are given up.

use vstd::prelude::*;
use vstd::string::*;

use super::peers as api_peers;
use crate::api::schema::common::{ErrorBody, Method, Request};
use crate::api::schema::peers::{PeerInfo, PeerStatus, PeerTarget, PeerTransportInfo, PeerView};
use crate::api::schema::server::PingParams;
use crate::app::list::{self, List};
use crate::app::owners;
use crate::app::peer_agents;
use crate::app::release;
use crate::app::remote_presentations::{self as presentations, Refusal};
use crate::app::sorting;
use crate::app::{App, AppView, BridgeRef, BridgeRefView, Effect, EffectView};
use crate::json::{self, Json};
use crate::text;

verus! {

// ---------------------------------------------------------------------------
// The list

pub open spec fn peers_named(s: AppView, ids: Seq<Seq<char>>) -> Seq<PeerView> {
    ids.map_values(|id: Seq<char>| list::lookup(s.peers, id)->0)
}

/// The peers, in the order of their names.
pub open spec fn peers_listed(s: AppView) -> Seq<PeerView> {
    peers_named(s, sorting::ordered(list::keys_of(s.peers)))
}

// ---------------------------------------------------------------------------
// Health

/// The name that the peer knows this server by, over its latest connection.
pub open spec fn name_at_peer(s: AppView, peer_id: Seq<char>) -> Option<Seq<char>> {
    match release::latest(s.peer_bridges, peer_id) {
        Some(bridge) => bridge.remote_peer_id,
        None => None,
    }
}

/// A peer is asked whether it reaches this server; where it knows no name for
/// it, only whether it is there.
pub open spec fn asks_health(r: Request, back: Option<Seq<char>>) -> bool {
    match back {
        Some(name) => r.id@ == "peer:health:reverse"@ && (r.method matches Method::PeerHealth(t)
            && t.peer_id@ == name),
        None => r.id@ == "peer:health"@ && r.method is Ping,
    }
}

/// The peer answered, and does not say that it is cut off.
pub open spec fn reached(result: Result<Json, String>) -> bool {
    match result {
        Err(_) => false,
        Ok(response) => !json::has(response, "error"@) && match json::as_text(
            json::member(json::member(json::member(response, "result"@), "peer"@), "status"@),
        ) {
            Some(status) => status == "connected"@,
            None => true,
        },
    }
}

/// What an answer changes about a peer. Where the peer was removed or came anew
/// in the meantime, it says nothing about it.
pub open spec fn health_checked(
    s: AppView,
    peer: PeerView,
    generation: u64,
    result: Result<Json, String>,
) -> (AppView, Result<PeerView, Refusal>) {
    let current = list::lookup(s.peers, peer.id);
    if list::lookup(s.peer_refresh_generations, peer.id) != Some(generation) {
        (
            s,
            match current {
                Some(known) => Ok(known),
                None => Err(peer_agents::peer_not_found(peer.id)),
            },
        )
    } else {
        let status = peer_agents::status_of(
            reached(result) && peer_agents::bridges_sound(s, peer.id),
        );
        match current {
            None => (s, Ok(PeerView { status, ..peer })),
            Some(known) => if known.transport == peer.transport {
                (
                    AppView { peers: peer_agents::with_status(s.peers, peer.id, status), ..s },
                    Ok(PeerView { status, ..known }),
                )
            } else {
                (s, Ok(known))
            },
        }
    }
}

/// What a health request that waits for the answer comes to.
pub open spec fn health_found(s: AppView, peer_id: Seq<char>, result: Result<Json, String>) -> (
    AppView,
    Result<PeerView, Refusal>,
) {
    match list::lookup(s.peers, peer_id) {
        None => (s, Err(peer_agents::peer_not_found(peer_id))),
        Some(peer) => {
            let status = peer_agents::status_of(reached(result));
            (
                AppView { peers: peer_agents::with_status(s.peers, peer_id, status), ..s },
                Ok(PeerView { status, ..peer }),
            )
        },
    }
}

fn answers_as_connected(result: &Result<Json, String>) -> (r: bool)
    ensures
        r == reached(*result),
{
    let response = match result {
        Ok(response) => response,
        Err(_) => return false,
    };
    if response.get("error").is_some() {
        return false;
    }
    let status = match response.get("result") {
        Some(result) => match result.get("peer") {
            Some(peer) => peer.text_member("status"),
            None => None,
        },
        None => None,
    };
    match status {
        Some(status) => text::str_eq(status, "connected"),
        None => true,
    }
}

/// Two transports lead to the same place.
pub fn same_transport(a: &PeerTransportInfo, b: &PeerTransportInfo) -> (r: bool)
    ensures
        r == (a@ == b@),
{
    match (a, b) {
        (
            PeerTransportInfo::ApiSocket { api_socket: x },
            PeerTransportInfo::ApiSocket { api_socket: y },
        ) => text::str_eq(x.as_str(), y.as_str()),
        (
            PeerTransportInfo::Ssh {
                target: at,
                ssh_args: aa,
                managed_control_path: ac,
                session: as_,
            },
            PeerTransportInfo::Ssh {
                target: bt,
                ssh_args: ba,
                managed_control_path: bc,
                session: bs,
            },
        ) => text::str_eq(at.as_str(), bt.as_str()) && text::same_strings(aa, ba)
            && text::opt_str_eq(ac, bc) && text::opt_str_eq(as_, bs),
        _ => false,
    }
}

impl App {
    /// The peers, in the order of their names.
    pub fn handle_peer_list(&self) -> (r: List<PeerInfo>)
        ensures
            r@ == peers_listed(self@),
    {
        let keys = self.peers.keys();
        let ids = sorting::sort_names(&keys);
        let ghost names = text::views(ids@);
        assert forall|k: int| 0 <= k < names.len() implies list::keys_of(self@.peers).contains(
            #[trigger] names[k],
        ) by {
            assert(names.contains(names[k]));
            sorting::lemma_ordered_keeps(list::keys_of(self@.peers), names[k]);
        }
        let mut out: List<PeerInfo> = List::new();
        let mut i: usize = 0;
        while i < ids.len()
            invariant
                i <= ids@.len() == names.len(),
                names == text::views(ids@),
                forall|k: int|
                    0 <= k < names.len() ==> list::keys_of(self@.peers).contains(#[trigger] names[k]),
                out@.len() == i,
                forall|k: int|
                    0 <= k < i ==> #[trigger] out@[k] == list::lookup(self@.peers, names[k])->0,
            decreases ids@.len() - i,
        {
            assert(list::keys_of(self@.peers).contains(names[i as int]));
            proof {
                list::lemma_key_present(self@.peers, names[i as int]);
            }
            match self.peers.get(ids[i].as_str()) {
                Some(peer) => out.push(peer.clone()),
                None => {},
            }
            i += 1;
        }
        assert(out@ =~= peers_listed(self@));
        out
    }

    /// How a peer is asked about its health.
    pub fn peer_health_request(&self, peer_id: &str) -> (r: Request)
        ensures
            asks_health(r, name_at_peer(self@, peer_id@)),
    {
        let back = match self.latest_bridge(peer_id) {
            Some(bridge) => text::clone_opt(&bridge.remote_peer_id),
            None => None,
        };
        match back {
            Some(name) => Request {
                id: "peer:health:reverse".to_string(),
                method: Method::PeerHealth(PeerTarget { peer_id: name }),
            },
            None => Request {
                id: "peer:health".to_string(),
                method: Method::Ping(PingParams {  }),
            },
        }
    }

    /// The answer of a peer that was asked at once, without leaving the request.
    pub fn handle_peer_health(&mut self, target: &PeerTarget, result: &Result<Json, String>) -> (r:
        Result<PeerInfo, ErrorBody>)
        ensures
            final(self)@ == health_found(old(self)@, target.peer_id@, *result).0,
            text::outcome(r) == health_found(old(self)@, target.peer_id@, *result).1,
    {
        let peer_id = target.peer_id.as_str();
        let mut peer = match self.peers.get(peer_id) {
            Some(peer) => peer.clone(),
            None => return Err(peer_agents::refuse_peer(peer_id)),
        };
        let connected = answers_as_connected(result);
        self.set_peer_status(peer_id, connected);
        peer.status = if connected {
            PeerStatus::Connected
        } else {
            PeerStatus::Disconnected
        };
        Ok(peer)
    }

    /// Begins to ask a peer, where `granted`: the peer, its generation, and what
    /// it is asked.
    pub fn begin_peer_health(&self, target: &PeerTarget, granted: bool) -> (r: Result<
        Option<(PeerInfo, u64, Request)>,
        ErrorBody,
    >)
        ensures
            match list::lookup(self@.peers, target.peer_id@) {
                None => r matches Err(e) && e@ == peer_agents::peer_not_found(target.peer_id@),
                Some(peer) => if granted {
                    r matches Ok(Some((p, generation, request))) && p@ == peer && generation
                        == match list::lookup(self@.peer_refresh_generations, target.peer_id@) {
                        Some(g) => g,
                        None => 0,
                    } && asks_health(request, name_at_peer(self@, target.peer_id@))
                } else {
                    r matches Ok(None)
                },
            },
    {
        let peer_id = target.peer_id.as_str();
        let peer = match self.peers.get(peer_id) {
            Some(peer) => peer.clone(),
            None => return Err(peer_agents::refuse_peer(peer_id)),
        };
        if !granted {
            return Ok(None);
        }
        let generation: u64 = match self.peer_refresh_generations.get(peer_id) {
            Some(g) => *g,
            None => 0,
        };
        Ok(Some((peer, generation, self.peer_health_request(peer_id))))
    }

    /// A peer could not be asked.
    pub fn abort_peer_health(err: &str) -> (e: ErrorBody)
        ensures
            e@ == ("peer_unreachable"@, "could not start peer health check: "@ + err@),
    {
        ErrorBody::new(
            "peer_unreachable",
            presentations::joined("could not start peer health check: ", err).as_str(),
        )
    }

    /// A peer has answered, or not.
    pub fn handle_peer_health_finished(
        &mut self,
        peer: PeerInfo,
        generation: u64,
        result: &Result<Json, String>,
    ) -> (r: Result<PeerInfo, ErrorBody>)
        ensures
            final(self)@ == health_checked(old(self)@, peer@, generation, *result).0,
            text::outcome(r) == health_checked(old(self)@, peer@, generation, *result).1,
    {
        let peer_id = peer.id.clone();
        let current = match self.peers.get(peer_id.as_str()) {
            Some(known) => Some(known.clone()),
            None => None,
        };
        let fresh = match self.peer_refresh_generations.get(peer_id.as_str()) {
            Some(g) => *g == generation,
            None => false,
        };
        if !fresh {
            return match current {
                Some(known) => Ok(known),
                None => Err(peer_agents::refuse_peer(peer_id.as_str())),
            };
        }
        let connected = answers_as_connected(result) && self.has_sound_bridge(peer_id.as_str());
        let status = if connected {
            PeerStatus::Connected
        } else {
            PeerStatus::Disconnected
        };
        match current {
            None => {
                let mut peer = peer;
                peer.status = status;
                Ok(peer)
            },
            Some(known) => {
                let mut known = known;
                if same_transport(&known.transport, &peer.transport) {
                    self.set_peer_status(peer_id.as_str(), connected);
                    known.status = status;
                }
                Ok(known)
            },
        }
    }
}

// ---------------------------------------------------------------------------
// Leases

pub open spec fn comes_in(s: AppView, peer_id: Seq<char>) -> bool {
    match list::lookup(s.peers, peer_id) {
        Some(peer) => api_peers::is_incoming(peer),
        None => false,
    }
}

/// A peer that connected to this server and was not heard of in time is gone,
/// with what it was shown.
#[verifier::opaque]
pub open spec fn incoming_gone(s: AppView, peer_id: Seq<char>, now_ms: u64) -> AppView {
    let undue = AppView {
        incoming_peer_deadlines: list::without(s.incoming_peer_deadlines, peer_id),
        ..s
    };
    if comes_in(s, peer_id) {
        AppView {
            session_dirty: true,
            ..api_peers::peer_routes_gone(
                release::refresh_cancelled(
                    AppView { peers: list::without(s.peers, peer_id), ..undue },
                    peer_id,
                ),
                peer_id,
                now_ms,
            )
        }
    } else {
        undue
    }
}

pub open spec fn all_incoming_gone(s: AppView, ids: Seq<Seq<char>>, now_ms: u64) -> AppView
    decreases ids.len(),
{
    if ids.len() == 0 {
        s
    } else {
        all_incoming_gone(incoming_gone(s, ids[0], now_ms), ids.skip(1), now_ms)
    }
}

/// One of the peers is still there when its turn comes.
pub open spec fn some_incoming(s: AppView, ids: Seq<Seq<char>>, now_ms: u64) -> bool
    decreases ids.len(),
{
    if ids.len() == 0 {
        false
    } else {
        comes_in(s, ids[0]) || some_incoming(
            incoming_gone(s, ids[0], now_ms),
            ids.skip(1),
            now_ms,
        )
    }
}

pub open spec fn incoming_due(s: AppView, now_ms: u64) -> Seq<Seq<char>> {
    list::keys_of(s.incoming_peer_deadlines.filter(owners::lapsed(now_ms)))
}

pub open spec fn bridge_lapsed(now_ms: u64) -> spec_fn((BridgeRefView, u64)) -> bool {
    |row: (BridgeRefView, u64)| now_ms >= row.1
}

pub open spec fn refs_of(rows: Seq<(BridgeRefView, u64)>) -> Seq<BridgeRefView> {
    rows.map_values(|row: (BridgeRefView, u64)| row.0)
}

pub open spec fn bridges_due(s: AppView, now_ms: u64) -> Seq<BridgeRefView> {
    refs_of(s.ssh_shell_bridge_deadlines.filter(bridge_lapsed(now_ms)))
}

impl App {
    fn expire_incoming_peer(&mut self, peer_id: &str, now_ms: u64) -> (gone: bool)
        ensures
            gone == comes_in(old(self)@, peer_id@),
            final(self)@ == incoming_gone(old(self)@, peer_id@, now_ms),
    {
        proof {
            reveal(incoming_gone);
        }
        self.incoming_peer_deadlines.discard(peer_id);
        let incoming = match self.peers.get(peer_id) {
            Some(peer) => matches!(&peer.transport, PeerTransportInfo::ApiSocket { .. }),
            None => false,
        };
        if !incoming {
            return false;
        }
        self.peers.discard(peer_id);
        self.cancel_peer_refresh(peer_id);
        self.end_routes_of(peer_id, now_ms);
        self.session_dirty = true;
        true
    }

    /// Gives up the peers that connected to this server and were not heard of in
    /// time; tells whether one of them was still known.
    pub fn expire_incoming_peer_leases(&mut self, now_ms: u64) -> (changed: bool)
        ensures
            changed == some_incoming(old(self)@, incoming_due(old(self)@, now_ms), now_ms),
            final(self)@ == all_incoming_gone(
                old(self)@,
                incoming_due(old(self)@, now_ms),
                now_ms,
            ),
    {
        let late = |row: &(String, u64)| -> (b: bool)
            ensures
                b == owners::lapsed(now_ms)(row@),
        {
            now_ms >= row.1
        };
        let expired = self.incoming_peer_deadlines.keys_by(late, Ghost(owners::lapsed(now_ms)));
        let ghost s = self@;
        let ghost ids = text::views(expired@);
        let mut changed = false;
        let mut i: usize = 0;
        assert(ids.skip(0) =~= ids);
        while i < expired.len()
            invariant
                i <= expired@.len() == ids.len(),
                ids == text::views(expired@),
                all_incoming_gone(self@, ids.skip(i as int), now_ms) == all_incoming_gone(
                    s,
                    ids,
                    now_ms,
                ),
                (changed || some_incoming(self@, ids.skip(i as int), now_ms)) == some_incoming(
                    s,
                    ids,
                    now_ms,
                ),
            decreases expired@.len() - i,
        {
            assert(ids.skip(i as int)[0] == expired@[i as int]@);
            assert(ids.skip(i as int).skip(1) =~= ids.skip(i as int + 1));
            if self.expire_incoming_peer(expired[i].as_str(), now_ms) {
                changed = true;
            }
            i += 1;
        }
        changed
    }

    fn bridges_overdue(&self, now_ms: u64) -> (r: List<BridgeRef>)
        ensures
            r@ == bridges_due(self@, now_ms),
    {
        let ghost all = self@.ssh_shell_bridge_deadlines;
        let ghost p = bridge_lapsed(now_ms);
        let mut out: List<BridgeRef> = List::new();
        let mut i: usize = 0;
        proof {
            list::lemma_filter_empty(p);
            assert(all.take(0) =~= Seq::<(BridgeRefView, u64)>::empty());
            assert(out@ =~= refs_of(all.take(0).filter(p)));
        }
        while i < self.ssh_shell_bridge_deadlines.len()
            invariant
                i <= all.len(),
                all == self@.ssh_shell_bridge_deadlines,
                p == bridge_lapsed(now_ms),
                out@ == refs_of(all.take(i as int).filter(p)),
            decreases all.len() - i,
        {
            let row = self.ssh_shell_bridge_deadlines.at(i);
            proof {
                list::lemma_filter_step(all, i as int, p);
            }
            if now_ms >= row.1 {
                out.push(row.0.clone());
                assert(out@ =~= refs_of(all.take(i as int + 1).filter(p)));
            }
            i += 1;
        }
        assert(all.take(all.len() as int) =~= all);
        out
    }

    /// Gives back the connections of shells that were not heard of in time; tells
    /// whether there were any.
    pub fn expire_ssh_shell_bridge_leases(&mut self, now_ms: u64) -> (changed: bool)
        ensures
            changed == (bridges_due(old(self)@, now_ms).len() > 0),
            final(self)@ == release::bridges_released(
                old(self)@,
                bridges_due(old(self)@, now_ms),
                now_ms,
            ),
    {
        let expired = self.bridges_overdue(now_ms);
        self.release_bridges(&expired, now_ms);
        !expired.is_empty()
    }
}

// ---------------------------------------------------------------------------
// The end

pub open spec fn cancelled_activations(ids: Seq<Seq<char>>) -> Seq<EffectView> {
    ids.map_values(|id: Seq<char>| EffectView::CancelActivation(id))
}

pub open spec fn cancelled_refreshes(ids: Seq<Seq<char>>) -> Seq<EffectView> {
    ids.map_values(|id: Seq<char>| EffectView::CancelRefresh(id))
}

pub open spec fn cancelled_mirrors(ids: Seq<Seq<char>>) -> Seq<EffectView> {
    ids.map_values(|id: Seq<char>| EffectView::CancelMirror(id))
}

#[verifier::opaque]
pub open spec fn owned_terminals_gone(s: AppView, now_ms: u64) -> AppView {
    release::terminals_shut_down(s, list::keys_of(s.remote_owner_presentations), now_ms)
}

/// Nothing is shared with any peer.
pub open spec fn alone(s: AppView) -> AppView {
    AppView {
        effects: s.effects + cancelled_activations(list::keys_of(s.pending_owner_activations))
            + cancelled_refreshes(list::keys_of(s.peer_refreshes)) + cancelled_mirrors(
            list::keys_of(s.remote_mirrors),
        ) + api_peers::stops(s.peer_bridges),
        pending_owner_activations: Seq::empty(),
        peer_refreshes: Seq::empty(),
        remote_mirrors: Seq::empty(),
        peer_bridges: Seq::empty(),
        peer_refresh_generations: Seq::empty(),
        peer_agent_cache: Seq::empty(),
        ssh_shell_bridges: Seq::empty(),
        remote_owner_presentations: Seq::empty(),
        remote_owner_peers: Seq::empty(),
        remote_owner_deadlines: Seq::empty(),
        ssh_shell_bridge_deadlines: Seq::empty(),
        incoming_peer_deadlines: Seq::empty(),
        remote_terminal_bridges: Seq::empty(),
        peer_lifecycle_generations: Seq::empty(),
        peers: Seq::empty(),
        ..s
    }
}

impl App {
    fn cancel_all_activations(&mut self)
        ensures
            final(self)@ == (AppView {
                effects: old(self)@.effects + cancelled_activations(
                    list::keys_of(old(self)@.pending_owner_activations),
                ),
                pending_owner_activations: Seq::empty(),
                ..old(self)@
            }),
    {
        let ids = self.pending_owner_activations.keys();
        let _ = self.pending_owner_activations.take_all();
        let ghost before = self@;
        let ghost names = text::views(ids@);
        let mut i: usize = 0;
        assert(before.effects + cancelled_activations(names.take(0)) =~= before.effects);
        while i < ids.len()
            invariant
                i <= ids@.len() == names.len(),
                names == text::views(ids@),
                self@ == (AppView {
                    effects: before.effects + cancelled_activations(names.take(i as int)),
                    ..before
                }),
            decreases ids@.len() - i,
        {
            self.effects.push(Effect::CancelActivation(ids[i].clone()));
            assert(self@.effects =~= before.effects + cancelled_activations(
                names.take(i as int + 1),
            ));
            i += 1;
        }
        assert(names.take(names.len() as int) =~= names);
    }

    fn cancel_all_refreshes(&mut self)
        ensures
            final(self)@ == (AppView {
                effects: old(self)@.effects + cancelled_refreshes(
                    list::keys_of(old(self)@.peer_refreshes),
                ),
                peer_refreshes: Seq::empty(),
                ..old(self)@
            }),
    {
        let ids = self.peer_refreshes.keys();
        let _ = self.peer_refreshes.take_all();
        let ghost before = self@;
        let ghost names = text::views(ids@);
        let mut i: usize = 0;
        assert(before.effects + cancelled_refreshes(names.take(0)) =~= before.effects);
        while i < ids.len()
            invariant
                i <= ids@.len() == names.len(),
                names == text::views(ids@),
                self@ == (AppView {
                    effects: before.effects + cancelled_refreshes(names.take(i as int)),
                    ..before
                }),
            decreases ids@.len() - i,
        {
            self.effects.push(Effect::CancelRefresh(ids[i].clone()));
            assert(self@.effects =~= before.effects + cancelled_refreshes(
                names.take(i as int + 1),
            ));
            i += 1;
        }
        assert(names.take(names.len() as int) =~= names);
    }

    fn cancel_all_mirrors(&mut self)
        ensures
            final(self)@ == (AppView {
                effects: old(self)@.effects + cancelled_mirrors(
                    list::keys_of(old(self)@.remote_mirrors),
                ),
                remote_mirrors: Seq::empty(),
                ..old(self)@
            }),
    {
        let ids = self.remote_mirrors.keys();
        let _ = self.remote_mirrors.take_all();
        let ghost before = self@;
        let ghost names = text::views(ids@);
        let mut i: usize = 0;
        assert(before.effects + cancelled_mirrors(names.take(0)) =~= before.effects);
        while i < ids.len()
            invariant
                i <= ids@.len() == names.len(),
                names == text::views(ids@),
                self@ == (AppView {
                    effects: before.effects + cancelled_mirrors(names.take(i as int)),
                    ..before
                }),
            decreases ids@.len() - i,
        {
            self.effects.push(Effect::CancelMirror(ids[i].clone()));
            assert(self@.effects =~= before.effects + cancelled_mirrors(names.take(i as int + 1)));
            i += 1;
        }
        assert(names.take(names.len() as int) =~= names);
    }

    fn stop_all_bridges(&mut self)
        ensures
            final(self)@ == (AppView {
                effects: old(self)@.effects + api_peers::stops(old(self)@.peer_bridges),
                peer_bridges: Seq::empty(),
                ..old(self)@
            }),
    {
        let rows = self.peer_bridges.take_all();
        let ghost before = self@;
        let ghost all = rows@;
        let mut i: usize = 0;
        assert(before.effects + api_peers::stops(all.take(0)) =~= before.effects);
        while i < rows.len()
            invariant
                i <= rows@.len(),
                all == rows@,
                self@ == (AppView {
                    effects: before.effects + api_peers::stops(all.take(i as int)),
                    ..before
                }),
            decreases rows@.len() - i,
        {
            let row = rows.at(i);
            let bridge = BridgeRef {
                peer_id: row.0.clone(),
                connection_id: row.1.connection_id.clone(),
            };
            self.effects.push(Effect::StopBridge { bridge, unregister: true });
            assert(self@.effects =~= before.effects + api_peers::stops(all.take(i as int + 1)));
            i += 1;
        }
        assert(all.take(all.len() as int) =~= all);
    }

    fn forget_peers(&mut self)
        ensures
            final(self)@ == (AppView {
                peer_refresh_generations: Seq::empty(),
                peer_agent_cache: Seq::empty(),
                ssh_shell_bridges: Seq::empty(),
                remote_owner_presentations: Seq::empty(),
                remote_owner_peers: Seq::empty(),
                remote_owner_deadlines: Seq::empty(),
                ssh_shell_bridge_deadlines: Seq::empty(),
                incoming_peer_deadlines: Seq::empty(),
                remote_terminal_bridges: Seq::empty(),
                peer_lifecycle_generations: Seq::empty(),
                peers: Seq::empty(),
                ..old(self)@
            }),
    {
        self.peer_refresh_generations = List::new();
        self.peer_agent_cache = List::new();
        self.ssh_shell_bridges = List::new();
        self.remote_owner_presentations = List::new();
        self.remote_owner_peers = List::new();
        self.remote_owner_deadlines = List::new();
        self.ssh_shell_bridge_deadlines = List::new();
        self.incoming_peer_deadlines = List::new();
        self.remote_terminal_bridges = List::new();
        self.peer_lifecycle_generations = List::new();
        self.peers = List::new();
    }

    fn cut_all_off(&mut self)
        ensures
            final(self)@ == alone(old(self)@),
    {
        self.cancel_all_activations();
        self.cancel_all_refreshes();
        self.cancel_all_mirrors();
        self.stop_all_bridges();
        self.forget_peers();
    }

    fn shut_owned_terminals_down(&mut self, now_ms: u64)
        ensures
            final(self)@ == owned_terminals_gone(old(self)@, now_ms),
    {
        proof {
            reveal(owned_terminals_gone);
        }
        let terminals = self.remote_owner_presentations.keys();
        self.shutdown_outbound_owner_terminals(&terminals, now_ms);
    }

    /// Takes everything down that is shared with peers.
    pub fn shutdown_peer_runtime(&mut self, now_ms: u64)
        ensures
            final(self)@ == alone(owned_terminals_gone(old(self)@, now_ms)),
    {
        self.shut_owned_terminals_down(now_ms);
        self.cut_all_off();
    }
}

/// A peer that was removed while it was being asked stays removed, whatever it
/// answers.
pub proof fn lemma_late_answers_change_nothing(
    s: AppView,
    peer: PeerView,
    generation: u64,
    result: Result<Json, String>,
)
    requires
        list::lookup(s.peer_refresh_generations, peer.id) != Some(generation),
    ensures
        health_checked(s, peer, generation, result).0 == s,
{
}

} // verus!
