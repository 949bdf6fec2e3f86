//! What it means that a peer is connected.

use vstd::prelude::*;
use vstd::string::*;

use super::peer_health;
use crate::api::schema::agents::AgentView;
use crate::api::schema::peers::{PeerStatus, PeerView};
use crate::app::list;
use crate::app::peer_agents;
use crate::app::{AppView, BridgeView};
use crate::json::{self, Json};

verus! {

/// No connection to the peer is known, or one that is known is healthy.
pub open spec fn no_connection_ails(
    bridges: Seq<(Seq<char>, BridgeView)>,
    peer_id: Seq<char>,
) -> bool {
    ||| forall|i: int| 0 <= i < bridges.len() ==> (#[trigger] bridges[i]).0 != peer_id
    ||| exists|i: int|
        0 <= i < bridges.len() && (#[trigger] bridges[i]).0 == peer_id && bridges[i].1.healthy
}

/// The peer answered, and not with an error, nor by saying that it is anything but
/// connected.
pub open spec fn answered_well(result: Result<Json, String>) -> bool {
    &&& result is Ok
    &&& !json::has(result->Ok_0, "error"@)
    &&& forall|status: Seq<char>|
        #[trigger] json::as_text(
            json::member(
                json::member(json::member(result->Ok_0, "result"@), "peer"@),
                "status"@,
            ),
        ) == Some(status) ==> status == "connected"@
}

proof fn lemma_sound_connections(s: AppView, peer_id: Seq<char>)
    ensures
        peer_agents::bridges_sound(s, peer_id) == no_connection_ails(s.peer_bridges, peer_id),
{
    list::lemma_lookup_reads_the_table(s.peer_bridges, peer_id);
    list::lemma_first(s.peer_bridges, peer_agents::healthy_with(peer_id));
    if no_connection_ails(s.peer_bridges, peer_id) && list::present(s.peer_bridges, peer_id) {
        let i = choose|i: int|
            0 <= i < s.peer_bridges.len() && (#[trigger] s.peer_bridges[i]).0 == peer_id
                && s.peer_bridges[i].1.healthy;
        assert(peer_agents::healthy_with(peer_id)(s.peer_bridges[i]));
    }
    if list::some(s.peer_bridges, peer_agents::healthy_with(peer_id)) {
        let i = list::place(s.peer_bridges, peer_agents::healthy_with(peer_id));
        assert(s.peer_bridges[i].0 == peer_id && s.peer_bridges[i].1.healthy);
    }
}

proof fn lemma_answers(result: Result<Json, String>)
    ensures
        peer_health::reached(result) == answered_well(result),
{
    if result is Ok {
        let said = json::as_text(
            json::member(
                json::member(json::member(result->Ok_0, "result"@), "peer"@),
                "status"@,
            ),
        );
        match said {
            Some(status) => {
                if answered_well(result) {
                    assert(said == Some(status));
                    assert(status == "connected"@);
                }
            },
            None => {},
        }
    }
}

/// A check that is current finds a peer connected exactly if the peer answered well
/// and no connection to it ails; it is answered as it is kept. A request that failed
/// leaves no peer connected. No other peer, and nothing but the status, is changed.
pub proof fn lemma_connected_peers_have_answered(
    s: AppView,
    peer: PeerView,
    known: PeerView,
    generation: u64,
    result: Result<Json, String>,
    other: Seq<char>,
)
    requires
        list::lookup(s.peer_refresh_generations, peer.id) == Some(generation),
        list::lookup(s.peers, peer.id) == Some(known),
        known.transport == peer.transport,
    ensures
        ({
            let (after, r) = peer_health::health_checked(s, peer, generation, result);
            &&& r is Ok
            &&& r->Ok_0.status == PeerStatus::Connected <==> answered_well(result)
                && no_connection_ails(s.peer_bridges, peer.id)
            &&& r->Ok_0.status != PeerStatus::Connected ==> r->Ok_0.status
                == PeerStatus::Disconnected
            &&& result is Err ==> r->Ok_0.status == PeerStatus::Disconnected
            &&& r->Ok_0 == (PeerView { status: r->Ok_0.status, ..known })
            &&& list::lookup(after.peers, peer.id) == Some(r->Ok_0)
            &&& other != peer.id ==> list::lookup(after.peers, other) == list::lookup(
                s.peers,
                other,
            )
            &&& after == (AppView { peers: after.peers, ..s })
        }),
{
    lemma_sound_connections(s, peer.id);
    lemma_answers(result);
    let after = peer_health::health_checked(s, peer, generation, result).0;
    let status = list::lookup(after.peers, peer.id)->0.status;
    let shown = peer_health::health_checked(s, peer, generation, result).1->Ok_0;
    list::lemma_tables_change_one_key(s.peers, peer.id, shown, (other, known));
}

/// A check that is not current, or of a peer that is reached another way by now,
/// changes nothing, and what is known of the peer is the answer. One of a peer that is
/// gone does not bring it back.
pub proof fn lemma_outdated_checks_change_nothing(
    s: AppView,
    peer: PeerView,
    generation: u64,
    result: Result<Json, String>,
)
    requires
        list::lookup(s.peer_refresh_generations, peer.id) != Some(generation) || list::lookup(
            s.peers,
            peer.id,
        ) is None || (list::lookup(s.peers, peer.id)->0).transport != peer.transport,
    ensures
        ({
            let (after, r) = peer_health::health_checked(s, peer, generation, result);
            &&& after == s
            &&& list::lookup(s.peers, peer.id) matches Some(known) ==> r == Ok::<
                PeerView,
                (Seq<char>, Seq<char>),
            >(known)
            &&& list::lookup(s.peers, peer.id) is None && list::lookup(
                s.peer_refresh_generations,
                peer.id,
            ) != Some(generation) ==> r is Err && r->Err_0.0 == "peer_not_found"@
        }),
{
}

/// A request that waits for the answer keeps and answers a peer as connected exactly if
/// it answered well.
pub proof fn lemma_asked_peers_are_kept_as_they_answered(
    s: AppView,
    peer_id: Seq<char>,
    known: PeerView,
    result: Result<Json, String>,
    other: Seq<char>,
)
    requires
        list::lookup(s.peers, peer_id) == Some(known),
    ensures
        ({
            let (after, r) = peer_health::health_found(s, peer_id, result);
            &&& r is Ok
            &&& r->Ok_0.status == PeerStatus::Connected <==> answered_well(result)
            &&& r->Ok_0.status != PeerStatus::Connected ==> r->Ok_0.status
                == PeerStatus::Disconnected
            &&& r->Ok_0 == (PeerView { status: r->Ok_0.status, ..known })
            &&& list::lookup(after.peers, peer_id) == Some(r->Ok_0)
            &&& other != peer_id ==> list::lookup(after.peers, other) == list::lookup(
                s.peers,
                other,
            )
            &&& after == (AppView { peers: after.peers, ..s })
        }),
{
    lemma_answers(result);
    let shown = peer_health::health_found(s, peer_id, result).1->Ok_0;
    list::lemma_tables_change_one_key(s.peers, peer_id, shown, (other, known));
}

/// A peer whose agents are reported in time is kept with these agents, and connected
/// exactly if no connection to it ails. One that fails to report them is kept as
/// disconnected, and its agents are forgotten. Reports that are late change nothing.
pub proof fn lemma_refreshed_peers_are_kept_as_they_report(
    s: AppView,
    peer_id: Seq<char>,
    generation: u64,
    observed_at_ms: u64,
    agents: Option<Seq<AgentView>>,
    other: Seq<char>,
)
    ensures
        ({
            let after = peer_agents::refreshed(s, peer_id, generation, observed_at_ms, agents);
            if list::lookup(s.peer_refresh_generations, peer_id) == Some(generation)
                && list::lookup(s.peers, peer_id) is Some {
                let known = list::lookup(s.peers, peer_id)->0;
                &&& list::lookup(after.peers, peer_id) is Some
                &&& ({
                    let kept = list::lookup(after.peers, peer_id)->0;
                    &&& kept == (PeerView { status: kept.status, ..known })
                    &&& kept.status == PeerStatus::Connected <==> agents is Some
                        && no_connection_ails(s.peer_bridges, peer_id)
                    &&& kept.status != PeerStatus::Connected ==> kept.status
                        == PeerStatus::Disconnected
                })
                &&& list::lookup(after.peer_agent_cache, peer_id) == agents
                &&& other != peer_id ==> list::lookup(after.peers, other) == list::lookup(
                    s.peers,
                    other,
                ) && list::lookup(after.peer_agent_cache, other) == list::lookup(
                    s.peer_agent_cache,
                    other,
                )
            } else {
                after == s
            }
        }),
{
    lemma_sound_connections(s, peer_id);
    if list::lookup(s.peer_refresh_generations, peer_id) == Some(generation) && list::lookup(
        s.peers,
        peer_id,
    ) is Some {
        let known = list::lookup(s.peers, peer_id)->0;
        let after = peer_agents::refreshed(s, peer_id, generation, observed_at_ms, agents);
        let kept = PeerView {
            status: if agents is Some && no_connection_ails(s.peer_bridges, peer_id) {
                PeerStatus::Connected
            } else {
                PeerStatus::Disconnected
            },
            ..known
        };
        list::lemma_tables_change_one_key(s.peers, peer_id, kept, (other, known));
        let told = match agents {
            Some(agents) => agents,
            None => Seq::empty(),
        };
        list::lemma_tables_change_one_key(s.peer_agent_cache, peer_id, told, (other, told));
    }
}

} // verus!
