//! Which server a request about an agent reaches, and what comes back from there.

use vstd::prelude::*;
use vstd::string::*;

use super::api::agents::{self as api_agents, ResponseResult, ResultView};
use super::list;
use super::peer_agents::{self, LocalTarget, RouteView};
use super::remote_presentations::Refusal;
use super::sorting;
use super::AppView;
use crate::api::schema::agents::{AgentTransportView, AgentView, AttachView};
use crate::api::schema::common::{ErrorBody, Method, Request};
use crate::api::schema::peers::{PeerTransportView, PeerView};
use crate::json::{self, Json};
use crate::text;

verus! {

// ---------------------------------------------------------------------------
// Rows that a filter leaves

proof fn lemma_filter_of_none<W>(s: Seq<W>, p: spec_fn(W) -> bool)
    requires
        forall|i: int| 0 <= i < s.len() ==> !p(#[trigger] s[i]),
    ensures
        s.filter(p).len() == 0,
    decreases s.len(),
{
    reveal(Seq::filter);
    if s.len() > 0 {
        assert forall|i: int| 0 <= i < s.drop_last().len() implies !p(#[trigger] s.drop_last()[i]) by {
            assert(s.drop_last()[i] == s[i]);
        }
        lemma_filter_of_none(s.drop_last(), p);
        assert(!p(s[s.len() - 1]));
    }
}

proof fn lemma_filter_of_one<W>(s: Seq<W>, p: spec_fn(W) -> bool, k: int)
    requires
        0 <= k < s.len(),
        p(s[k]),
        forall|i: int| 0 <= i < s.len() && i != k ==> !p(#[trigger] s[i]),
    ensures
        s.filter(p) == seq![s[k]],
    decreases s.len(),
{
    reveal(Seq::filter);
    let front = s.drop_last();
    if k == s.len() - 1 {
        assert forall|i: int| 0 <= i < front.len() implies !p(#[trigger] front[i]) by {
            assert(front[i] == s[i]);
        }
        lemma_filter_of_none(front, p);
        assert(front.filter(p).push(s.last()) =~= seq![s[k]]);
    } else {
        assert forall|i: int| 0 <= i < front.len() && i != k implies !p(#[trigger] front[i]) by {
            assert(front[i] == s[i]);
        }
        lemma_filter_of_one(front, p, k);
        assert(!p(s[s.len() - 1]));
    }
}

proof fn lemma_filter_of_two<W>(s: Seq<W>, p: spec_fn(W) -> bool, i: int, j: int)
    requires
        0 <= i < j < s.len(),
        p(s[i]),
        p(s[j]),
    ensures
        s.filter(p).len() >= 2,
    decreases s.len(),
{
    reveal(Seq::filter);
    let front = s.drop_last();
    if j < s.len() - 1 {
        lemma_filter_of_two(front, p, i, j);
    } else {
        list::lemma_filter_contains(front, p, s[i]);
        assert(front[i] == s[i]);
        assert(front.filter(p).len() > 0);
    }
}

// ---------------------------------------------------------------------------
// Routes

/// An agent of a peer goes by `target`: its terminal, its pane, its name, what runs in
/// it, or all of it with the peer in front.
pub open spec fn peer_agent_called(a: AgentView, target: Seq<char>) -> bool {
    &&& a.peer is Some
    &&& {
        ||| a.terminal_id == target
        ||| a.pane_id == target
        ||| a.name == Some(target)
        ||| a.agent == Some(target)
        ||| a.qualified_target == Some(target)
    }
}

/// Two colons stand nowhere in `target`.
pub open spec fn names_no_peer(target: Seq<char>) -> bool {
    forall|i: int| 0 <= i < target.len() - 1 ==> !(#[trigger] target[i] == ':' && target[i + 1] == ':')
}

proof fn lemma_names_no_peer(target: Seq<char>)
    requires
        names_no_peer(target),
    ensures
        text::split_first(target, "::"@) is None,
{
    reveal_strlit("::");
    if text::has_substring(target, "::"@) {
        let i = choose|i: int| text::starts_with_at(target, i, "::"@);
        assert(target.subrange(i, i + 2)[0] == ':');
        assert(target.subrange(i, i + 2)[1] == ':');
        assert(target[i] == ':' && target[i + 1] == ':');
    }
}

/// Where no pane here goes by a target and exactly one agent of a peer does, the
/// request goes to that peer, for the terminal of that agent.
pub proof fn lemma_the_one_agent_is_reached(
    s: AppView,
    target: Seq<char>,
    locals: Seq<AgentView>,
    k: int,
    peer_id: Seq<char>,
    peer: PeerView,
)
    requires
        names_no_peer(target),
        0 <= k < peer_agents::agents_everywhere(s, locals).len(),
        peer_agent_called(peer_agents::agents_everywhere(s, locals)[k], target),
        forall|i: int|
            0 <= i < peer_agents::agents_everywhere(s, locals).len() && i != k
                ==> !peer_agent_called(
                #[trigger] peer_agents::agents_everywhere(s, locals)[i],
                target,
            ),
        peer_agents::agents_everywhere(s, locals)[k].peer == Some(peer_id),
        list::lookup(s.peers, peer_id) == Some(peer),
    ensures
        peer_agents::route_of(s, target, LocalTarget::NotFound, locals) == Ok::<
            RouteView,
            Refusal,
        >(
            RouteView::Peer {
                peer,
                target: peer_agents::agents_everywhere(s, locals)[k].terminal_id,
            },
        ),
{
    let all = peer_agents::agents_everywhere(s, locals);
    let p = peer_agents::answers_to(target);
    lemma_names_no_peer(target);
    assert forall|i: int| 0 <= i < all.len() && i != k implies !p(#[trigger] all[i]) by {
        assert(!peer_agent_called(all[i], target));
    }
    lemma_filter_of_one(all, p, k);
}

/// Where no pane here goes by a target, it is answered that there is no such agent
/// exactly if no agent of any peer goes by it, and that several could be meant exactly
/// if more than one does.
pub proof fn lemma_agents_are_missed_only_where_there_is_none(
    s: AppView,
    target: Seq<char>,
    locals: Seq<AgentView>,
)
    requires
        names_no_peer(target),
    ensures
        ({
            let all = peer_agents::agents_everywhere(s, locals);
            let r = peer_agents::route_of(s, target, LocalTarget::NotFound, locals);
            &&& (r is Err && r->Err_0.0 == "agent_not_found"@) <==> (forall|i: int|
                0 <= i < all.len() ==> !peer_agent_called(#[trigger] all[i], target))
            &&& (r is Err && r->Err_0.0 == "agent_target_ambiguous"@) <==> (exists|i: int, j: int|
                0 <= i < j < all.len() && peer_agent_called(#[trigger] all[i], target)
                    && peer_agent_called(#[trigger] all[j], target))
        }),
{
    let all = peer_agents::agents_everywhere(s, locals);
    let p = peer_agents::answers_to(target);
    let r = peer_agents::route_of(s, target, LocalTarget::NotFound, locals);
    lemma_names_no_peer(target);
    reveal_strlit("agent_not_found");
    reveal_strlit("agent_target_ambiguous");
    reveal_strlit("peer_not_found");
    assert("agent_not_found"@.len() != "agent_target_ambiguous"@.len());
    assert("agent_not_found"@.len() != "peer_not_found"@.len());
    assert("agent_target_ambiguous"@.len() != "peer_not_found"@.len());
    assert forall|i: int| 0 <= i < all.len() implies p(#[trigger] all[i]) == peer_agent_called(
        all[i],
        target,
    ) by {}
    if forall|i: int| 0 <= i < all.len() ==> !peer_agent_called(#[trigger] all[i], target) {
        lemma_filter_of_none(all, p);
    } else {
        let k = choose|k: int| 0 <= k < all.len() && peer_agent_called(#[trigger] all[k], target);
        if exists|i: int, j: int|
            0 <= i < j < all.len() && peer_agent_called(#[trigger] all[i], target)
                && peer_agent_called(#[trigger] all[j], target) {
            let (i, j) = choose|i: int, j: int|
                0 <= i < j < all.len() && peer_agent_called(#[trigger] all[i], target)
                    && peer_agent_called(#[trigger] all[j], target);
            lemma_filter_of_two(all, p, i, j);
        } else {
            assert forall|i: int| 0 <= i < all.len() && i != k implies !p(#[trigger] all[i]) by {
                if peer_agent_called(all[i], target) {
                    assert(i < k || k < i);
                }
            }
            lemma_filter_of_one(all, p, k);
        }
    }
}

/// A target with a peer in front, `peer::name`, reaches that peer under the rest of the
/// name, where no pane here goes by it. A peer that is not known is not found, and
/// where nothing follows the colons no agent is.
pub proof fn lemma_qualified_targets_reach_their_peer(
    s: AppView,
    peer_id: Seq<char>,
    name: Seq<char>,
    locals: Seq<AgentView>,
)
    requires
        names_no_peer(peer_id + ":"@),
    ensures
        ({
            let r = peer_agents::route_of(
                s,
                peer_id + "::"@ + name,
                LocalTarget::NotFound,
                locals,
            );
            match list::lookup(s.peers, peer_id) {
                Some(peer) => if name.len() > 0 {
                    r == Ok::<RouteView, Refusal>(RouteView::Peer { peer, target: name })
                } else {
                    r is Err && r->Err_0.0 == "agent_not_found"@
                },
                None => r is Err && r->Err_0.0 == "peer_not_found"@,
            }
        }),
{
    let target = peer_id + "::"@ + name;
    let n = peer_id.len() as int;
    reveal_strlit("::");
    reveal_strlit(":");
    assert(target.subrange(n, n + 2) =~= "::"@);
    assert(text::starts_with_at(target, n, "::"@));
    assert forall|j: int| 0 <= j < n implies !#[trigger] text::starts_with_at(target, j, "::"@) by {
        if text::starts_with_at(target, j, "::"@) {
            assert(target.subrange(j, j + 2)[0] == ':');
            assert(target.subrange(j, j + 2)[1] == ':');
            let front = peer_id + ":"@;
            assert(front[j] == target[j]);
            assert(front[j + 1] == target[j + 1]);
            assert(!(front[j] == ':' && front[j + 1] == ':'));
        }
    }
    assert(text::first_occurrence(target, "::"@, n));
    text::lemma_split_first(target, "::"@, n);
    assert(target.subrange(0, n) =~= peer_id);
    assert(target.subrange(n + 2, target.len() as int) =~= name);
}

/// A pane that was found here, or the answer that several could be meant, is not looked
/// for at any peer.
pub proof fn lemma_peers_are_asked_last(
    s: AppView,
    target: Seq<char>,
    local: LocalTarget,
    locals: Seq<AgentView>,
)
    ensures
        local matches LocalTarget::Found(t) ==> peer_agents::route_of(s, target, local, locals)
            == Ok::<RouteView, Refusal>(RouteView::Local(t)),
        local matches LocalTarget::Ambiguous(e) ==> peer_agents::route_of(s, target, local, locals)
            == Err::<RouteView, Refusal>((e.code@, e.message@)),
        peer_agents::route_of(s, target, local, locals) matches Ok(RouteView::Local(t)) ==> (local
            matches LocalTarget::Found(u) && u == t),
{
}

// ---------------------------------------------------------------------------
// The agents that are listed

/// The agent of a peer is not listed: it is presented by way of this server, or stands
/// for an agent here, or an agent here stands for it.
pub open spec fn known_here(s: AppView, locals: Seq<AgentView>, a: AgentView) -> bool {
    ||| a.presentation is Some && (a.presentation->0).route.contains(s.local_peer_id)
    ||| exists|i: int|
        0 <= i < locals.len() && ((#[trigger] locals[i]).transport matches Some(
            AgentTransportView::Ssh { remote_terminal_id, .. },
        ) && remote_terminal_id == a.terminal_id)
    ||| exists|i: int|
        0 <= i < locals.len() && a.mirror_of_terminal_id == Some((#[trigger] locals[i]).terminal_id)
    ||| exists|i: int|
        0 <= i < locals.len() && (a.transport matches Some(
            AgentTransportView::Ssh { remote_terminal_id, .. },
        ) && remote_terminal_id == (#[trigger] locals[i]).terminal_id)
}

/// `shown` is the agent `a` of `peer`, as this server tells of it: the same agent, that
/// peer's, attached to the way that the peer is reached, and nothing that is private to
/// the peer.
pub open spec fn is_agent_of(shown: AgentView, a: AgentView, peer: PeerView) -> bool {
    &&& shown.terminal_id == a.terminal_id && shown.pane_id == a.pane_id
    &&& shown.workspace_id == a.workspace_id && shown.tab_id == a.tab_id
    &&& shown.name == a.name && shown.agent == a.agent && shown.title == a.title
    &&& shown.display_agent == a.display_agent && shown.agent_status == a.agent_status
    &&& shown.custom_status == a.custom_status && shown.state_labels == a.state_labels
    &&& shown.presentation == a.presentation && shown.focused == a.focused
    &&& shown.revision == a.revision
    &&& shown.screen_detection_skipped == a.screen_detection_skipped
    &&& shown.peer == Some(peer.id)
    &&& a.name is Some ==> shown.qualified_target == Some(peer.id + "::"@ + a.name->0)
    &&& a.name is None && a.agent is Some ==> shown.qualified_target == Some(
        peer.id + "::"@ + a.agent->0,
    )
    &&& a.name is None && a.agent is None ==> shown.qualified_target == Some(
        peer.id + "::"@ + a.terminal_id,
    )
    &&& shown.transport is None && shown.agent_session is None && shown.cwd is None
    &&& shown.foreground_cwd is None && shown.mirror_of_terminal_id is None
    &&& peer.transport is ApiSocket ==> shown.attach is None
    &&& peer.transport matches PeerTransportView::Ssh {
        target,
        ssh_args,
        managed_control_path,
        session,
    } ==> shown.attach == Some(
        AttachView::Ssh {
            target,
            ssh_args,
            managed_control_path,
            session,
            terminal_id: a.terminal_id,
            delegation: None,
        },
    )
}

proof fn lemma_mirrored(locals: Seq<AgentView>, t: Seq<char>)
    ensures
        peer_agents::mirrored_terminals(locals).contains(t) <==> exists|i: int|
            0 <= i < locals.len() && ((#[trigger] locals[i]).transport matches Some(
                AgentTransportView::Ssh { remote_terminal_id, .. },
            ) && remote_terminal_id == t),
    decreases locals.len(),
{
    if locals.len() > 0 {
        let front = locals.drop_last();
        let found = peer_agents::mirrored_terminals(front);
        lemma_mirrored(front, t);
        if found.contains(t) {
            let i = choose|i: int|
                0 <= i < front.len() && ((#[trigger] front[i]).transport matches Some(
                    AgentTransportView::Ssh { remote_terminal_id, .. },
                ) && remote_terminal_id == t);
            assert(locals[i] == front[i]);
        }
        if exists|i: int|
            0 <= i < locals.len() && ((#[trigger] locals[i]).transport matches Some(
                AgentTransportView::Ssh { remote_terminal_id, .. },
            ) && remote_terminal_id == t) {
            let i = choose|i: int|
                0 <= i < locals.len() && ((#[trigger] locals[i]).transport matches Some(
                    AgentTransportView::Ssh { remote_terminal_id, .. },
                ) && remote_terminal_id == t);
            if i < front.len() {
                assert(front[i] == locals[i]);
            }
        }
        match locals.last().transport {
            Some(AgentTransportView::Ssh { remote_terminal_id, .. }) => {
                let all = found.push(remote_terminal_id);
                assert(all[found.len() as int] == remote_terminal_id);
                if found.contains(t) {
                    assert(all[found.index_of(t)] == t);
                }
                if all.contains(t) {
                    let i = all.index_of(t);
                    if i < found.len() {
                        assert(found[i] == t);
                    } else {
                        assert(locals[locals.len() - 1] == locals.last());
                    }
                }
            },
            None => {
                assert(locals[locals.len() - 1] == locals.last());
            },
        }
    }
}

proof fn lemma_known_here(s: AppView, locals: Seq<AgentView>, a: AgentView)
    ensures
        known_here(s, locals, a) == (peer_agents::passes(a, s.local_peer_id)
            || peer_agents::duplicates(
            a,
            peer_agents::local_terminals(locals),
            peer_agents::mirrored_terminals(locals),
        )),
{
    let terminals = peer_agents::local_terminals(locals);
    lemma_mirrored(locals, a.terminal_id);
    match a.mirror_of_terminal_id {
        Some(t) => lemma_local_terminal(locals, t),
        None => {},
    }
    match a.transport {
        Some(AgentTransportView::Ssh { remote_terminal_id, .. }) => {
            lemma_local_terminal(locals, remote_terminal_id)
        },
        None => {},
    }
}

proof fn lemma_local_terminal(locals: Seq<AgentView>, t: Seq<char>)
    ensures
        peer_agents::local_terminals(locals).contains(t) <==> exists|i: int|
            0 <= i < locals.len() && (#[trigger] locals[i]).terminal_id == t,
{
    let terminals = peer_agents::local_terminals(locals);
    if terminals.contains(t) {
        let i = terminals.index_of(t);
        assert(locals[i].terminal_id == t);
    }
    if exists|i: int| 0 <= i < locals.len() && (#[trigger] locals[i]).terminal_id == t {
        let i = choose|i: int| 0 <= i < locals.len() && (#[trigger] locals[i]).terminal_id == t;
        assert(terminals[i] == t);
    }
}

proof fn lemma_shown(
    s: AppView,
    peer: PeerView,
    agents: Seq<AgentView>,
    locals: Seq<AgentView>,
)
    ensures
        forall|i: int|
            0 <= i < agents.len() && !known_here(s, locals, #[trigger] agents[i]) ==> exists|k: int|
                0 <= k < peer_agents::shown(s, peer, agents, locals).len() && is_agent_of(
                    #[trigger] peer_agents::shown(s, peer, agents, locals)[k],
                    agents[i],
                    peer,
                ),
        forall|k: int|
            0 <= k < peer_agents::shown(s, peer, agents, locals).len() ==> exists|i: int|
                0 <= i < agents.len() && !known_here(s, locals, #[trigger] agents[i])
                    && is_agent_of(
                    #[trigger] peer_agents::shown(s, peer, agents, locals)[k],
                    agents[i],
                    peer,
                ),
    decreases agents.len(),
{
    if agents.len() > 0 {
        let front = agents.drop_last();
        let before = peer_agents::shown(s, peer, front, locals);
        let all = peer_agents::shown(s, peer, agents, locals);
        let last = agents.last();
        lemma_shown(s, peer, front, locals);
        lemma_known_here(s, locals, last);
        assert(agents[agents.len() - 1] == last);
        assert forall|i: int|
            0 <= i < agents.len() && !known_here(s, locals, #[trigger] agents[i]) implies exists|
            k: int,
        |
            0 <= k < all.len() && is_agent_of(#[trigger] all[k], agents[i], peer) by {
            if i < front.len() {
                assert(front[i] == agents[i]);
                let k = choose|k: int|
                    0 <= k < before.len() && is_agent_of(#[trigger] before[k], front[i], peer);
                assert(all[k] == before[k]);
            } else {
                assert(is_agent_of(all[before.len() as int], last, peer));
            }
        }
        assert forall|k: int| 0 <= k < all.len() implies exists|i: int|
            0 <= i < agents.len() && !known_here(s, locals, #[trigger] agents[i]) && is_agent_of(
                #[trigger] all[k],
                agents[i],
                peer,
            ) by {
            if k < before.len() {
                assert(all[k] == before[k]);
                let i = choose|i: int|
                    0 <= i < front.len() && !known_here(s, locals, #[trigger] front[i])
                        && is_agent_of(before[k], front[i], peer);
                assert(agents[i] == front[i]);
            } else {
                assert(is_agent_of(all[k], agents[agents.len() - 1], peer));
            }
        }
    }
}

proof fn lemma_shown_of_one(
    s: AppView,
    ids: Seq<Seq<char>>,
    locals: Seq<AgentView>,
    n: int,
    k: int,
)
    requires
        0 <= n < ids.len(),
        0 <= k < peer_agents::shown_of(s, ids[n], locals).len(),
    ensures
        peer_agents::shown_of_all(s, ids, locals).contains(
            peer_agents::shown_of(s, ids[n], locals)[k],
        ),
    decreases ids.len(),
{
    let front = ids.drop_last();
    let before = peer_agents::shown_of_all(s, front, locals);
    let all = peer_agents::shown_of_all(s, ids, locals);
    let x = peer_agents::shown_of(s, ids[n], locals)[k];
    if n < front.len() {
        lemma_shown_of_one(s, front, locals, n, k);
        assert(all[before.index_of(x)] == x);
    } else {
        assert(all[before.len() + k] == x);
    }
}

proof fn lemma_shown_of_some(s: AppView, ids: Seq<Seq<char>>, locals: Seq<AgentView>, i: int) -> (r: (
    int,
    int,
))
    requires
        0 <= i < peer_agents::shown_of_all(s, ids, locals).len(),
    ensures
        0 <= r.0 < ids.len(),
        0 <= r.1 < peer_agents::shown_of(s, ids[r.0], locals).len(),
        peer_agents::shown_of_all(s, ids, locals)[i] == peer_agents::shown_of(
            s,
            ids[r.0],
            locals,
        )[r.1],
    decreases ids.len(),
{
    let front = ids.drop_last();
    let before = peer_agents::shown_of_all(s, front, locals);
    if i < before.len() {
        lemma_shown_of_some(s, front, locals, i)
    } else {
        (ids.len() - 1, i - before.len())
    }
}

/// The agent is one that a registered peer last reported.
pub open spec fn reported_by(s: AppView, peer_id: Seq<char>, peer: PeerView, a: AgentView) -> bool {
    &&& list::lookup(s.peers, peer_id) == Some(peer)
    &&& list::lookup(s.peer_agent_cache, peer_id) is Some
    &&& (list::lookup(s.peer_agent_cache, peer_id)->0).contains(a)
}

/// The list of agents everywhere begins with the agents here.
pub proof fn lemma_agents_here_are_listed(s: AppView, locals: Seq<AgentView>, i: int)
    requires
        0 <= i < locals.len(),
    ensures
        peer_agents::agents_everywhere(s, locals).len() >= locals.len(),
        peer_agents::agents_everywhere(s, locals)[i] == locals[i],
{
}

/// Each agent that a registered peer reported, and that is not known here, is listed
/// after the agents here.
pub proof fn lemma_agents_of_peers_are_listed(
    s: AppView,
    locals: Seq<AgentView>,
    peer_id: Seq<char>,
    peer: PeerView,
    a: AgentView,
)
    requires
        reported_by(s, peer_id, peer, a),
        !known_here(s, locals, a),
    ensures
        exists|i: int|
            locals.len() <= i < peer_agents::agents_everywhere(s, locals).len() && is_agent_of(
                #[trigger] peer_agents::agents_everywhere(s, locals)[i],
                a,
                peer,
            ),
{
    let keys = list::keys_of(s.peer_agent_cache);
    let ids = sorting::ordered(keys);
    let more = peer_agents::shown_of_all(s, ids, locals);
    let agents = list::lookup(s.peer_agent_cache, peer_id)->0;
    lemma_shown(s, peer, agents, locals);
    let j = agents.index_of(a);
    assert(agents[j] == a);
    let found = peer_agents::shown(s, peer, agents, locals);
    let k = choose|k: int| 0 <= k < found.len() && is_agent_of(#[trigger] found[k], a, peer);
    list::lemma_key_present(s.peer_agent_cache, peer_id);
    sorting::lemma_ordered_keeps(keys, peer_id);
    let n = ids.index_of(peer_id);
    lemma_shown_of_one(s, ids, locals, n, k);
    let i = more.index_of(found[k]);
    assert(peer_agents::agents_everywhere(s, locals)[locals.len() + i] == found[k]);
}

/// What is listed after the agents here are agents that a registered peer reported and
/// that are not known here.
pub proof fn lemma_no_other_agents_are_listed(s: AppView, locals: Seq<AgentView>, i: int) -> (r: (
    Seq<char>,
    PeerView,
    AgentView,
))
    requires
        locals.len() <= i < peer_agents::agents_everywhere(s, locals).len(),
    ensures
        reported_by(s, r.0, r.1, r.2),
        !known_here(s, locals, r.2),
        is_agent_of(peer_agents::agents_everywhere(s, locals)[i], r.2, r.1),
{
    let ids = sorting::ordered(list::keys_of(s.peer_agent_cache));
    let more = peer_agents::shown_of_all(s, ids, locals);
    let (n, k) = lemma_shown_of_some(s, ids, locals, i - locals.len());
    let peer_id = ids[n];
    let peer = list::lookup(s.peers, peer_id)->0;
    let agents = list::lookup(s.peer_agent_cache, peer_id)->0;
    let found = peer_agents::shown(s, peer, agents, locals);
    lemma_shown(s, peer, agents, locals);
    let j = choose|j: int|
        0 <= j < agents.len() && !known_here(s, locals, #[trigger] agents[j]) && is_agent_of(
            found[k],
            agents[j],
            peer,
        );
    assert(agents.contains(agents[j]));
    (peer_id, peer, agents[j])
}

// ---------------------------------------------------------------------------
// What is asked there, and what comes back

/// A request that goes to a peer asks there what was asked here, of the agent as the
/// peer knows it.
pub proof fn lemma_forwarded_requests_ask_the_same(
    r: Request,
    method: Method,
    s: AppView,
    target: Seq<char>,
)
    requires
        api_agents::asks_peer(r, method, s, target),
    ensures
        match method {
            Method::AgentGet(_) => r.method matches Method::PeerAgentGet(q) && q.target@ == target,
            Method::AgentExplain(_) => r.method matches Method::PeerAgentExplain(q) && q.target@
                == target,
            Method::AgentRename(p) => r.method matches Method::PeerAgentRename(q) && q.target@
                == target && q.name == p.name,
            Method::AgentRead(p) => r.method matches Method::PeerAgentRead(q) && q.target@
                == target && q.source == p.source && q.lines == p.lines && q.format == p.format
                && q.strip_ansi == p.strip_ansi,
            Method::AgentSend(p) => r.method matches Method::PeerAgentSend(q) && q.target@
                == target && q.text == p.text,
            Method::AgentStart(p) => r.method matches Method::PeerAgentStart(q) && q.peer is None
                && q.name == p.name && q.agent == p.agent && q.cwd == p.cwd && q.workspace_id
                == p.workspace_id && q.tab_id == p.tab_id && q.split == p.split && q.focus
                == p.focus && q.argv == p.argv && q.env == p.env && q.transport == p.transport,
            Method::AgentAttachPrepare(p) => r.method matches Method::TerminalDelegateClaim(q)
                && q.target@ == target && q.takeover == p.takeover && !q.terminate_on_expire,
            _ => false,
        },
{
}

/// A request about an agent is let through to a peer exactly where its target leads
/// there, and goes to that peer under the name that the target leads to.
pub proof fn lemma_requests_go_where_their_target_leads(
    s: AppView,
    method: Method,
    target: Seq<char>,
    local: LocalTarget,
    locals: Seq<AgentView>,
    peer: PeerView,
    name: Seq<char>,
)
    requires
        match method {
            Method::AgentGet(t) => t.target@ == target,
            Method::AgentExplain(t) => t.target@ == target,
            Method::AgentRename(p) => p.target@ == target,
            Method::AgentRead(p) => p.target@ == target,
            Method::AgentSend(p) => p.target@ == target,
            Method::AgentAttachPrepare(p) => p.target@ == target,
            _ => false,
        },
    ensures
        peer_agents::route_of(s, target, local, locals) == Ok::<RouteView, Refusal>(
            RouteView::Peer { peer, target: name },
        ) <==> api_agents::deferred_to(s, method, local, locals) == Ok::<
            (PeerView, Seq<char>),
            Refusal,
        >((peer, name)),
        peer_agents::route_of(s, target, local, locals) matches Err(e) ==> (
        api_agents::deferred_to(s, method, local, locals) matches Err(f) && f == e),
        api_agents::goes_to_peer(s, method, local, locals) <==> (api_agents::deferred_to(
            s,
            method,
            local,
            locals,
        ) is Ok),
{
}

/// An agent is started at the peer that is named, where that is registered and no focus
/// is asked for.
pub proof fn lemma_agents_start_at_the_named_peer(
    s: AppView,
    method: Method,
    local: LocalTarget,
    locals: Seq<AgentView>,
    peer_id: Seq<char>,
)
    requires
        method matches Method::AgentStart(p) && (p.peer matches Some(id) && id@ == peer_id),
    ensures
        api_agents::goes_to_peer(s, method, local, locals),
        ({
            let p = method->AgentStart_0;
            let r = api_agents::deferred_to(s, method, local, locals);
            match list::lookup(s.peers, peer_id) {
                Some(peer) => if p.focus {
                    r is Err && r->Err_0.0 == "peer_agent_focus_unsupported"@
                } else {
                    r == Ok::<(PeerView, Seq<char>), Refusal>((peer, p.name@))
                },
                None => r is Err && r->Err_0.0 == "peer_not_found"@,
            }
        }),
{
}

/// A client is told what the peer answered: its error where it answered one, and the
/// agent, the text or the outcome that was asked for. An answer to another question is
/// not passed on, and a peer that was not reached is said to be that. None of these
/// changes anything here.
pub proof fn lemma_answers_of_peers_are_passed_on(
    s: AppView,
    peer: PeerView,
    asked: Method,
    owner: Option<Seq<char>>,
    result: Result<Json, String>,
    error: Result<ErrorBody, String>,
    success: Result<ResponseResult, String>,
)
    ensures
        ({
            let (after, r) = api_agents::peer_answered(
                s,
                peer,
                asked,
                owner,
                result,
                error,
                success,
            );
            &&& result matches Err(m) ==> r == Err::<ResultView, Refusal>(
                ("peer_unreachable"@, m@),
            ) && after == s
            &&& result is Ok && json::has(result->Ok_0, "error"@) ==> r is Err && after == s && (
            error is Ok ==> r == Err::<ResultView, Refusal>(
                ((error->Ok_0).code@, (error->Ok_0).message@),
            ))
            &&& r is Ok ==> result is Ok && !json::has(result->Ok_0, "error"@) && success is Ok
            &&& result is Ok && !json::has(result->Ok_0, "error"@) && success is Ok ==> match (
                asked,
                (success->Ok_0)@,
            ) {
                (Method::PeerAgentGet(_), ResultView::AgentInfo { agent })
                | (Method::PeerAgentRename(_), ResultView::AgentInfo { agent }) => after == s && (
                r matches Ok(ResultView::AgentInfo { agent: told }) && is_agent_of(
                    told,
                    agent,
                    peer,
                )),
                (
                    Method::PeerAgentStart(_),
                    ResultView::AgentStarted { agent, argv },
                ) => after == s && (r matches Ok(
                    ResultView::AgentStarted { agent: told, argv: run },
                ) && is_agent_of(told, agent, peer) && run == argv),
                (Method::PeerAgentRead(_), ResultView::PaneRead { read }) => after == s && r == Ok::<
                    ResultView,
                    Refusal,
                >(ResultView::PaneRead { read }),
                (Method::PeerAgentExplain(_), ResultView::AgentExplain { explain }) => after == s
                    && r == Ok::<ResultView, Refusal>(ResultView::AgentExplain { explain }),
                (Method::PeerAgentSend(_), ResultView::Done { .. }) => after == s && r == Ok::<
                    ResultView,
                    Refusal,
                >((success->Ok_0)@),
                (
                    Method::TerminalDelegateClaim(_),
                    ResultView::TerminalDelegation { delegation },
                ) => r is Ok ==> (r matches Ok(
                    ResultView::AgentAttachPrepared { attach, delegation: Some(d) },
                ) && d == delegation && (peer.transport matches PeerTransportView::Ssh {
                    target,
                    ssh_args,
                    managed_control_path,
                    session,
                } && attach == (AttachView::Ssh {
                    target,
                    ssh_args,
                    managed_control_path,
                    session,
                    terminal_id: delegation.terminal_id,
                    delegation: Some((delegation.delegation_id, delegation.epoch)),
                }))),
                _ => r is Err && r->Err_0.0 == "peer_response_invalid"@ && after == s,
            }
        }),
{
}

} // verus!
