use herdr::api::schema::agents::{
    AgentAttachInfo, AgentInfo, AgentPresentationInfo, AgentSessionInfo, AgentSessionRefKind,
    AgentTransportInfo,
};
use herdr::api::schema::common::{AgentStatus, AgentTarget, ErrorBody, Method, Request};
use herdr::api::schema::peers::{
    PeerConnectSshParams, PeerInfo, PeerKeepaliveSshParams, PeerRegisterParams, PeerStatus,
    PeerTarget, PeerTransportInfo, TerminalDelegationClaim, TerminalDelegationInfo,
    TerminalDelegationStatus, TerminalPresentationOwner,
};
use herdr::app::api::agents::ResponseResult;
use herdr::app::api::local_agents::handle_peer_agent_list;

use herdr::app::api::peers::valid_peer_id;
use herdr::app::list::List;
use herdr::app::owners::{ssh_shell_transport, INCOMING_PEER_LEASE_MS, REMOTE_OWNER_LEASE_MS};
use herdr::app::peer_agents::{
    after_failed_try, agent_matches_target, annotate_peer_agent, is_transient_peer_socket_error,
    peer_agent_get, peer_agent_list_request, project_peer_agent_metadata, AgentRoute, LocalTarget,
    SocketFailure,
};
use herdr::app::remote_presentations::TerminalTarget;
use herdr::app::{
    App, BridgeRef, Effect, Pane, PeerBridge, PendingOwnerActivation, Tab, Terminal, Workspace,
};
use herdr::json::Json;

const NOW: u64 = 10_000_000;

const PANE: u64 = 11;

fn agent(terminal_id: &str) -> AgentInfo {
    AgentInfo {
        terminal_id: terminal_id.into(),
        peer: None,
        qualified_target: None,
        presentation: None,
        name: Some("peer-mirror".into()),
        agent: None,
        title: None,
        display_agent: None,
        agent_status: AgentStatus::Working,
        screen_detection_skipped: false,
        custom_status: None,
        state_labels: vec![],
        agent_session: None,
        transport: None,
        mirror_of_terminal_id: None,
        attach: None,
        workspace_id: "peer-workspace".into(),
        tab_id: "peer-tab".into(),
        pane_id: "peer-pane".into(),
        focused: false,
        cwd: None,
        foreground_cwd: None,
        revision: 4,
    }
}

fn local_agent(name: &str) -> AgentInfo {
    AgentInfo { name: Some(name.into()), ..agent("term_1") }
}

fn one(agent: AgentInfo) -> List<AgentInfo> {
    let mut list = List::new();
    list.push(agent);
    list
}

fn transport_to(remote_terminal_id: &str) -> AgentTransportInfo {
    AgentTransportInfo::Ssh {
        target: "remote.example".into(),
        ssh_args: vec![],
        managed_control_path: None,
        session: None,
        remote_terminal_id: remote_terminal_id.into(),
        remote_pane_id: "remote-pane".into(),
        remote_agent: Some("codex".into()),
        remote_cwd: Some("/remote/worktree".into()),
    }
}

fn api_socket_peer(id: &str, api_socket: &str) -> PeerInfo {
    PeerInfo {
        id: id.into(),
        label: id.into(),
        status: PeerStatus::Connected,
        transport: PeerTransportInfo::ApiSocket { api_socket: api_socket.into() },
    }
}

fn ssh_peer(id: &str) -> PeerInfo {
    PeerInfo {
        id: id.into(),
        label: id.into(),
        status: PeerStatus::Connected,
        transport: PeerTransportInfo::Ssh {
            target: id.into(),
            ssh_args: vec![],
            managed_control_path: None,
            session: None,
        },
    }
}

fn app_with_peer() -> App {
    let mut app = App::new("local-host".into(), true);
    app.peers.insert("peer".into(), api_socket_peer("peer", "/tmp/peer.sock"));
    app
}

fn app_with_owner() -> (App, String) {
    let mut app = App::new("local-host".into(), true);
    app.terminals.insert(
        "term_1".into(),
        Terminal {
            cwd: "/work".into(),
            foreground_cwd: None,
            agent_name: None,
            agent_label: None,
            manual_label: None,
            is_agent: false,
            has_launch_argv: false,
            remote_agent_transport: None,
            title: None,
            display_agent: None,
            custom_status: None,
            state_labels: vec![],
            seen_status: AgentStatus::Idle,
            unseen_status: AgentStatus::Idle,
            hook_authority: false,
            agent_session: None,
            revision: 0,
        },
    );
    app.runtimes.insert("term_1".into(), ());
    let mut tabs = List::new();
    tabs.push(Tab { public_tab_id: Some("w1:t1".into()), label: None, focused: PANE });
    let mut panes = List::new();
    panes.push(Pane {
        pane_id: PANE,
        terminal_id: "term_1".into(),
        public_pane_id: Some("w1:p1".into()),
        tab: 0,
        seen: true,
    });
    app.workspaces.push(Workspace {
        id: "w1".into(),
        cwd: "/work".into(),
        tabs,
        active_tab: 0,
        panes,
        focused: Some(PANE),
    });
    (app, "term_1".into())
}

fn bridge(peer_id: &str, connection_id: &str) -> PeerBridge {
    PeerBridge {
        connection_id: connection_id.into(),
        peer: ssh_peer(peer_id),
        remote_peer_id: Some("local-host".into()),
        healthy: true,
    }
}

fn connected(app: &App, peer_id: &str, connection_id: &str) -> bool {
    app.is_connected(peer_id, connection_id)
}

fn owner_delegation(id: &str, status: TerminalDelegationStatus) -> TerminalDelegationInfo {
    TerminalDelegationInfo {
        delegation_id: id.into(),
        epoch: 1,
        terminal_id: "remote-terminal".into(),
        pane_id: "remote-pane".into(),
        origin_peer_id: "remote".into(),
        owner: TerminalPresentationOwner {
            peer_id: "owner".into(),
            pane_id: "owner-pane".into(),
            route: vec!["owner".into(), "remote".into()],
        },
        status,
    }
}

fn waiting(id: &str, connection_id: &str, release: bool) -> PendingOwnerActivation {
    PendingOwnerActivation {
        terminal_id: "term_1".into(),
        bridge: BridgeRef { peer_id: "remote".into(), connection_id: connection_id.into() },
        peer: ssh_peer("remote"),
        delegation: owner_delegation(id, TerminalDelegationStatus::Pending),
        release_bridge_on_owner_close: release,
    }
}

fn cancels_activation(app: &App, id: &str) -> bool {
    app.effects
        .rows
        .iter()
        .any(|effect| matches!(effect, Effect::CancelActivation(cancelled) if cancelled == id))
}

#[test]
fn peer_refresh_keeps_transport_until_remote_mirror_deduplication() {
    let mut app = app_with_peer();
    let mut peer_agent = agent("peer-mirror-terminal");
    peer_agent.transport = Some(transport_to("term_1"));
    app.peer_refresh_generations.insert("peer".into(), 7);

    app.apply_peer_refresh("peer", 7, NOW, Ok(one(peer_agent)));

    assert!(app.peer_agent_cache.get("peer").unwrap().agents.at(0).transport.is_some());
    let agents = app.collect_agent_infos_with_peers(one(local_agent("local-agent")), true);
    assert_eq!(agents.len(), 1);
    assert_eq!(agents.at(0).terminal_id, "term_1");
}

#[test]
fn peer_refresh_deduplicates_a_projected_remote_mirror_hint() {
    let mut app = app_with_peer();
    let mut peer_agent = agent("origin-mirror-terminal");
    peer_agent.mirror_of_terminal_id = Some("term_1".into());
    app.peer_refresh_generations.insert("peer".into(), 8);

    app.apply_peer_refresh("peer", 8, NOW, Ok(one(peer_agent)));

    let agents = app.collect_agent_infos_with_peers(one(local_agent("native-agent")), true);
    assert_eq!(agents.len(), 1);
    assert_eq!(agents.at(0).terminal_id, "term_1");
}

#[test]
fn projected_mirror_hint_is_not_exposed_after_peer_annotation() {
    let mut app = app_with_peer();
    let mut peer_agent = agent("origin-mirror-terminal");
    peer_agent.mirror_of_terminal_id = Some("third-party-terminal".into());
    app.peer_refresh_generations.insert("peer".into(), 9);

    app.apply_peer_refresh("peer", 9, NOW, Ok(one(peer_agent)));

    let agents = app.collect_agent_infos_with_peers(List::new(), true);
    assert_eq!(agents.len(), 1);
    assert_eq!(agents.at(0).peer.as_deref(), Some("peer"));
    assert!(agents.at(0).mirror_of_terminal_id.is_none());
}

#[test]
fn peer_projection_is_hidden_from_every_machine_on_its_owner_route() {
    let mut app = app_with_peer();
    let presented = |terminal: &str, route: &[&str]| {
        let mut shown = agent(terminal);
        shown.presentation = Some(AgentPresentationInfo {
            origin_peer_id: "host-c".into(),
            owner_peer_id: "owner-a".into(),
            route: route.iter().map(|host| (*host).to_string()).collect(),
        });
        shown
    };
    app.peer_refresh_generations.insert("peer".into(), 10);
    let routed = presented("routed-terminal", &["owner-a", "local-host", "host-c"]);
    app.apply_peer_refresh("peer", 10, NOW, Ok(one(routed)));

    assert!(app.collect_agent_infos_with_peers(List::new(), true).is_empty());

    let unrelated = presented("unrelated-terminal", &["owner-a", "host-c"]);
    app.apply_peer_refresh("peer", 10, NOW, Ok(one(unrelated)));

    assert_eq!(app.collect_agent_infos_with_peers(List::new(), true).len(), 1);
    assert!(app.collect_agent_infos_with_peers(List::new(), false).is_empty());
}

fn here() -> TerminalTarget {
    TerminalTarget { ws_idx: 0, tab_idx: 0, pane_id: PANE }
}

#[test]
fn exact_local_name_with_peer_separator_takes_precedence() {
    let app = app_with_peer();
    let route = app
        .resolve_agent_route(
            "peer::worker",
            LocalTarget::Found(here()),
            one(local_agent("peer::worker")),
        )
        .unwrap_or_else(|_| panic!("a local agent of that name"));
    let AgentRoute::Local(resolved) = route else {
        panic!("expected exact local agent name to resolve locally");
    };
    assert_eq!(resolved.pane_id, PANE);
}

#[test]
fn known_peer_qualification_still_routes_to_peer() {
    let app = app_with_peer();
    let route = app
        .resolve_agent_route("peer::worker", LocalTarget::NotFound, List::new())
        .unwrap_or_else(|_| panic!("the peer is known"));
    let AgentRoute::Peer { peer, target } = route else {
        panic!("expected qualified peer route");
    };
    assert_eq!(peer.id, "peer");
    assert_eq!(target, "worker");
}

#[test]
fn ssh_shell_transport_keeps_remote_terminal_and_pane_ids_distinct() {
    let peer = ssh_peer("remote");
    let delegation = TerminalDelegationInfo {
        delegation_id: "delegation".into(),
        epoch: 1,
        terminal_id: "term_remote".into(),
        pane_id: "w2:p3".into(),
        origin_peer_id: "remote".into(),
        owner: TerminalPresentationOwner {
            peer_id: "owner".into(),
            pane_id: "w1:p1".into(),
            route: vec!["owner".into(), "remote".into()],
        },
        status: TerminalDelegationStatus::Active,
    };

    let transport = ssh_shell_transport(&peer, &delegation).unwrap();
    let AgentTransportInfo::Ssh { remote_terminal_id, remote_pane_id, .. } = transport;

    assert_eq!(remote_terminal_id, "term_remote");
    assert_eq!(remote_pane_id, "w2:p3");
}

#[test]
fn peer_agent_owner_cleanup_preserves_the_shared_peer_bridge() {
    let (mut app, terminal_id) = app_with_owner();
    app.peer_bridges.push(("remote".into(), bridge("remote", "shared-connection")));
    let mut activation = waiting("delegation", "shared-connection", false);
    activation.delegation.status = TerminalDelegationStatus::Active;
    app.pending_owner_activations.insert("delegation".into(), activation);

    app.handle_peer_presentation_activate(
        &TerminalDelegationClaim { delegation_id: "delegation".into(), epoch: 1 },
        NOW,
    )
    .unwrap();

    assert!(!app.ssh_shell_bridges.contains(&terminal_id));
    assert!(app.remote_owner_deadlines.contains(&terminal_id));
    assert!(app.remote_owner_presentations.contains(&terminal_id));
    assert!(app.expire_remote_owner_leases(NOW + REMOTE_OWNER_LEASE_MS + 1));
    assert!(app
        .effects
        .rows
        .iter()
        .any(|effect| matches!(effect, Effect::PaneDied(pane) if *pane == PANE)));
    assert!(!app.terminals.contains(&terminal_id));
    assert!(connected(&app, "remote", "shared-connection"));
}

#[test]
fn owner_teardown_releases_a_pending_direct_ssh_bridge() {
    let (mut app, terminal_id) = app_with_owner();
    app.peer_bridges.push(("remote".into(), bridge("remote", "direct-connection")));
    app.peers.insert("remote".into(), ssh_peer("remote"));
    app.pending_owner_activations
        .insert("pending-direct".into(), waiting("pending-direct", "direct-connection", true));

    app.release_remote_terminal_bridge(&terminal_id, NOW);

    assert!(app.pending_owner_activations.is_empty());
    assert!(cancels_activation(&app, "pending-direct"));
    assert!(!app.peer_bridges.contains("remote"));
    assert!(!app.peers.contains("remote"));
}

#[test]
fn owner_teardown_preserves_a_pending_shared_peer_bridge() {
    let (mut app, terminal_id) = app_with_owner();
    app.peer_bridges.push(("remote".into(), bridge("remote", "shared-connection")));
    app.peers.insert("remote".into(), ssh_peer("remote"));
    app.pending_owner_activations
        .insert("pending-shared".into(), waiting("pending-shared", "shared-connection", false));

    app.release_remote_terminal_bridge(&terminal_id, NOW);

    assert!(app.pending_owner_activations.is_empty());
    assert!(cancels_activation(&app, "pending-shared"));
    assert!(connected(&app, "remote", "shared-connection"));
    assert!(app.peers.contains("remote"));
}

#[test]
fn releasing_one_same_peer_bridge_preserves_the_surviving_registration() {
    let mut app = App::new("local-host".into(), true);
    app.peer_bridges.push(("remote".into(), bridge("remote", "surviving-connection")));
    app.peer_bridges.push(("remote".into(), bridge("remote", "removed-connection")));
    app.peers.insert("remote".into(), ssh_peer("remote"));

    app.release_peer_bridge("remote", "removed-connection", NOW);

    assert!(connected(&app, "remote", "surviving-connection"));
    assert!(!connected(&app, "remote", "removed-connection"));
    assert!(app.peers.contains("remote"));
}

#[test]
fn cancelling_an_uncommitted_same_peer_bridge_restores_the_survivor() {
    let mut app = App::new("local-host".into(), true);
    app.peer_bridges.push(("remote".into(), bridge("remote", "surviving-connection")));
    app.peers.insert("remote".into(), ssh_peer("remote"));

    app.stop_uncommitted_peer_bridge("remote", "uncommitted-connection".into());

    assert!(connected(&app, "remote", "surviving-connection"));
    assert!(app.peers.contains("remote"));
}

#[test]
fn off_unix_no_registration_moves_to_a_surviving_bridge() {
    let bridges = |unix: bool| {
        let mut app = App::new("local-host".into(), unix);
        app.peer_bridges.push(("remote".into(), bridge("remote", "surviving-connection")));
        app.peer_bridges.push(("remote".into(), bridge("remote", "removed-connection")));
        app.peers.insert("remote".into(), ssh_peer("remote"));
        app
    };
    let registers = |app: &App| {
        app.effects.rows.iter().any(|effect| matches!(effect, Effect::RegisterBridge(_)))
    };
    for unix in [true, false] {
        let mut app = bridges(unix);
        app.release_peer_bridge("remote", "removed-connection", NOW);
        assert!(connected(&app, "remote", "surviving-connection"));
        assert!(app.peers.contains("remote"));
        assert_eq!(registers(&app), unix);

        let mut app = bridges(unix);
        app.stop_uncommitted_peer_bridge("remote", "late-connection".into());
        assert_eq!(registers(&app), unix);
        assert!(app.effects.rows.iter().any(|effect| matches!(
            effect,
            Effect::StopBridge { bridge, unregister }
                if bridge.connection_id == "late-connection" && *unregister != unix
        )));
    }
}

#[test]
fn peer_id_validation_accepts_stable_socket_targets() {
    assert!(valid_peer_id("workbox"));
    assert!(valid_peer_id("dev.example_1"));
    assert!(valid_peer_id("remote-8f3a"));
}

#[test]
fn peer_id_validation_rejects_shell_like_values() {
    assert!(!valid_peer_id(""));
    assert!(!valid_peer_id("../remote"));
    assert!(!valid_peer_id("remote::agent"));
    assert!(!valid_peer_id(&"a".repeat(65)));
}

#[test]
fn ssh_connect_rejects_a_missing_owner_before_network_access() {
    let app = App::new("local-host".into(), true);
    let refused = app.prepare_peer_connect_ssh(
        PeerConnectSshParams {
            target: "must-not-be-contacted".into(),
            ssh_args: vec![],
            managed_control_path: None,
            session: None,
            label: None,
            owner_pane_id: Some("w999:p999".into()),
            owner: None,
        },
        None,
    );
    assert_eq!(refused.err().map(|e| e.code), Some("invalid_ssh_owner".to_string()));
}

#[test]
fn expired_ssh_shell_bridge_lease_is_released() {
    let mut app = App::new("local-host".into(), true);
    app.ssh_shell_bridge_deadlines.push((
        BridgeRef { peer_id: "remote".into(), connection_id: "connection".into() },
        NOW - 1,
    ));

    assert!(app.expire_ssh_shell_bridge_leases(NOW));
    assert!(app.ssh_shell_bridge_deadlines.is_empty());
}

#[test]
fn ssh_keepalive_rejects_an_unknown_connection() {
    let mut app = App::new("local-host".into(), true);
    let error = app
        .handle_peer_keepalive_ssh(
            &PeerKeepaliveSshParams { peer_id: "remote".into(), connection_id: "missing".into() },
            NOW,
        )
        .unwrap_err();
    assert_eq!(error.code, "peer_connection_not_found");
}

#[test]
fn unregister_advances_lifecycle_even_before_connect_completion() {
    let mut app = App::new("local-host".into(), true);
    let error =
        app.handle_peer_unregister(&PeerTarget { peer_id: "workbox".into() }, NOW).unwrap_err();
    assert_eq!(error.code, "peer_not_found");
    assert_eq!(app.peer_lifecycle_generations.get("workbox"), Some(&1));
}

#[test]
fn incoming_registration_starts_a_lease() {
    let mut app = App::new("local-host".into(), true);
    app.handle_peer_register(
        PeerRegisterParams { peer: api_socket_peer("origin", "/tmp/origin.sock") },
        NOW,
    )
    .unwrap();
    assert!(*app.incoming_peer_deadlines.get("origin").unwrap() > NOW);
    app.cancel_peer_refresh("origin");
    assert!(!app.incoming_peer_deadlines.contains("origin"));
}

#[test]
fn successful_incoming_refresh_renews_its_lease() {
    let mut app = App::new("local-host".into(), true);
    app.peers.insert("origin".into(), api_socket_peer("origin", "/tmp/origin.sock"));
    app.peer_refresh_generations.insert("origin".into(), 7);
    app.incoming_peer_deadlines.insert("origin".into(), NOW - 1_000);

    app.apply_peer_refresh("origin", 7, NOW, Ok(List::new()));

    assert!(*app.incoming_peer_deadlines.get("origin").unwrap() > NOW - 1_000);
}

#[test]
fn delayed_refresh_success_does_not_extend_an_already_expired_lease() {
    let mut app = App::new("local-host".into(), true);
    app.peers.insert("origin".into(), api_socket_peer("origin", "/tmp/origin.sock"));
    app.peer_refresh_generations.insert("origin".into(), 7);

    app.apply_peer_refresh("origin", 7, NOW - INCOMING_PEER_LEASE_MS - 1, Ok(List::new()));

    assert!(app.expire_incoming_peer_leases(NOW));
    assert!(!app.peers.contains("origin"));
}

#[test]
fn expired_incoming_peer_is_removed_and_cancelled() {
    let mut app = App::new("local-host".into(), true);
    app.peers.insert("origin".into(), api_socket_peer("origin", "/tmp/origin.sock"));
    app.peer_refreshes.insert("origin".into(), ());
    app.peer_refresh_generations.insert("origin".into(), 3);
    app.incoming_peer_deadlines.insert("origin".into(), NOW - 1);

    assert!(app.expire_incoming_peer_leases(NOW));
    assert!(!app.peers.contains("origin"));
    assert!(!app.incoming_peer_deadlines.contains("origin"));
    assert!(app
        .effects
        .rows
        .iter()
        .any(|effect| matches!(effect, Effect::CancelRefresh(id) if id == "origin")));
}

#[test]
fn stale_incoming_deadline_does_not_remove_an_outgoing_peer() {
    let mut app = App::new("local-host".into(), true);
    app.peers.insert("remote".into(), ssh_peer("remote"));
    app.incoming_peer_deadlines.insert("remote".into(), NOW - 1);

    assert!(!app.expire_incoming_peer_leases(NOW));
    assert!(app.peers.contains("remote"));
    assert!(!app.incoming_peer_deadlines.contains("remote"));
}

fn pong(status: &str) -> Result<Json, String> {
    let peer = Json::Object(vec![("status".into(), Json::Text(status.into()))]);
    let result = Json::Object(vec![("peer".into(), peer)]);
    Ok(Json::Object(vec![("result".into(), result)]))
}

#[test]
fn stale_health_generation_cannot_overwrite_a_reregistered_peer() {
    let mut app = App::new("local-host".into(), true);
    let mut replacement = api_socket_peer("origin", "/tmp/new.sock");
    replacement.status = PeerStatus::Disconnected;
    app.peers.insert("origin".into(), replacement);
    app.peer_refresh_generations.insert("origin".into(), 2);

    let answer = app
        .handle_peer_health_finished(
            api_socket_peer("origin", "/tmp/new.sock"),
            1,
            &pong("connected"),
        )
        .unwrap();

    let kept = app.peers.get("origin").unwrap();
    assert_eq!(kept.status, PeerStatus::Disconnected);
    assert!(matches!(
        &answer.transport,
        PeerTransportInfo::ApiSocket { api_socket } if api_socket == "/tmp/new.sock"
    ));
    assert_eq!(answer.status, PeerStatus::Disconnected);
}

#[test]
fn health_completion_for_a_removed_peer_returns_not_found() {
    let mut app = App::new("local-host".into(), true);
    let error = app
        .handle_peer_health_finished(
            api_socket_peer("origin", "/tmp/origin.sock"),
            1,
            &pong("connected"),
        )
        .unwrap_err();
    assert_eq!(error.code, "peer_not_found");
}

fn sensitive_agent() -> AgentInfo {
    AgentInfo {
        agent_session: Some(AgentSessionInfo {
            source: "herdr:codex".into(),
            agent: "codex".into(),
            kind: AgentSessionRefKind::Id,
            value: "native-session".into(),
        }),
        transport: Some(transport_to("remote-terminal")),
        cwd: Some("/work".into()),
        foreground_cwd: Some("/work/sub".into()),
        ..agent("term_1")
    }
}

fn assert_safe_peer_metadata(actual: &AgentInfo, raw: &AgentInfo) {
    let mut expected = raw.clone();
    expected.mirror_of_terminal_id = raw.transport.as_ref().map(|transport| match transport {
        AgentTransportInfo::Ssh { remote_terminal_id, .. } => remote_terminal_id.clone(),
    });
    expected.agent_session = None;
    expected.transport = None;
    expected.attach = None;
    expected.cwd = None;
    expected.foreground_cwd = None;
    assert_eq!(format!("{actual:?}"), format!("{expected:?}"));
}

#[test]
fn peer_agent_list_and_get_expose_safe_metadata() {
    let app = app_with_peer();
    let raw = sensitive_agent();
    let listed = handle_peer_agent_list(&one(raw.clone()));
    assert_eq!(listed.len(), 1);
    assert_safe_peer_metadata(listed.at(0), &raw);

    let got = app.handle_peer_agent_get("term_1", Ok(Some(raw.clone()))).unwrap();
    assert_safe_peer_metadata(&got, &raw);
}

#[test]
fn peer_metadata_projection_removes_untrusted_attach_data() {
    let mut raw = sensitive_agent();
    raw.attach = Some(AgentAttachInfo::SshShell {
        target: "attacker".into(),
        ssh_args: vec!["-oProxyCommand=run-local-code".into()],
        managed_control_path: Some("/tmp/untrusted-control".into()),
        session: Some("untrusted-session".into()),
        label: Some("untrusted-label".into()),
    });
    let projected = project_peer_agent_metadata(raw.clone());
    assert_safe_peer_metadata(&projected, &raw);
}

#[test]
fn peer_agent_get_does_not_recurse_through_registered_peer() {
    let app = app_with_peer();
    let missing = ErrorBody::new("agent_not_found", "agent target loop::missing not found");
    let error = app.handle_peer_agent_get("loop::missing", Err(missing)).unwrap_err();
    assert_eq!(error.code, "agent_not_found");
}

#[test]
fn normal_agent_focus_rejects_peer_presentation_changes() {
    let app = app_with_peer();
    let error = app
        .handle_agent_focus("peer::agent", LocalTarget::NotFound, List::new())
        .err()
        .expect("peer agents are not focused");
    assert_eq!(error.code, "peer_agent_focus_unsupported");
    assert!(error.message.contains("herdr agent attach"));
}

#[test]
fn peer_annotation_replaces_untrusted_attach_transport() {
    let mut shown = agent("untrusted");
    shown.attach = Some(AgentAttachInfo::Ssh {
        target: "attacker".into(),
        ssh_args: vec!["-oProxyCommand=run-local-code".into()],
        managed_control_path: None,
        session: None,
        terminal_id: "untrusted".into(),
        delegation: None,
    });
    shown.transport = Some(transport_to("untrusted"));
    annotate_peer_agent(&api_socket_peer("loop", "/path/that/must/not/be-opened.sock"), &mut shown);
    assert!(shown.attach.is_none());
    assert!(shown.transport.is_none());

    let trusted = PeerInfo {
        id: "trusted".into(),
        label: "workbox".into(),
        status: PeerStatus::Connected,
        transport: PeerTransportInfo::Ssh {
            target: "workbox".into(),
            ssh_args: vec!["-p".into(), "2222".into()],
            managed_control_path: None,
            session: Some("agents".into()),
        },
    };
    annotate_peer_agent(&trusted, &mut shown);
    let Some(AgentAttachInfo::Ssh { target, ssh_args, .. }) = shown.attach else {
        panic!("expected trusted SSH attach metadata");
    };
    assert_eq!(target, "workbox");
    assert_eq!(ssh_args, ["-p", "2222"]);
}

fn get_request() -> Request {
    Request {
        id: "peer_get".into(),
        method: Method::PeerAgentGet(AgentTarget { target: "agent".into() }),
    }
}

#[test]
fn malformed_peer_agent_response_is_rejected_before_attach_metadata_can_escape() {
    let mut app = app_with_peer();
    let peer = api_socket_peer("peer", "/tmp/peer.sock");
    let response = Json::Object(vec![("result".into(), Json::Object(vec![]))]);
    let error = app
        .encode_peer_request_result(
            &peer,
            &get_request(),
            &None,
            Ok(response),
            Err("no error".into()),
            Err("missing field `focused`".into()),
        )
        .err()
        .expect("the answer cannot be read");
    assert!(error.message.contains("invalid agent response"));
}

#[test]
fn answers_of_peers_are_annotated() {
    let mut app = app_with_peer();
    let peer = api_socket_peer("peer", "/tmp/peer.sock");
    let raw = AgentInfo { transport: Some(transport_to("x")), ..agent("far") };
    match app.sanitize_peer_agent_success(
        &peer,
        &get_request(),
        &None,
        ResponseResult::AgentInfo { agent: raw },
    ) {
        Ok(ResponseResult::AgentInfo { agent }) => {
            assert_eq!(agent.peer.as_deref(), Some("peer"));
            assert!(agent.transport.is_none());
        }
        _ => panic!("the answer fits the request"),
    }
    assert!(app
        .sanitize_peer_agent_success(
            &peer,
            &get_request(),
            &None,
            ResponseResult::Other(Json::Null)
        )
        .is_err());
}

#[test]
fn qualified_targets_name_agents_of_peers() {
    let mut shown = agent("far");
    annotate_peer_agent(&api_socket_peer("peer", "/tmp/peer.sock"), &mut shown);
    assert!(agent_matches_target(&shown, "peer-mirror"));
    assert!(matches!(
        peer_agent_get("worker".into()).method,
        Method::PeerAgentGet(t) if t.target == "worker"
    ));
    assert_eq!(peer_agent_list_request().id, "peer:agent:list");
}

#[test]
fn failed_tries_are_repeated_until_the_deadline() {
    assert!(is_transient_peer_socket_error(SocketFailure::ConnectionRefused));
    assert!(after_failed_try("peer", SocketFailure::ConnectionRefused, "refused", 0, 1_000).is_ok());
    assert!(after_failed_try("peer", SocketFailure::Other, "broken", 0, 1_000).is_err());
    assert!(after_failed_try("peer", SocketFailure::ConnectionRefused, "refused", 1_000, 1_000)
        .is_err());
}
