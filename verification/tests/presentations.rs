use herdr::api::schema::common::{AgentStatus, Method, Request};
use herdr::api::schema::peers::{
    AgentAttachPrepareParams, PeerInfo, PeerStatus, PeerTarget, PeerTransportInfo,
    TerminalDelegateClaimParams,
    TerminalDelegateCreateParams, TerminalDelegationClaim, TerminalDelegationInfo,
    TerminalDelegationStatus, TerminalDelegationTarget, TerminalPresentationOwner,
};
use herdr::app::list::List;
use herdr::app::peer_agents::LocalTarget;
use herdr::app::remote_presentations::{
    validate_owner_route, Detached, NewShell, TerminalTarget, PENDING_DELEGATION_TTL_MS,
};
use herdr::app::{
    App, BridgeRef, Effect, MovedPane, Pane, PendingDelegationSource, PendingOwnerActivation,
    PublicPlace, Tab, Terminal, Workspace,
};
use herdr::json::Json;

const NOW: u64 = 1_000_000;

const PANE: u64 = 11;

fn terminal(agent_name: Option<&str>) -> Terminal {
    Terminal {
        cwd: "/work".into(),
        foreground_cwd: None,
        agent_name: agent_name.map(str::to_string),
        agent_label: None,
        manual_label: None,
        is_agent: agent_name.is_some(),
        has_launch_argv: false,
        remote_agent_transport: None,
        title: None,
        display_agent: None,
        custom_status: None,
        state_labels: vec![],
        seen_status: AgentStatus::Idle,
        unseen_status: AgentStatus::Done,
        hook_authority: false,
        agent_session: None,
        revision: 1,
    }
}

fn test_app() -> (App, String, String) {
    let mut app = App::new("local-host".into(), true);
    app.terminals.insert("term_1".into(), terminal(Some("remote-agent")));
    app.runtimes.insert("term_1".into(), ());
    let mut tabs = List::new();
    tabs.push(Tab { public_tab_id: Some("w1:t1".into()), label: None, focused: PANE });
    let mut panes = List::new();
    panes.push(Pane {
        pane_id: PANE,
        terminal_id: "term_1".into(),
        public_pane_id: Some("w1:p1".into()),
        tab: 0,
        seen: true,
    });
    app.workspaces.push(Workspace {
        id: "w1".into(),
        cwd: "/work".into(),
        tabs,
        active_tab: 0,
        panes,
        focused: Some(PANE),
    });
    app.active = Some(0);
    app.last_focus = Some((0, PANE));
    (app, "term_1".into(), "w1:p1".into())
}

fn owner(peer_id: &str, pane_id: &str, route: &[&str]) -> TerminalPresentationOwner {
    TerminalPresentationOwner {
        peer_id: peer_id.into(),
        pane_id: pane_id.into(),
        route: route.iter().map(|peer| (*peer).to_string()).collect(),
    }
}

fn claim_params(
    target: &str,
    owner: TerminalPresentationOwner,
    takeover: bool,
) -> TerminalDelegateClaimParams {
    TerminalDelegateClaimParams {
        target: target.into(),
        owner,
        takeover,
        terminate_on_expire: false,
    }
}

/// Where the target stands among the panes, as long as they are on screen.
fn resolved(app: &App) -> Option<TerminalTarget> {
    if app.workspaces.is_empty() {
        None
    } else {
        Some(TerminalTarget { ws_idx: 0, tab_idx: 0, pane_id: PANE })
    }
}

fn prepare_existing(
    app: &mut App,
    target: &str,
    owner: TerminalPresentationOwner,
    takeover: bool,
) -> TerminalDelegationInfo {
    let at = resolved(app);
    app.prepare_existing_terminal_delegation(claim_params(target, owner, takeover), at, NOW)
        .expect("prepare delegation")
}

fn claim(info: &TerminalDelegationInfo) -> TerminalDelegationClaim {
    TerminalDelegationClaim { delegation_id: info.delegation_id.clone(), epoch: info.epoch }
}

/// The only pane of its workspace leaves nothing behind.
fn detached() -> Option<Detached> {
    Some(Detached { tabs: List::new(), active_tab: 0, focused: None })
}

fn commit(app: &mut App, info: &TerminalDelegationInfo, terminal_id: &str) -> Result<String, String> {
    app.commit_terminal_delegation(&claim(info), terminal_id, detached(), NOW)
}

fn home() -> PublicPlace {
    PublicPlace { pane_id: "w2:p1".into(), workspace_id: "w2".into(), tab_id: "w2:t1".into() }
}

fn status_of(app: &App, info: &TerminalDelegationInfo) -> TerminalDelegationStatus {
    app.terminal_delegation_info(&info.delegation_id, info.epoch).expect("status").status
}

#[test]
fn delegation_hides_then_handoff_rehomes_the_same_pane() {
    let (mut app, terminal_id, public_pane_id) = test_app();
    let prepared =
        prepare_existing(&mut app, &terminal_id, owner("owner-a", "w1:p1", &["owner-a"]), false);

    assert_eq!(commit(&mut app, &prepared, &terminal_id).expect("commit delegation"), terminal_id);
    assert!(app.workspaces.is_empty());
    assert_eq!(app.active_remote_presentation_count(), 1);
    assert_eq!(
        app.delegated_agent_info_for_target(&public_pane_id)
            .expect("hidden agent metadata")
            .presentation
            .expect("presentation")
            .owner_peer_id,
        "owner-a"
    );

    let handed_off =
        app.handoff_delegated_pane(&public_pane_id, home(), NOW).expect("handoff");
    assert_eq!(handed_off.status, TerminalDelegationStatus::HandedOff);
    assert_eq!(app.active_remote_presentation_count(), 0);
    assert_eq!(app.workspaces.len(), 1);
    assert_eq!(app.active, Some(0));
    assert_eq!(app.workspaces.at(0).panes.at(0).terminal_id, terminal_id);
    assert_eq!(app.workspaces.at(0).panes.at(0).pane_id, PANE);
}

#[test]
fn takeover_replaces_the_owner_without_duplicating_the_pane() {
    let (mut app, terminal_id, _) = test_app();
    let first =
        prepare_existing(&mut app, &terminal_id, owner("owner-a", "pane-a", &["owner-a"]), false);
    commit(&mut app, &first, &terminal_id).expect("first commit");

    let error = app
        .prepare_existing_terminal_delegation(
            claim_params("remote-agent", owner("owner-b", "pane-b", &["owner-b"]), false),
            None,
            NOW,
        )
        .expect_err("implicit takeover must fail");
    assert_eq!(error.code, "terminal_already_delegated");

    let second =
        prepare_existing(&mut app, "remote-agent", owner("owner-b", "pane-b", &["owner-b"]), true);
    commit(&mut app, &second, &terminal_id).expect("takeover commit");

    assert_eq!(app.active_remote_presentation_count(), 1);
    assert_eq!(status_of(&app, &first), TerminalDelegationStatus::TakenOver);
    assert_eq!(
        app.terminal_delegation_info(&second.delegation_id, second.epoch)
            .expect("new status")
            .owner
            .peer_id,
        "owner-b"
    );
}

#[test]
fn a_handoff_fails_the_takeovers_that_wait_for_it() {
    let (mut app, terminal_id, public_pane_id) = test_app();
    let first =
        prepare_existing(&mut app, &terminal_id, owner("owner-a", "pane-a", &["owner-a"]), false);
    commit(&mut app, &first, &terminal_id).expect("commit delegation");
    assert!(app.workspaces.is_empty());
    let second =
        prepare_existing(&mut app, "remote-agent", owner("owner-b", "pane-b", &["owner-b"]), true);
    assert_ne!(first.delegation_id, second.delegation_id);

    app.handoff_delegated_pane(&public_pane_id, home(), NOW).expect("handed back");

    assert_eq!(status_of(&app, &first), TerminalDelegationStatus::HandedOff);
    assert_eq!(status_of(&app, &second), TerminalDelegationStatus::Failed);
    assert!(commit(&mut app, &second, &terminal_id).is_err());
}

#[test]
fn owner_route_cycle_is_rejected_before_the_pane_moves() {
    let (mut app, terminal_id, _) = test_app();
    let at = resolved(&app);
    let error = app
        .prepare_existing_terminal_delegation(
            claim_params(
                &terminal_id,
                owner("owner-a", "pane-a", &["owner-a", "local-host"]),
                false,
            ),
            at,
            NOW,
        )
        .expect_err("cycle must fail");

    assert_eq!(error.code, "terminal_presentation_cycle");
    assert_eq!(app.workspaces.len(), 1);
    assert_eq!(app.active_remote_presentation_count(), 0);
}

#[test]
fn owner_route_must_start_with_owner_and_have_unique_hops() {
    let (mut app, terminal_id, _) = test_app();
    let at = resolved(&app);
    let missing_owner = app
        .prepare_existing_terminal_delegation(
            claim_params(&terminal_id, owner("owner-a", "pane-a", &["host-b"]), false),
            at,
            NOW,
        )
        .expect_err("route must begin with owner");
    assert_eq!(missing_owner.code, "invalid_terminal_presentation_route");

    let duplicate = app
        .prepare_existing_terminal_delegation(
            claim_params(
                &terminal_id,
                owner("owner-a", "pane-a", &["owner-a", "host-b", "host-b"]),
                false,
            ),
            at,
            NOW,
        )
        .expect_err("route hops must be unique");
    assert_eq!(duplicate.code, "invalid_terminal_presentation_route");
}

#[test]
fn routes_end_at_this_host() {
    let (mut app, terminal_id, _) = test_app();
    let prepared = prepare_existing(
        &mut app,
        &terminal_id,
        owner("owner-a", "pane-a", &["owner-a", "middle-b"]),
        false,
    );
    assert_eq!(prepared.owner.route, ["owner-a", "middle-b", "local-host"]);
    let hosts: Vec<String> = (0..32).map(|i| format!("h{i}")).collect();
    let deep = TerminalPresentationOwner {
        peer_id: "h0".into(),
        pane_id: "p".into(),
        route: hosts,
    };
    assert_eq!(
        validate_owner_route(&deep, "local-host").unwrap_err().code,
        "terminal_presentation_route_too_deep"
    );
    assert_eq!(
        validate_owner_route(&owner("", "p", &[]), "local-host").unwrap_err().code,
        "invalid_terminal_presentation_owner"
    );
}

#[test]
fn pending_source_exit_invalidates_claim_before_commit() {
    let (mut app, terminal_id, _) = test_app();
    let prepared =
        prepare_existing(&mut app, &terminal_id, owner("owner-a", "pane-a", &["owner-a"]), false);

    assert!(!app.handle_pending_delegation_pane_exit(PANE, NOW));
    assert_eq!(status_of(&app, &prepared), TerminalDelegationStatus::Failed);
    assert!(commit(&mut app, &prepared, &terminal_id).is_err());
    assert_eq!(app.workspaces.len(), 1);
}

#[test]
fn pending_existing_claim_rejects_a_pane_whose_runtime_already_stopped() {
    let (mut app, terminal_id, _) = test_app();
    let prepared =
        prepare_existing(&mut app, &terminal_id, owner("owner-a", "pane-a", &["owner-a"]), false);
    app.runtimes.discard(&terminal_id);

    let error =
        commit(&mut app, &prepared, &terminal_id).expect_err("dead runtime must not activate");

    assert!(error.contains("no longer running"));
    assert_eq!(status_of(&app, &prepared), TerminalDelegationStatus::Failed);
}

#[test]
fn handoff_accepts_the_immutable_pane_id_from_before_a_workspace_move() {
    let (mut app, terminal_id, _) = test_app();
    app.public_pane_id_aliases.insert("old-workspace:pane".into(), PANE);
    let prepared =
        prepare_existing(&mut app, &terminal_id, owner("owner-a", "pane-a", &["owner-a"]), false);
    commit(&mut app, &prepared, &terminal_id).expect("commit delegation");

    assert!(app.public_pane_id_aliases.contains("old-workspace:pane"));
    assert!(app.delegated_pane_for_public_id("old-workspace:pane").is_some());
    app.handoff_delegated_pane("old-workspace:pane", home(), NOW)
        .expect("handoff through historical pane id");
    assert_eq!(app.workspaces.len(), 1);
}

#[test]
fn takeover_accepts_a_historical_public_pane_alias() {
    let (mut app, terminal_id, _) = test_app();
    app.public_pane_id_aliases.insert("old-workspace:pane".into(), PANE);
    let first =
        prepare_existing(&mut app, &terminal_id, owner("owner-a", "pane-a", &["owner-a"]), false);
    commit(&mut app, &first, &terminal_id).expect("first commit");

    let second = app
        .prepare_existing_terminal_delegation(
            claim_params("old-workspace:pane", owner("owner-b", "pane-b", &["owner-b"]), true),
            None,
            NOW,
        )
        .expect("prepare takeover through historical pane id");
    commit(&mut app, &second, &terminal_id).expect("commit takeover");

    assert_eq!(app.active_remote_presentation_count(), 1);
    assert_eq!(status_of(&app, &first), TerminalDelegationStatus::TakenOver);
    assert_eq!(status_of(&app, &second), TerminalDelegationStatus::Active);
    app.handoff_delegated_pane("old-workspace:pane", home(), NOW)
        .expect("handoff through historical pane id after takeover");
}

fn deeper(id: &str) -> TerminalDelegationInfo {
    TerminalDelegationInfo {
        delegation_id: id.into(),
        epoch: 1,
        terminal_id: "remote-terminal".into(),
        pane_id: "remote-pane".into(),
        origin_peer_id: "origin-c".into(),
        owner: owner("owner-a", "pane-a", &["owner-a"]),
        status: TerminalDelegationStatus::Active,
    }
}

fn ssh_peer(id: &str) -> PeerInfo {
    PeerInfo {
        id: id.into(),
        label: id.into(),
        status: PeerStatus::Connected,
        transport: PeerTransportInfo::Ssh {
            target: id.into(),
            ssh_args: vec![],
            managed_control_path: None,
            session: None,
        },
    }
}

fn waiting(id: &str, terminal_id: &str, peer_id: &str, connection_id: &str) -> PendingOwnerActivation {
    PendingOwnerActivation {
        terminal_id: terminal_id.into(),
        bridge: BridgeRef { peer_id: peer_id.into(), connection_id: connection_id.into() },
        peer: ssh_peer(peer_id),
        delegation: TerminalDelegationInfo {
            status: TerminalDelegationStatus::Pending,
            ..deeper(id)
        },
        release_bridge_on_owner_close: false,
    }
}

#[test]
fn takeover_rejects_a_pane_that_owns_a_deeper_remote_presentation() {
    let (mut app, terminal_id, _) = test_app();
    let first =
        prepare_existing(&mut app, &terminal_id, owner("owner-a", "pane-a", &["owner-a"]), false);
    commit(&mut app, &first, &terminal_id).expect("first commit");
    app.remote_owner_presentations.insert(terminal_id.clone(), deeper("deeper"));

    let error = app
        .prepare_existing_terminal_delegation(
            claim_params(&terminal_id, owner("owner-d", "pane-d", &["owner-d"]), true),
            None,
            NOW,
        )
        .expect_err("nested takeover must be rejected safely");

    assert_eq!(error.code, "nested_terminal_takeover_unsupported");
    assert_eq!(app.active_remote_presentation_count(), 1);
}

#[test]
fn takeover_rejects_a_pane_with_a_pending_deeper_presentation() {
    let (mut app, terminal_id, _) = test_app();
    let first =
        prepare_existing(&mut app, &terminal_id, owner("owner-a", "pane-a", &["owner-a"]), false);
    commit(&mut app, &first, &terminal_id).expect("first commit");
    app.pending_owner_activations.insert(
        "downstream".into(),
        waiting("downstream", &terminal_id, "peer-c", "connection-c"),
    );

    let error = app
        .prepare_existing_terminal_delegation(
            claim_params(&terminal_id, owner("owner-d", "pane-d", &["owner-d"]), true),
            None,
            NOW,
        )
        .expect_err("pending nested takeover must be rejected safely");

    assert_eq!(error.code, "nested_terminal_takeover_unsupported");
}

#[test]
fn takeover_commit_rechecks_for_a_new_downstream_presentation() {
    let (mut app, terminal_id, _) = test_app();
    let first =
        prepare_existing(&mut app, &terminal_id, owner("owner-a", "pane-a", &["owner-a"]), false);
    commit(&mut app, &first, &terminal_id).expect("first commit");
    let second =
        prepare_existing(&mut app, &terminal_id, owner("owner-b", "pane-b", &["owner-b"]), true);
    app.remote_owner_presentations.insert(terminal_id.clone(), deeper("downstream"));

    let error = commit(&mut app, &second, &terminal_id)
        .expect_err("new downstream ownership must block takeover commit");

    assert!(error.contains("started owning a deeper remote presentation"));
    assert_eq!(app.active_remote_presentation_count(), 1);
    assert_eq!(status_of(&app, &first), TerminalDelegationStatus::Active);
    assert_eq!(status_of(&app, &second), TerminalDelegationStatus::Failed);
}

#[test]
fn takeover_commit_rejects_an_in_flight_downstream_owner_operation() {
    let (mut app, terminal_id, _) = test_app();
    let first =
        prepare_existing(&mut app, &terminal_id, owner("owner-a", "pane-a", &["owner-a"]), false);
    commit(&mut app, &first, &terminal_id).expect("first commit");
    let second =
        prepare_existing(&mut app, &terminal_id, owner("owner-b", "pane-b", &["owner-b"]), true);
    app.pending_owner_operations.insert(terminal_id.clone(), 1);

    let error = commit(&mut app, &second, &terminal_id)
        .expect_err("in-flight downstream ownership must block takeover commit");

    assert!(error.contains("started owning a deeper remote presentation"));
    assert_eq!(app.active_remote_presentation_count(), 1);
    assert_eq!(status_of(&app, &first), TerminalDelegationStatus::Active);
}

#[test]
fn handoff_rejects_an_in_flight_downstream_owner_operation() {
    let (mut app, terminal_id, public_pane_id) = test_app();
    let prepared =
        prepare_existing(&mut app, &terminal_id, owner("owner-a", "pane-a", &["owner-a"]), false);
    commit(&mut app, &prepared, &terminal_id).expect("commit delegation");
    app.pending_owner_operations.insert(terminal_id.clone(), 1);

    let error = app
        .handoff_delegated_pane(&public_pane_id, home(), NOW)
        .expect_err("in-flight downstream ownership must block handoff");

    assert_eq!(error.code, "nested_terminal_handoff_unsupported");
    assert_eq!(app.active_remote_presentation_count(), 1);
    assert!(app.workspaces.is_empty());
}

#[test]
fn terminating_a_hidden_owner_clears_its_deeper_bridge_maps() {
    let (mut app, terminal_id, _) = test_app();
    let first =
        prepare_existing(&mut app, &terminal_id, owner("owner-a", "pane-a", &["owner-a"]), false);
    commit(&mut app, &first, &terminal_id).expect("commit delegation");
    app.ssh_shell_bridges.insert(
        terminal_id.clone(),
        BridgeRef { peer_id: "peer-c".into(), connection_id: "connection-c".into() },
    );
    app.remote_owner_presentations.insert(terminal_id.clone(), first.clone());
    app.pending_owner_activations.insert(
        "pending-downstream".into(),
        waiting("pending-downstream", &terminal_id, "peer-d", "connection-d"),
    );

    assert!(app.terminate_terminal_delegation(&claim(&first), NOW));

    assert!(!app.ssh_shell_bridges.contains(&terminal_id));
    assert!(!app.remote_owner_presentations.contains(&terminal_id));
    assert!(app.pending_owner_activations.is_empty());
    assert!(app.effects.rows.iter().any(
        |effect| matches!(effect, Effect::CancelActivation(id) if id == "pending-downstream")
    ));
    assert!(!app.terminals.contains(&terminal_id));
}

#[test]
fn losing_any_route_peer_terminates_the_hidden_presentation() {
    let (mut app, terminal_id, _) = test_app();
    let prepared = prepare_existing(
        &mut app,
        &terminal_id,
        owner("owner-a", "pane-a", &["owner-a", "middle-b"]),
        false,
    );
    commit(&mut app, &prepared, &terminal_id).expect("commit delegation");

    assert_eq!(app.terminate_remote_presentations_for_route_peer("middle-b", NOW), 1);
    assert_eq!(app.active_remote_presentation_count(), 0);
    assert_eq!(status_of(&app, &prepared), TerminalDelegationStatus::Terminated);
}

fn new_shell() -> NewShell {
    NewShell {
        terminal_id: "term_9".into(),
        terminal: terminal(None),
        moved: Some(MovedPane { pane_id: 99, terminal_id: "term_9".into(), seen: true }),
        place: PublicPlace {
            pane_id: "w9:p1".into(),
            workspace_id: "w9".into(),
            tab_id: "w9:t1".into(),
        },
    }
}

#[test]
fn pending_new_shell_exit_removes_hidden_terminal_state() {
    let mut app = App::new("local-host".into(), true);
    let prepared = app
        .prepare_delegated_terminal(
            owner("owner-a", "pane-a", &["owner-a"]),
            Some("pending".into()),
            Ok(new_shell()),
            NOW,
        )
        .expect("prepare fresh shell");
    let pane_id = match &app.pending.get(&prepared.delegation_id).expect("pending").source {
        PendingDelegationSource::New { moved, .. } => moved.pane_id,
        _ => panic!("expected fresh pending shell"),
    };
    assert_eq!(
        app.terminals.get("term_9").and_then(|t| t.manual_label.as_deref()),
        Some("pending")
    );

    assert!(app.handle_pending_delegation_pane_exit(pane_id, NOW));
    assert!(!app.terminals.contains(&prepared.terminal_id));
    assert_eq!(status_of(&app, &prepared), TerminalDelegationStatus::Failed);
}

#[test]
fn server_stop_reports_before_shutdown_terminates_presentations() {
    let (mut app, terminal_id, _) = test_app();
    let prepared =
        prepare_existing(&mut app, &terminal_id, owner("owner-a", "pane-a", &["owner-a"]), false);
    commit(&mut app, &prepared, &terminal_id).expect("commit delegation");

    assert_eq!(app.shutdown_remote_presentation_count(), 1);
    assert_eq!(app.active_remote_presentation_count(), 1);

    assert_eq!(app.terminate_all_remote_presentations(NOW), 1);
    assert_eq!(app.active_remote_presentation_count(), 0);
    assert!(!app.terminals.contains(&terminal_id));
}

#[test]
fn server_stop_reports_owner_side_remote_presentations() {
    let (mut app, terminal_id, _) = test_app();
    app.remote_owner_presentations.insert(terminal_id, deeper("delegation-b"));
    assert_eq!(app.shutdown_remote_presentation_count(), 1);
}

#[test]
fn a_shell_is_started_where_it_was_asked_for() {
    let app = App::new("local-host".into(), true);
    let params = |cwd: Option<&str>| TerminalDelegateCreateParams {
        cwd: cwd.map(str::to_string),
        label: None,
        env: vec![],
        owner: owner("owner-a", "pane-a", &["owner-a"]),
    };
    let env = vec![("A".to_string(), "b".to_string())];
    let launch = app
        .begin_delegated_terminal(&params(Some("/srv")), Ok(env.clone()), "/home".into())
        .unwrap();
    assert_eq!(launch.cwd, "/srv");
    assert_eq!(launch.env, env);
    let launch = app.begin_delegated_terminal(&params(None), Ok(env), "/home".into()).unwrap();
    assert_eq!(launch.cwd, "/home");
}

#[test]
fn a_shell_that_cannot_be_detached_is_shut_down() {
    let mut app = App::new("local-host".into(), true);
    let stuck = NewShell { moved: None, ..new_shell() };
    let error = app
        .prepare_delegated_terminal(
            owner("owner-a", "pane-a", &["owner-a"]),
            None,
            Ok(stuck),
            NOW,
        )
        .unwrap_err();
    assert_eq!(error.code, "terminal_delegate_create_failed");
    assert!(matches!(&app.effects.rows[0], Effect::ShutDownRuntime(id) if id == "term_9"));
}

#[test]
fn claims_expire() {
    let (mut app, terminal_id, _) = test_app();
    let prepared =
        prepare_existing(&mut app, &terminal_id, owner("owner-a", "pane-a", &["owner-a"]), false);
    assert!(!app.expire_remote_presentations(NOW + PENDING_DELEGATION_TTL_MS - 1));
    assert!(app.has_remote_presentation_activity());
    assert!(app.expire_remote_presentations(NOW + PENDING_DELEGATION_TTL_MS));
    assert_eq!(status_of(&app, &prepared), TerminalDelegationStatus::Failed);
    assert_eq!(
        commit(&mut app, &prepared, &terminal_id).unwrap_err(),
        "terminal delegation was not found or has expired"
    );
    app.expire_remote_presentations(NOW + 2 * PENDING_DELEGATION_TTL_MS);
    assert!(app.terminal_delegation_info(&prepared.delegation_id, prepared.epoch).is_none());
}

#[test]
fn a_claim_commits_once_and_only_what_it_names() {
    let (mut app, terminal_id, _) = test_app();
    let prepared =
        prepare_existing(&mut app, &terminal_id, owner("owner-a", "pane-a", &["owner-a"]), false);
    assert_eq!(prepared.delegation_id, "delegation-1-1");
    let wrong = TerminalDelegationClaim {
        delegation_id: prepared.delegation_id.clone(),
        epoch: prepared.epoch + 1,
    };
    assert_eq!(
        app.commit_terminal_delegation(&wrong, &terminal_id, detached(), NOW).unwrap_err(),
        "terminal delegation claim does not match the prepared terminal"
    );
    commit(&mut app, &prepared, &terminal_id).expect("commit delegation");
    assert!(app.terminal_is_remotely_presented(&terminal_id));
    assert_eq!(
        commit(&mut app, &prepared, &terminal_id).unwrap_err(),
        "terminal delegation was not found or has expired"
    );
    let status = app
        .handle_terminal_delegate_status(&TerminalDelegationTarget {
            delegation_id: prepared.delegation_id.clone(),
            epoch: prepared.epoch,
        })
        .unwrap();
    assert_eq!(status.status, TerminalDelegationStatus::Active);
    app.handle_terminal_delegate_terminate(
        TerminalDelegationTarget {
            delegation_id: prepared.delegation_id.clone(),
            epoch: prepared.epoch,
        },
        NOW,
    )
    .unwrap();
    assert_eq!(status_of(&app, &prepared), TerminalDelegationStatus::Terminated);
}

#[test]
fn a_pane_that_is_not_presented_cannot_be_handed_back() {
    let (mut app, _, public_pane_id) = test_app();
    let error = app.handoff_delegated_pane(&public_pane_id, home(), NOW).unwrap_err();
    assert_eq!(error.code, "pane_not_remotely_presented");
}

#[test]
fn reports_find_the_pane_behind_an_id() {
    let (mut app, terminal_id, public_pane_id) = test_app();
    assert_eq!(app.pane_for_terminal(&terminal_id), Some(PANE));
    assert_eq!(app.find_pane(PANE).map(|p| p.terminal_id.as_str()), Some("term_1"));
    let prepared =
        prepare_existing(&mut app, &terminal_id, owner("owner-a", "pane-a", &["owner-a"]), false);
    commit(&mut app, &prepared, &terminal_id).expect("commit delegation");
    assert_eq!(app.resolve_internal_report_pane(&public_pane_id, None), Some(PANE));
    let request = Request { id: "r".into(), method: Method::PaneList(Json::Null) };
    assert!(!herdr::api::request_changes_ui(&request));
}

fn socket_peer(id: &str) -> PeerInfo {
    PeerInfo {
        id: id.into(),
        label: id.into(),
        status: PeerStatus::Connected,
        transport: PeerTransportInfo::ApiSocket { api_socket: format!("/tmp/{id}.sock") },
    }
}

#[test]
fn nested_peer_attach_keeps_the_local_hidden_owner_terminal_context() {
    let (mut app, terminal_id, public_pane_id) = test_app();
    app.peers.insert("loop".into(), socket_peer("loop"));
    let prepared = prepare_existing(
        &mut app,
        &terminal_id,
        owner("origin-a", "a-owner-pane", &["origin-a"]),
        false,
    );
    commit(&mut app, &prepared, &terminal_id).expect("commit delegated owner");
    let method = || {
        Method::AgentAttachPrepare(AgentAttachPrepareParams {
            target: "loop::worker".into(),
            owner_pane_id: public_pane_id.clone(),
            takeover: false,
        })
    };

    assert_eq!(
        app.peer_agent_request_owner_terminal(&method(), None).expect("resolve local owner"),
        Some(terminal_id)
    );
    let (_, request) = app
        .prepare_peer_agent_request(method(), LocalTarget::NotFound, List::new())
        .unwrap_or_else(|_| panic!("prepare peer attach request"));
    let Method::TerminalDelegateClaim(params) = request.method else {
        panic!("expected terminal delegation claim");
    };
    assert_eq!(params.owner.pane_id, "a-owner-pane");
}

#[test]
fn unregistering_an_incoming_peer_terminates_its_hosted_delegation() {
    let mut app = App::new("local-host".into(), true);
    app.peers.insert("origin".into(), socket_peer("origin"));
    let delegation = app
        .prepare_delegated_terminal(
            owner("origin", "origin-pane", &["origin"]),
            Some("remote".into()),
            Ok(new_shell()),
            NOW,
        )
        .expect("prepare delegation");
    app.runtimes.insert(delegation.terminal_id.clone(), ());
    app.commit_terminal_delegation(&claim(&delegation), &delegation.terminal_id, None, NOW)
        .expect("commit delegation");

    let peer = app
        .handle_peer_unregister(&PeerTarget { peer_id: "origin".into() }, NOW)
        .unwrap_or_else(|_| panic!("the peer is known"));

    assert_eq!(peer.id, "origin");
    assert_eq!(app.active_remote_presentation_count(), 0);
    assert_eq!(status_of(&app, &delegation), TerminalDelegationStatus::Terminated);
}

#[test]
fn releasing_an_active_owner_bridge_removes_the_owner_pane_synchronously() {
    let (mut app, terminal_id, _) = test_app();
    app.ssh_shell_bridges.insert(
        terminal_id.clone(),
        BridgeRef { peer_id: "remote".into(), connection_id: "connection".into() },
    );
    app.remote_owner_presentations.insert(terminal_id.clone(), deeper("delegation"));

    app.shutdown_outbound_owner_terminals(&vec![terminal_id.clone()], NOW);

    assert!(app
        .effects
        .rows
        .iter()
        .any(|effect| matches!(effect, Effect::PaneDied(pane) if *pane == PANE)));
    assert!(!app.terminals.contains(&terminal_id));
    assert!(!app.runtimes.contains(&terminal_id));
    assert!(!app.remote_owner_presentations.contains(&terminal_id));
}
