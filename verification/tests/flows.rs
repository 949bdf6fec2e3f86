use herdr::api::schema::agents::{
    AgentAttachInfo, AgentInfo, AgentListParams, AgentReadParams, AgentSendParams,
    AgentStartParams, AgentTransportInfo,
};
use herdr::api::schema::common::{
    AgentStatus, AgentTarget, ErrorBody, Method, ReadFormat, ReadSource,
};
use herdr::api::schema::peers::{
    AgentAttachPrepareParams, PeerDisconnectSshParams, PeerInfo, PeerStatus, PeerTarget,
    PeerTransportInfo, RemoteResumeParams, TerminalDelegationClaim, TerminalDelegationInfo,
    TerminalDelegationStatus, TerminalParkedResolveAction as Action, TerminalParkedResolveParams,
    TerminalPresentationOwner,
};
use herdr::api::schema::recovery::{
    TerminalRecoveryInfo, TerminalRecoveryStatus, TerminalRecoveryTarget,
};
use herdr::app::api::agents::ResponseResult;
use herdr::app::api::local_agents::{
    handle_agent_get, handle_peer_agent_read, handle_peer_agent_send, handle_peer_agent_start,
    requested_text, AgentStep, ExplainedPane, Explanation, PaneText, ReadPane,
};
use herdr::app::api::peer_health::same_transport;
use herdr::app::api::peers::RemoteShellConnect;
use herdr::app::api::recovery::{
    handle_terminal_recovery_discard, handle_terminal_recovery_list,
    handle_terminal_recovery_retry, handle_terminal_recovery_status,
};
use herdr::app::api::remote_presentations::{
    authorize_parked_admin, handle_terminal_parked_admin_resolve, handle_terminal_parked_resolve,
    handle_terminal_parked_resume, parked_admin_operation, parked_operation, ParkedOperation,
    ParkedOutcome, ParkedReply,
};
use herdr::app::list::List;
use herdr::app::owners::{INCOMING_PEER_LEASE_MS, REMOTE_OWNER_LEASE_MS};
use herdr::app::peer_agents::{
    agent_candidate_text, peer_agent_duplicates_local_mirror, peer_agent_list_value,
    peer_try_timeout, LocalTarget, PEER_TRY_TIMEOUT_MS,
};
use herdr::app::remote_presentations::TerminalTarget;
use herdr::app::remote_resume::{
    apply_reacquire_result, resume_records_for_request, spawn_remote_reacquires, HandoffAction,
    PaneSlot, Reacquired, RemoteAgentStart, StoreChange,
};
use herdr::app::sorting::sort_names;
use herdr::app::{App, BridgeRef, Effect, Pane, PeerBridge, Tab, Terminal, Workspace};
use herdr::json::Json;
use herdr::remote_resume::{ResumePlacement, ResumeRecord, ResumeSsh};

const NOW: u64 = 10_000_000;

const PANE: u64 = 11;

fn agent(terminal_id: &str) -> AgentInfo {
    AgentInfo {
        terminal_id: terminal_id.into(),
        peer: None,
        qualified_target: None,
        presentation: None,
        name: Some("worker".into()),
        agent: None,
        title: None,
        display_agent: None,
        agent_status: AgentStatus::Working,
        screen_detection_skipped: false,
        custom_status: None,
        state_labels: vec![],
        agent_session: None,
        transport: None,
        mirror_of_terminal_id: None,
        attach: None,
        workspace_id: "w1".into(),
        tab_id: "w1:t1".into(),
        pane_id: "w1:p1".into(),
        focused: false,
        cwd: None,
        foreground_cwd: None,
        revision: 4,
    }
}

fn terminal() -> Terminal {
    Terminal {
        cwd: "/work".into(),
        foreground_cwd: None,
        agent_name: None,
        agent_label: Some("codex".into()),
        manual_label: None,
        is_agent: false,
        has_launch_argv: false,
        remote_agent_transport: None,
        title: None,
        display_agent: None,
        custom_status: None,
        state_labels: vec![],
        seen_status: AgentStatus::Idle,
        unseen_status: AgentStatus::Idle,
        hook_authority: false,
        agent_session: None,
        revision: 0,
    }
}

fn app_with_pane() -> App {
    let mut app = App::new("local-host".into(), true);
    app.terminals.insert("term_1".into(), terminal());
    app.runtimes.insert("term_1".into(), ());
    let mut tabs = List::new();
    tabs.push(Tab { public_tab_id: Some("w1:t1".into()), label: None, focused: PANE });
    let mut panes = List::new();
    panes.push(Pane {
        pane_id: PANE,
        terminal_id: "term_1".into(),
        public_pane_id: Some("w1:p1".into()),
        tab: 0,
        seen: true,
    });
    app.workspaces.push(Workspace {
        id: "w1".into(),
        cwd: "/work".into(),
        tabs,
        active_tab: 0,
        panes,
        focused: Some(PANE),
    });
    app
}

fn here() -> TerminalTarget {
    TerminalTarget { ws_idx: 0, tab_idx: 0, pane_id: PANE }
}

fn ssh_peer(id: &str) -> PeerInfo {
    PeerInfo {
        id: id.into(),
        label: id.into(),
        status: PeerStatus::Connected,
        transport: PeerTransportInfo::Ssh {
            target: "workbox".into(),
            ssh_args: vec!["-p".into(), "2222".into()],
            managed_control_path: None,
            session: Some("agents".into()),
        },
    }
}

fn bridge(connection_id: &str) -> PeerBridge {
    PeerBridge {
        connection_id: connection_id.into(),
        peer: ssh_peer("remote"),
        remote_peer_id: Some("local-host".into()),
        healthy: true,
    }
}

fn transport() -> AgentTransportInfo {
    AgentTransportInfo::Ssh {
        target: "workbox".into(),
        ssh_args: vec!["-p".into(), "2222".into()],
        managed_control_path: None,
        session: Some("agents".into()),
        remote_terminal_id: "term_far".into(),
        remote_pane_id: "w9:p9".into(),
        remote_agent: Some("codex".into()),
        remote_cwd: Some("/far".into()),
    }
}

fn delegation(status: TerminalDelegationStatus) -> TerminalDelegationInfo {
    TerminalDelegationInfo {
        delegation_id: "delegation".into(),
        epoch: 1,
        terminal_id: "term_far".into(),
        pane_id: "w9:p9".into(),
        origin_peer_id: "remote".into(),
        owner: TerminalPresentationOwner {
            peer_id: "local-host".into(),
            pane_id: "w1:p1".into(),
            route: vec!["local-host".into(), "remote".into()],
        },
        status,
    }
}

fn attach() -> AgentAttachInfo {
    AgentAttachInfo::Ssh {
        target: "workbox".into(),
        ssh_args: vec![],
        managed_control_path: None,
        session: None,
        terminal_id: "term_far".into(),
        delegation: None,
    }
}

/// A pane here shows a terminal of the peer `remote`.
fn app_showing_remote() -> App {
    let mut app = app_with_pane();
    app.peers.insert("remote".into(), ssh_peer("remote"));
    app.peer_bridges.push(("remote".into(), bridge("connection")));
    let mut shown = terminal();
    shown.remote_agent_transport = Some(transport());
    app.terminals.insert("term_1".into(), shown);
    app.remote_owner_presentations
        .insert("term_1".into(), delegation(TerminalDelegationStatus::Active));
    app.remote_owner_peers.insert("term_1".into(), "remote".into());
    app.remote_terminal_bridges.insert(
        "term_1".into(),
        BridgeRef { peer_id: "remote".into(), connection_id: "connection".into() },
    );
    app
}

fn record(terminal: &str, peer: &str) -> ResumeRecord {
    ResumeRecord {
        schema: 1,
        remote_terminal_id: terminal.into(),
        remote_pane_id: "w9:p9".into(),
        peer_id: peer.into(),
        ssh: ResumeSsh { target: "workbox".into(), ssh_args: vec![], session: None },
        agent: None,
        placement: ResumePlacement {
            workspace_id: "w1".into(),
            public_tab_id: "w1:t1".into(),
            public_pane_id: Some("w1:p1".into()),
            pane_index: None,
        },
        handed_off_at_unix_ms: 5,
        last_error: None,
    }
}

// ---------------------------------------------------------------------------
// Handing panes back, and getting them again

#[test]
fn records_are_written_before_panes_are_handed_back() {
    let mut app = app_showing_remote();
    let (run, action) = app.auto_handoff_remote_presentations(true, true, 1, 77);
    let HandoffAction::Persist(written) = action else {
        panic!("the record comes first");
    };
    assert_eq!(written.remote_terminal_id, "term_far");
    assert_eq!(written.peer_id, "remote");
    assert_eq!(written.ssh.target, "workbox");
    assert_eq!(written.ssh.session.as_deref(), Some("agents"));
    assert_eq!(written.placement.public_pane_id.as_deref(), Some("w1:p1"));
    assert_eq!(written.handed_off_at_unix_ms, 77);

    let (run, action) = app.auto_handoff_step(run, true, 1, 77, NOW);
    assert!(matches!(
        &action,
        HandoffAction::HandOff { peer, delegation }
            if peer.id == "remote" && delegation.delegation_id == "delegation"
    ));
    assert!(app.terminals.contains("term_1"));

    let (_, action) = app.auto_handoff_step(run, true, 1, 77, NOW);
    assert!(matches!(action, HandoffAction::Done(1)));
    assert!(!app.terminals.contains("term_1"));
    assert!(!app.remote_owner_presentations.contains("term_1"));

    let (_, action) = app.auto_handoff_remote_presentations(true, true, 1, 78);
    assert!(matches!(action, HandoffAction::Done(0)));
}

/// Three panes here show terminals of the peer `remote`. Only the first has a
/// connection of its own.
fn app_showing_three() -> App {
    let mut app = app_showing_remote();
    for (id, pane_id) in [("term_2", 12), ("term_3", 13)] {
        app.workspaces.rows[0].panes.push(Pane {
            pane_id,
            terminal_id: id.into(),
            public_pane_id: Some(format!("w1:p{pane_id}")),
            tab: 0,
            seen: true,
        });
        let mut shown = terminal();
        shown.remote_agent_transport = Some(transport());
        app.terminals.insert(id.into(), shown);
        app.remote_owner_presentations
            .insert(id.into(), delegation(TerminalDelegationStatus::Active));
        app.remote_owner_peers.insert(id.into(), "remote".into());
    }
    app
}

/// Hands the panes back, but for those that `refused` picks by their turn. Tells how
/// many were offered to their host and how many the run counts.
fn hand_back(app: &mut App, refused: &[usize]) -> (usize, usize) {
    let (mut run, mut action) = app.auto_handoff_remote_presentations(true, true, 1, 77);
    let mut offered = 0;
    loop {
        let ok = match action {
            HandoffAction::HandOff { .. } => {
                offered += 1;
                !refused.contains(&offered)
            }
            HandoffAction::Done(count) => return (offered, count),
            _ => true,
        };
        (run, action) = app.auto_handoff_step(run, ok, 1, 77, NOW);
    }
}

#[test]
fn a_run_counts_the_panes_that_were_handed_back() {
    let mut app = app_showing_three();
    assert_eq!(hand_back(&mut app, &[2]), (3, 2));
    assert_eq!(app.remote_owner_presentations.len(), 1);
    assert!(app.remote_owner_presentations.contains("term_2"));
    assert!(app.terminals.contains("term_2"));
    assert!(app.peers.contains("remote"));
    assert!(app.is_connected("remote", "connection"));
}

#[test]
fn every_pane_is_handed_back_over_one_connection() {
    let mut app = app_showing_three();
    let (run, _) = app.auto_handoff_remote_presentations(true, true, 1, 77);
    let (run, _) = app.auto_handoff_step(run, true, 1, 77, NOW);
    let (run, action) = app.auto_handoff_step(run, true, 1, 77, NOW);
    assert!(matches!(action, HandoffAction::Persist(_)));
    assert!(!app.remote_owner_presentations.contains("term_1"));
    assert!(app.remote_owner_presentations.contains("term_2"));
    assert!(app.remote_owner_presentations.contains("term_3"));
    assert!(app.is_connected("remote", "connection"));
    assert_eq!(run.held.len(), 1);

    let mut app = app_showing_three();
    assert_eq!(hand_back(&mut app, &[]), (3, 3));
    assert!(app.remote_owner_presentations.is_empty());
    assert!(app.terminals.is_empty());
    assert!(!app.is_connected("remote", "connection"));
    assert!(!app.peers.contains("remote"));
    let stopped = app
        .effects
        .rows
        .iter()
        .filter(|effect| matches!(effect, Effect::StopBridge { .. }))
        .count();
    assert_eq!(stopped, 1);
}

#[test]
fn a_connection_that_nothing_uses_is_closed_at_once() {
    let mut app = app_showing_three();
    app.peer_bridges.push(("remote".into(), bridge("spare")));
    let own = BridgeRef { peer_id: "remote".into(), connection_id: "connection".into() };
    let spare = BridgeRef { peer_id: "remote".into(), connection_id: "spare".into() };
    assert!(app.is_in_use(&own));
    assert!(!app.is_in_use(&spare));
    let (run, _) = app.auto_handoff_remote_presentations(true, true, 1, 77);
    let (run, _) = app.auto_handoff_step(run, true, 1, 77, NOW);
    let (run, _) = app.auto_handoff_step(run, true, 1, 77, NOW);
    assert!(run.held.is_empty());
    assert!(!app.is_connected("remote", "connection"));
    assert!(app.is_connected("remote", "spare"));
    assert!(app.is_in_use(&spare));
    assert!(app.remote_owner_presentations.contains("term_2"));
}

#[test]
fn an_agent_of_a_pane_is_told_or_not_found() {
    assert!(handle_agent_get("worker", Some(agent("term_1"))).is_ok());
    let error = handle_agent_get("worker", None).err().expect("there is no agent");
    assert_eq!(error.code, "agent_not_found");
    assert_eq!(error.message, "agent target worker not found");
}

#[test]
fn a_pane_that_its_host_refuses_stays() {
    let mut app = app_showing_remote();
    let (run, _) = app.auto_handoff_remote_presentations(true, true, 1, 77);
    let (run, _) = app.auto_handoff_step(run, true, 1, 77, NOW);
    let (run, action) = app.auto_handoff_step(run, false, 1, 77, NOW);
    assert!(matches!(&action, HandoffAction::Forget(id) if id == "term_far"));
    assert!(app.terminals.contains("term_1"));
    let (_, action) = app.auto_handoff_step(run, true, 1, 77, NOW);
    assert!(matches!(action, HandoffAction::Done(0)));
}

#[test]
fn panes_are_handed_back_only_where_that_is_wanted() {
    let app = app_showing_remote();
    for (enabled, store_open) in [(false, true), (true, false)] {
        let (_, action) = app.auto_handoff_remote_presentations(enabled, store_open, 1, 77);
        assert!(matches!(action, HandoffAction::Done(0)));
    }
}

#[test]
fn records_are_chosen_by_peer() {
    let stored = || vec![record("a", "p1"), record("b", "p2"), record("c", "p1")];
    let params = |peer: Option<&str>, control: Option<&str>| RemoteResumeParams {
        peer_id: peer.map(str::to_string),
        managed_control_path: control.map(str::to_string),
    };
    let (peer, wanted) = resume_records_for_request(&params(Some("p1"), None), Ok(stored()))
        .unwrap_or_else(|_| panic!("there are records of p1"));
    assert_eq!(peer, "p1");
    let ids: Vec<&str> = wanted.iter().map(|r| r.remote_terminal_id.as_str()).collect();
    assert_eq!(ids, ["a", "c"]);
    for (params, stored, code) in [
        (params(Some("p3"), None), Ok(stored()), "remote_resume_empty"),
        (params(None, Some("/c")), Ok(stored()), "invalid_request"),
        (params(None, None), Err("gone".to_string()), "remote_resume_unavailable"),
    ] {
        let error = resume_records_for_request(&params, stored).err().expect("no records");
        assert_eq!(error.error.code, code);
    }
    let groups = spawn_remote_reacquires(true, Some(stored()));
    assert_eq!(groups.len(), 2);
    assert_eq!(groups[0].peer_id, "p1");
    assert_eq!(groups[0].records.len(), 2);
    assert!(spawn_remote_reacquires(false, Some(stored())).is_empty());
}

#[test]
fn records_are_kept_until_their_pane_is_shown_or_gone() {
    let r = record("a", "p1");
    let (outcome, change, rollback) =
        apply_reacquire_result(&r, &Reacquired::Claimed { shown: Ok(()) });
    assert!(outcome.error.is_none());
    assert!(matches!(&change, StoreChange::Remove(id) if id == "a"));
    assert!(!rollback);
    let (outcome, change, rollback) =
        apply_reacquire_result(&r, &Reacquired::Claimed { shown: Err("no room".into()) });
    assert_eq!(outcome.error.as_deref(), Some("no room"));
    assert!(matches!(&change, StoreChange::SetLastError { error, .. } if error == "no room"));
    assert!(rollback);
    let (_, change, _) =
        apply_reacquire_result(&r, &Reacquired::Failed("terminal a not found".into()));
    assert!(matches!(&change, StoreChange::Remove(id) if id == "a"));
    let (_, change, rollback) =
        apply_reacquire_result(&r, &Reacquired::Failed("timed out".into()));
    assert!(matches!(change, StoreChange::SetLastError { .. }));
    assert!(!rollback);
}

#[test]
fn a_pane_is_got_again_in_its_place() {
    let mut app = app_with_pane();
    assert_eq!(
        app.reacquire_slot(Some((0, 0))),
        PaneSlot::BesidePane { ws_idx: 0, pane_id: PANE }
    );
    app.terminals.insert("term_2".into(), terminal());
    app.workspaces.rows[0].panes.push(Pane {
        pane_id: 12,
        terminal_id: "term_2".into(),
        public_pane_id: Some("w1:p2".into()),
        tab: 0,
        seen: true,
    });
    let start = || RemoteAgentStart {
        agent: agent("term_far"),
        transport: transport(),
        delegation: delegation(TerminalDelegationStatus::Active),
        attach_argv: vec![],
        peer: Some(ssh_peer("remote")),
        bridge: Some(bridge("connection")),
    };
    assert_eq!(
        app.place_reacquired_pane(&record("term_far", "remote"), start(), Err("no pty".into())),
        Err("no pty".to_string())
    );
    assert_eq!(
        app.place_reacquired_pane(&record("term_far", "remote"), start(), Ok((0, 99))),
        Err("terminal disappeared after spawn".to_string())
    );
    app.place_reacquired_pane(&record("term_far", "remote"), start(), Ok((0, 12))).unwrap();
    assert!(app.remote_owner_presentations.contains("term_2"));
    assert!(app.is_connected("remote", "connection"));
    assert!(app
        .effects
        .rows
        .iter()
        .any(|effect| matches!(effect, Effect::ClosePane(id) if id == "w1:p1")));
}

#[test]
fn nothing_on_screen_means_a_new_workspace() {
    assert_eq!(App::new("h".into(), true).reacquire_slot(None), PaneSlot::NewWorkspace);
}

#[test]
fn a_used_placeholder_is_left_alone() {
    let mut app = app_showing_remote();
    app.close_reacquire_placeholder(&record("term_far", "remote"));
    assert!(app.effects.is_empty());
}

// ---------------------------------------------------------------------------
// Requests about agents

#[test]
fn requests_are_answered_where_the_agent_is() {
    let mut app = app_with_pane();
    app.peers.insert("remote".into(), ssh_peer("remote"));
    app.peer_bridges.push(("remote".into(), bridge("connection")));
    let get = |target: &str| Method::AgentGet(AgentTarget { target: target.into() });
    assert!(matches!(
        app.route_agent_request(get("worker"), LocalTarget::Found(here()), List::new()),
        Ok(AgentStep::Here(target)) if target.pane_id == PANE
    ));
    match app.route_agent_request(get("remote::worker"), LocalTarget::NotFound, List::new()) {
        Ok(AgentStep::Forward { peer, request }) => {
            assert_eq!(peer.id, "remote");
            assert!(matches!(
                request.method,
                Method::PeerAgentGet(t) if t.target == "worker"
            ));
        }
        _ => panic!("the peer answers"),
    }
    let error = app
        .route_agent_request(get("nobody"), LocalTarget::NotFound, List::new())
        .err()
        .expect("nobody by that name");
    assert_eq!(error.code, "agent_not_found");
    assert!(app.should_defer_peer_agent_request(
        &get("remote::worker"),
        LocalTarget::NotFound,
        List::new()
    ));
    assert!(!app.should_defer_peer_agent_request(
        &get("worker"),
        LocalTarget::Found(here()),
        List::new()
    ));
    let (peer, _) = app
        .prepare_peer_agent_request(
            Method::AgentSend(AgentSendParams {
                target: "remote::worker".into(),
                text: "go".into(),
            }),
            LocalTarget::NotFound,
            List::new(),
        )
        .unwrap_or_else(|_| panic!("the peer is known"));
    assert_eq!(peer.id, "remote");
}

fn start(peer: Option<&str>) -> AgentStartParams {
    AgentStartParams {
        name: "worker".into(),
        peer: peer.map(str::to_string),
        agent: None,
        cwd: None,
        workspace_id: None,
        tab_id: None,
        split: None,
        focus: false,
        argv: vec!["codex".into()],
        env: vec![],
        transport: None,
    }
}

#[test]
fn agents_are_started_here_unless_a_peer_is_named() {
    let app = app_with_pane();
    assert!(matches!(
        app.route_agent_request(
            Method::AgentStart(start(None)),
            LocalTarget::NotFound,
            List::new()
        ),
        Ok(AgentStep::StartHere)
    ));
    assert!(app
        .route_agent_request(
            Method::AgentStart(start(Some("nobody"))),
            LocalTarget::NotFound,
            List::new()
        )
        .is_err());
    assert!(handle_peer_agent_start(&start(None)).is_none());
    assert!(handle_peer_agent_start(&start(Some("third"))).is_some());
}

#[test]
fn a_forwarded_request_holds_its_owner() {
    let mut app = app_with_pane();
    app.peers.insert("remote".into(), ssh_peer("remote"));
    app.peer_bridges.push(("remote".into(), bridge("connection")));
    let method = || {
        Method::AgentAttachPrepare(AgentAttachPrepareParams {
            target: "remote::worker".into(),
            owner_pane_id: "w1:p1".into(),
            takeover: false,
        })
    };
    assert_eq!(
        app.peer_agent_request_owner_terminal(&method(), Some((0, PANE))).unwrap(),
        Some("term_1".to_string())
    );
    let asked = app
        .begin_peer_agent_request(
            method(),
            Some((0, PANE)),
            LocalTarget::NotFound,
            List::new(),
            true,
        )
        .unwrap_or_else(|_| panic!("the peer is known"))
        .expect("the request goes out");
    assert_eq!(asked.owner_terminal_id.as_deref(), Some("term_1"));
    assert!(app.terminal_has_downstream_presentation("term_1"));
    let error = app
        .handle_peer_agent_request_finished(
            &asked,
            Err("socket closed".into()),
            Err("".into()),
            Err("".into()),
        )
        .err()
        .expect("the peer did not answer");
    assert!(error.message.contains("socket closed"));
    assert!(!app.terminal_has_downstream_presentation("term_1"));

    app.begin_pending_owner_operation(&Some("term_1".into()));
    let error = app.abort_peer_agent_request(&Some("term_1".into()), "no thread");
    assert!(error.message.contains("no thread"));
    assert!(!app.pending_owner_operations.contains("term_1"));
}

#[test]
fn replies_nobody_waits_for_are_undone() {
    let mut app = app_showing_remote();
    app.register_pending_owner_activation(
        "term_1".into(),
        ssh_peer("remote"),
        "connection".into(),
        delegation(TerminalDelegationStatus::Pending),
        attach(),
        false,
    );
    let claim = TerminalDelegationClaim { delegation_id: "delegation".into(), epoch: 1 };
    assert!(app.awaits(&claim));
    app.cancel_pending_owner_activation("delegation");
    assert!(!app.awaits(&claim));
    app.abandon_peer_agent_reply(&Ok(ResponseResult::TerminalDelegation {
        delegation: delegation(TerminalDelegationStatus::Pending),
    }));
    assert!(app.pending_owner_activations.is_empty());
}

#[test]
fn an_activated_delegation_is_shown() {
    let mut app = app_with_pane();
    app.peer_bridges.push(("remote".into(), bridge("connection")));
    app.register_pending_owner_activation(
        "term_1".into(),
        ssh_peer("remote"),
        "connection".into(),
        delegation(TerminalDelegationStatus::Pending),
        attach(),
        false,
    );
    app.finish_pending_owner_activation("delegation", true, NOW);
    assert!(app.remote_owner_presentations.contains("term_1"));
    assert_eq!(app.next_remote_owner_deadline(), Some(NOW + REMOTE_OWNER_LEASE_MS));
    app.renew_remote_owner_lease("term_1", NOW + 5);
    assert_eq!(app.next_remote_owner_deadline(), Some(NOW + 5 + REMOTE_OWNER_LEASE_MS));
    app.release_remote_pane_bridge(PANE, NOW);
    assert!(!app.remote_owner_presentations.contains("term_1"));
}

#[test]
fn reads_are_bounded() {
    let params = |source, format, lines| AgentReadParams {
        target: "worker".into(),
        source,
        lines,
        format,
        strip_ansi: false,
    };
    assert_eq!(
        requested_text(&params(ReadSource::Recent, ReadFormat::Text, None)),
        PaneText::RecentText(80)
    );
    assert_eq!(
        requested_text(&params(ReadSource::RecentUnwrapped, ReadFormat::Ansi, Some(5_000))),
        PaneText::RecentUnwrappedAnsi(1_000)
    );
    assert_eq!(
        requested_text(&params(ReadSource::Detection, ReadFormat::Ansi, Some(3))),
        PaneText::DetectionText
    );
    let p = params(ReadSource::Visible, ReadFormat::Text, None);
    let read = handle_peer_agent_read(
        &p,
        Ok(Some(ReadPane {
            public_pane_id: None,
            workspace_id: "w1".into(),
            tab_id: "w1:t1".into(),
            text: "hello".into(),
        })),
    )
    .unwrap_or_else(|_| panic!("the pane was read"));
    assert_eq!(read.pane_id, "worker");
    assert_eq!(read.text, "hello");
    assert_eq!(handle_peer_agent_read(&p, Ok(None)).err().unwrap().code, "agent_not_found");
}

#[test]
fn sends_say_what_became_of_them() {
    assert!(handle_peer_agent_send("w", Ok(Some(Ok(())))).is_ok());
    assert_eq!(
        handle_peer_agent_send("w", Ok(Some(Err("full".into())))).err().unwrap().code,
        "agent_send_failed"
    );
    assert_eq!(handle_peer_agent_send("w", Ok(None)).err().unwrap().code, "agent_not_found");
}

#[test]
fn explanations_come_from_hooks_or_the_screen() {
    let mut app = app_with_pane();
    let pane = |running, known: Option<&str>| ExplainedPane {
        target: here(),
        running,
        state: "working".into(),
        known_agent: known.map(str::to_string),
    };
    assert!(matches!(
        app.handle_peer_agent_explain("w", Ok(pane(true, Some("codex")))),
        Ok(Explanation::FromScreen(agent)) if agent == "codex"
    ));
    assert_eq!(
        app.handle_peer_agent_explain("w", Ok(pane(true, None))).err().unwrap().code,
        "agent_explain_unavailable"
    );
    assert_eq!(
        app.handle_peer_agent_explain("w", Ok(pane(false, None))).err().unwrap().code,
        "agent_not_found"
    );
    let mut hooked = terminal();
    hooked.hook_authority = true;
    app.terminals.insert("term_1".into(), hooked);
    match app.handle_peer_agent_explain("w", Ok(pane(true, None))) {
        Ok(Explanation::Given(Json::Object(members))) => {
            assert!(matches!(&members[0].1, Json::Text(agent) if agent == "codex"));
            assert!(matches!(&members[1].1, Json::Text(state) if state == "working"));
        }
        _ => panic!("the hooks explain it"),
    }
}

#[test]
fn lists_hold_peers_where_they_are_wanted() {
    let app = app_with_pane();
    let mut locals = List::new();
    locals.push(agent("term_1"));
    assert_eq!(app.handle_agent_list(locals, &AgentListParams { include_peers: true }).len(), 1);
    assert!(peer_agent_list_value(Err("closed".into()), Ok(List::new())).is_err());
    assert!(peer_agent_duplicates_local_mirror(
        &agent("term_1"),
        &vec![],
        &vec!["term_1".into()]
    ));
    assert!(!peer_agent_duplicates_local_mirror(&agent("term_1"), &vec![], &vec![]));
    assert_eq!(
        agent_candidate_text(&agent("term_1")),
        "peer=local terminal_id=term_1 pane_id=w1:p1 workspace_id=w1 tab_id=w1:t1 cwd=unknown \
         status=Working"
    );
}

#[test]
fn tries_end_with_the_deadline() {
    assert_eq!(peer_try_timeout(0, 60_000), PEER_TRY_TIMEOUT_MS);
    assert_eq!(peer_try_timeout(500, 1_000), 500);
}

// ---------------------------------------------------------------------------
// Connections

fn connected() -> RemoteShellConnect {
    RemoteShellConnect {
        peer: ssh_peer("remote"),
        delegation: delegation(TerminalDelegationStatus::Pending),
        attach: attach(),
        bridge: bridge("connection"),
    }
}

#[test]
fn a_connection_joins_the_peers() {
    let mut app = app_with_pane();
    let owner = Some("term_1".to_string());
    let generation = app.begin_peer_connect_ssh("remote", &owner, true).expect("granted");
    assert!(app.pending_owner_operations.contains("term_1"));
    let joined = app
        .handle_peer_connect_ssh_finished("remote", generation, owner, Ok(connected()), NOW)
        .unwrap_or_else(|_| panic!("the connection was made"));
    assert_eq!(joined.connection_id, "connection");
    assert!(app.is_connected("remote", "connection"));
    assert!(app.has_sound_bridge("remote"));
    assert_eq!(
        app.latest_bridge("remote").map(|b| b.connection_id.as_str()),
        Some("connection")
    );
    assert!(app.next_ssh_shell_bridge_deadline().is_some());
    assert_eq!(app.handle_peer_list().len(), 1);
    app.handle_peer_disconnect_ssh(
        &PeerDisconnectSshParams {
            peer_id: "remote".into(),
            connection_id: "connection".into(),
            activated_delegation: None,
        },
        NOW,
    );
    assert!(!app.is_connected("remote", "connection"));
}

#[test]
fn parked_terminals_are_looked_for_on_unix() {
    for unix in [true, false] {
        let mut app = app_with_pane();
        app.unix = unix;
        app.handle_peer_connect_ssh(None, Ok(connected()), NOW)
            .unwrap_or_else(|_| panic!("the connection was made"));
        let asked =
            app.effects.rows.iter().any(|effect| matches!(effect, Effect::DiscoverParked(_)));
        assert_eq!(asked, unix);
    }
}

#[test]
fn a_connection_that_comes_too_late_is_stopped() {
    let mut app = app_with_pane();
    let generation = app.begin_peer_connect_ssh("remote", &None, true).expect("granted");
    let _ = app.handle_peer_unregister(&PeerTarget { peer_id: "remote".into() }, NOW);
    let error = app
        .handle_peer_connect_ssh_finished("remote", generation, None, Ok(connected()), NOW)
        .err()
        .expect("the peer was removed meanwhile");
    assert_eq!(error.code, "peer_connect_cancelled");
    assert!(app
        .effects
        .rows
        .iter()
        .any(|effect| matches!(effect, Effect::StopBridge { .. })));
    let error = app
        .handle_peer_connect_ssh_finished("remote", 1, None, Err("refused".into()), NOW)
        .err()
        .expect("no connection");
    assert_eq!(error.code, "ssh_peer_connect_failed");
    let error = app
        .handle_peer_connect_ssh_finished(
            "remote",
            1,
            Some("term_gone".into()),
            Ok(connected()),
            NOW,
        )
        .err()
        .expect("the owner closed");
    assert_eq!(error.code, "invalid_ssh_owner");
    let error = app.abort_peer_connect_ssh(&None, "no thread");
    assert!(error.message.contains("no thread"));
}

#[test]
fn a_connection_nobody_takes_is_given_up() {
    let mut app = app_with_pane();
    let joined = app
        .handle_peer_connect_ssh(Some("term_1".into()), Ok(connected()), NOW)
        .unwrap_or_else(|_| panic!("the connection was made"));
    app.abandon_peer_connection("delegation", &joined.peer.id, &joined.connection_id, NOW);
    assert!(!app.is_connected("remote", "connection"));
    assert!(app.pending_owner_activations.is_empty());
}

#[test]
fn health_is_asked_for_over_the_wire() {
    let mut app = app_with_pane();
    let target = PeerTarget { peer_id: "remote".into() };
    assert_eq!(app.begin_peer_health(&target, true).err().unwrap().code, "peer_not_found");
    app.peers.insert("remote".into(), ssh_peer("remote"));
    let (peer, generation, request) = app
        .begin_peer_health(&target, true)
        .unwrap_or_else(|_| panic!("the peer is known"))
        .expect("granted");
    assert_eq!(peer.id, "remote");
    assert_eq!(generation, 0);
    assert_eq!(request.id, app.peer_health_request("remote").id);
    let sick = app
        .handle_peer_health(&target, &Err("timed out".into()))
        .unwrap_or_else(|_| panic!("the peer is known"));
    assert_eq!(sick.status, PeerStatus::Disconnected);
    assert!(App::abort_peer_health("no thread").message.contains("no thread"));
    assert!(same_transport(&ssh_peer("a").transport, &ssh_peer("b").transport));
}

#[test]
fn refreshes_are_numbered() {
    let mut app = app_with_pane();
    app.start_peer_refresh(ssh_peer("remote"));
    let first = *app.peer_refresh_generations.get("remote").unwrap();
    app.start_peer_refresh(ssh_peer("remote"));
    assert!(*app.peer_refresh_generations.get("remote").unwrap() > first);
    app.renew_incoming_peer_lease("remote", NOW);
    assert!(app
        .next_incoming_peer_deadline()
        .is_none_or(|deadline| deadline == NOW + INCOMING_PEER_LEASE_MS));
}

#[test]
fn shutting_down_lets_go_of_everything() {
    let mut app = app_showing_remote();
    app.shutdown_outbound_owner_terminals(&vec!["term_1".into()], NOW);
    assert!(!app.remote_owner_presentations.contains("term_1"));
    app.shutdown_peer_runtime(NOW);
    assert!(!app.is_connected("remote", "connection"));
}

#[test]
fn owners_are_panes_of_this_host() {
    let app = app_with_pane();
    assert_eq!(app.resolve_ssh_owner_terminal(&None, None).unwrap(), None);
    assert_eq!(
        app.resolve_ssh_owner_terminal(&Some("w1:p1".into()), Some((0, PANE))).unwrap(),
        Some("term_1".to_string())
    );
}

#[test]
fn names_are_sorted() {
    let names: Vec<String> = ["b", "a", "c"].iter().map(|s| s.to_string()).collect();
    assert_eq!(sort_names(&names), ["a", "b", "c"]);
}

// ---------------------------------------------------------------------------
// Recovery and parked terminals

fn recovery(id: &str) -> TerminalRecoveryInfo {
    TerminalRecoveryInfo {
        remote_terminal_id: id.into(),
        peer_id: "remote".into(),
        status: TerminalRecoveryStatus::Pending,
        message: None,
    }
}

#[test]
fn recoveries_are_told_on_unix() {
    assert_eq!(handle_terminal_recovery_list(true, vec![recovery("a")]).unwrap().len(), 1);
    let target = TerminalRecoveryTarget { remote_terminal_id: "a".into() };
    assert!(handle_terminal_recovery_status(true, &target, Some(recovery("a"))).is_ok());
    let missing = handle_terminal_recovery_status(true, &target, None).err().unwrap();
    assert!(missing.message.contains('a'));
    assert!(handle_terminal_recovery_retry(true, Ok(recovery("a"))).is_ok());
    assert!(handle_terminal_recovery_discard(true, Ok(())).is_ok());
    for code in [
        handle_terminal_recovery_list(false, vec![]).err().unwrap().code,
        handle_terminal_recovery_status(false, &target, None).err().unwrap().code,
        handle_terminal_recovery_retry(false, Ok(recovery("a"))).err().unwrap().code,
        handle_terminal_recovery_discard(false, Ok(())).err().unwrap().code,
    ] {
        assert_eq!(code, "unsupported_platform");
    }
}

#[test]
fn parked_terminals_are_resolved() {
    let promoted = || ParkedOutcome::Promoted(Ok(delegation(TerminalDelegationStatus::Pending)));
    let asked = |action: Action, to_owner: bool| TerminalParkedResolveParams {
        park_id: "park".into(),
        origin_id: "origin".into(),
        discovery_token: "token".into(),
        action,
        owner: if to_owner { Some(delegation(TerminalDelegationStatus::Pending).owner) } else { None },
    };
    assert!(matches!(
        handle_terminal_parked_resolve(&asked(Action::Promote, true), None, promoted()),
        Ok(ParkedReply::Resumed(prepared)) if prepared.agent.is_none()
    ));
    let to_nobody = asked(Action::Promote, false);
    assert!(matches!(
        handle_terminal_parked_resolve(&to_nobody, Some(agent("term_far")), promoted()),
        Ok(ParkedReply::Delegated(_))
    ));
    let terminate = asked(Action::Terminate, false);
    assert!(matches!(
        handle_terminal_parked_resolve(&terminate, None, ParkedOutcome::Terminated(Ok(()))),
        Ok(ParkedReply::Done)
    ));
    let gone = || ErrorBody::new("gone", "gone");
    let retain = asked(Action::Retain, false);
    assert!(handle_terminal_parked_resolve(&retain, None, ParkedOutcome::Retained(Err(gone())))
        .is_err());
    assert!(matches!(
        handle_terminal_parked_admin_resolve(promoted()),
        Ok(ParkedReply::Delegated(_))
    ));
    assert!(matches!(
        parked_admin_operation(Ok(()), &Action::Promote),
        Ok(ParkedOperation::Promote { to_owner: false })
    ));
    assert!(parked_admin_operation(Err(gone()), &Action::Retain).is_err());
    assert!(matches!(parked_operation(&retain), ParkedOperation::Retain));
    assert!(matches!(parked_operation(&terminate), ParkedOperation::Terminate));
    assert!(matches!(
        parked_operation(&to_nobody),
        ParkedOperation::Promote { to_owner: false }
    ));
    assert!(matches!(
        parked_operation(&asked(Action::Promote, true)),
        ParkedOperation::Promote { to_owner: true }
    ));
    assert!(handle_terminal_parked_resume(None, Err(gone())).is_err());
    let prepared = handle_terminal_parked_resume(
        Some(agent("term_far")),
        Ok(delegation(TerminalDelegationStatus::Pending)),
    )
    .unwrap_or_else(|_| panic!("the terminal was prepared"));
    assert_eq!(prepared.agent.map(|a| a.terminal_id), Some("term_far".to_string()));
}

#[test]
fn administrators_need_the_token() {
    assert!(authorize_parked_admin(true, &Ok(true)).is_ok());
    for (unix, token, code) in [
        (false, Ok(true), "unsupported_platform"),
        (true, Ok(false), "terminal_parked_admin_unauthorized"),
        (true, Err("unreadable".to_string()), "terminal_parked_admin_unavailable"),
    ] {
        assert_eq!(authorize_parked_admin(unix, &token).err().unwrap().code, code);
    }
}
