use std::path::Path;

use herdr::api::peer_socket::{
    derive_peer_socket_path_with_temp_dir, opaque_peer_socket_id, peer_socket_instance_id,
    rotate_last_basename_char, FALLBACK_PEER_HASH_CHARS, MAX_UNIX_SOCKET_PATH_BYTES,
};
use herdr::api::schema::agents::AgentListParams;
use herdr::api::schema::common::{
    AgentStatus, EventMatch, Method, OutputMatch, PaneReadResult, PaneWaitForOutputParams,
    ReadFormat, ReadSource, Request, Subscription,
};
use herdr::api::schema::peers::{
    TerminalDelegateParkParams, TerminalDelegationTarget, TerminalParkedAdminListParams,
    TerminalParkedAdminResolveParams, TerminalParkedListParams, TerminalParkedResolveAction,
    TerminalParkedResolveParams, TerminalParkedResumeParams, TerminalParkedTarget,
    TerminalPresentationOwner,
};
use herdr::api::schema::recovery::{TerminalRecoveryInfo, TerminalRecoveryStatus};
use herdr::api::wait::{
    begin_output_wait, event_match_subscriptions, look_at_reply, match_output, output_wait_read,
    wait_for_event, wait_for_output, wait_matched_response, MatchedEvent, OutputWait, PaneReply,
    StatusChange, MAX_EVENT_WAIT_AGENT_STATUSES,
};
use herdr::api::{peer_socket_path, request_changes_ui, socket_path, ServerEnv};
use herdr::json::Json;

fn derive_peer_socket_path(api_path: &str, instance_id: &str) -> String {
    derive_peer_socket_path_with_temp_dir(api_path, instance_id, "/tmp", true)
}

fn file_name_len(path: &str) -> Option<usize> {
    Path::new(path).file_name().and_then(|name| name.to_str()).map(str::len)
}

#[test]
fn peer_socket_path_is_compact_deterministic_and_identity_scoped() {
    let api_path = "/tmp/herdr.sock";
    let derived = derive_peer_socket_path(api_path, "123-abc");

    assert_eq!(derived, derive_peer_socket_path(api_path, "123-abc"));
    assert_eq!(Path::new(&derived).parent(), Path::new(api_path).parent());
    assert_ne!(derived, api_path);
    assert!(derived.len() <= api_path.len());
    assert_ne!(derived, derive_peer_socket_path(api_path, "456-def"));
    assert_ne!(derived, derive_peer_socket_path("/tmp/other.sock", "123-abc"));
}

#[test]
fn peer_socket_path_uses_compact_temp_fallback_for_overlong_parent() {
    let long_parent = "p".repeat(MAX_UNIX_SOCKET_PATH_BYTES + 1);
    let api_path = format!("{long_parent}/herdr.sock");
    let derived = derive_peer_socket_path_with_temp_dir(&api_path, "123-abc", "/var/tmp", true);

    assert_eq!(Path::new(&derived).parent(), Some(Path::new("/var/tmp")));
    assert_ne!(derived, api_path);
    assert!(derived.len() <= MAX_UNIX_SOCKET_PATH_BYTES);
    assert_eq!(file_name_len(&derived), Some("hp-".len() + FALLBACK_PEER_HASH_CHARS));
    assert_ne!(
        derived,
        derive_peer_socket_path_with_temp_dir(&api_path, "456-def", "/var/tmp", true)
    );
    assert_ne!(
        derived,
        derive_peer_socket_path_with_temp_dir(
            &format!("{long_parent}/other.sock"),
            "123-abc",
            "/var/tmp",
            true
        )
    );
}

#[test]
fn peer_socket_path_uses_full_fallback_entropy_for_short_api_basename() {
    let api_path = "/tmp/a";
    let derived = derive_peer_socket_path_with_temp_dir(api_path, "123-abc", "/tmp", true);

    assert_ne!(derived, api_path);
    assert_eq!(file_name_len(&derived), Some("hp-".len() + FALLBACK_PEER_HASH_CHARS));
}

#[test]
fn peer_socket_path_uses_canonical_tmp_when_configured_temp_is_too_long() {
    let long_parent = format!("/{}", "p".repeat(MAX_UNIX_SOCKET_PATH_BYTES));
    let api_path = format!("{long_parent}/herdr.sock");
    let long_temp = format!("/{}", "t".repeat(MAX_UNIX_SOCKET_PATH_BYTES));
    let derived = derive_peer_socket_path_with_temp_dir(&api_path, "123-abc", &long_temp, true);

    assert_eq!(Path::new(&derived).parent(), Some(Path::new("/tmp")));
    assert!(derived.len() <= MAX_UNIX_SOCKET_PATH_BYTES);
}

#[test]
fn the_bare_name_is_left_where_no_directory_will_do() {
    let api_path = format!("/{}/herdr.sock", "p".repeat(MAX_UNIX_SOCKET_PATH_BYTES));
    let long_temp = format!("/{}", "t".repeat(MAX_UNIX_SOCKET_PATH_BYTES));
    let derived = derive_peer_socket_path_with_temp_dir(&api_path, "123-abc", &long_temp, false);
    assert!(derived.starts_with("hp-"));
    assert_eq!(derived.len(), "hp-".len() + FALLBACK_PEER_HASH_CHARS);
    assert_ne!(derived, api_path);
    let unix = derive_peer_socket_path_with_temp_dir(&api_path, "123-abc", &long_temp, true);
    assert_eq!(unix, format!("/tmp/{derived}"));

    // A name of its own kind makes room beside it.
    let own = "hp-AAAAAAAAAAAAAAAA";
    let derived = derive_peer_socket_path_with_temp_dir(own, "123-abc", &long_temp, false);
    assert_eq!(derived.len(), 10);
    assert_ne!(derived, own);
}

#[test]
fn peer_socket_ids_are_url_safe_digests() {
    let id = opaque_peer_socket_id("/tmp/herdr.sock", "123-abc");
    assert_eq!(id, "kILZp1G4u03qpLWARGchzIkzbIB5SQaEj9lM4mdNdKI");
    assert_eq!(id.len(), 43);
    assert!(id.bytes().all(|b| b.is_ascii_alphanumeric() || b == b'-' || b == b'_'));
    assert_ne!(id, opaque_peer_socket_id("/tmp/herdr.soc", "k123-abc"));
}

#[test]
fn instance_ids_are_hexadecimal() {
    assert_eq!(peer_socket_instance_id(0x1f, 0xabc), "1f-abc");
    assert_eq!(peer_socket_instance_id(0, 0), "0-0");
    assert_eq!(peer_socket_instance_id(1, 1 << 64), "1-10000000000000000");
}

#[test]
fn a_rotated_basename_differs_in_its_last_character() {
    assert_eq!(rotate_last_basename_char("abc"), "ab-");
    assert_eq!(rotate_last_basename_char("ab-"), "ab_");
    assert_eq!(rotate_last_basename_char(""), "");
}

#[test]
fn a_server_listens_on_two_sockets() {
    let env = ServerEnv {
        api_socket_path: "/run/herdr/herdr.sock".into(),
        temp_dir: "/tmp".into(),
        pid: 7,
        started_nanos: 9,
        unix: true,
    };
    assert_eq!(socket_path(&env), "/run/herdr/herdr.sock");
    let peer = peer_socket_path(&env);
    assert_ne!(peer, "/run/herdr/herdr.sock");
    assert_eq!(
        peer,
        derive_peer_socket_path_with_temp_dir("/run/herdr/herdr.sock", "7-9", "/tmp", true)
    );
}

#[test]
fn only_requests_that_change_the_screen_redraw_it() {
    let redraws = Request { id: "1".into(), method: Method::PaneSplit(Json::Null) };
    let reads = Request { id: "2".into(), method: Method::PaneList(Json::Null) };
    assert!(request_changes_ui(&redraws));
    assert!(!request_changes_ui(&reads));
}

#[test]
fn agent_list_defaults_to_local_agents() {
    assert!(!AgentListParams::default().include_peers);
}

#[test]
fn agent_status_match_any_deduplicates_filters() {
    let subscriptions = event_match_subscriptions(
        "wait",
        EventMatch::PaneAgentStatusChangedAny {
            pane_id: "pane_1".into(),
            agent_statuses: vec![AgentStatus::Idle, AgentStatus::Done, AgentStatus::Idle],
        },
    )
    .expect("valid match-any filter");

    let expected = vec![
        Subscription::PaneAgentStatusChanged {
            pane_id: "pane_1".into(),
            agent_status: Some(AgentStatus::Idle),
        },
        Subscription::PaneAgentStatusChanged {
            pane_id: "pane_1".into(),
            agent_status: Some(AgentStatus::Done),
        },
    ];
    assert_eq!(format!("{subscriptions:?}"), format!("{expected:?}"));
}

#[test]
fn agent_status_match_any_rejects_empty_and_oversized_filters() {
    let empty = event_match_subscriptions(
        "empty",
        EventMatch::PaneAgentStatusChangedAny {
            pane_id: "pane_1".into(),
            agent_statuses: Vec::new(),
        },
    )
    .expect_err("empty match-any filter should fail");
    assert_eq!(empty.error.code, "invalid_event_wait_match");

    let oversized = event_match_subscriptions(
        "oversized",
        EventMatch::PaneAgentStatusChangedAny {
            pane_id: "pane_1".into(),
            agent_statuses: vec![AgentStatus::Idle; MAX_EVENT_WAIT_AGENT_STATUSES + 1],
        },
    )
    .expect_err("oversized match-any filter should fail");
    assert_eq!(oversized.error.code, "invalid_event_wait_match");
}

#[test]
fn other_events_cannot_be_waited_for() {
    let err = event_match_subscriptions("other", EventMatch::Other(Json::Null))
        .expect_err("only status changes can be awaited");
    assert_eq!(err.id, "other");
    assert_eq!(err.error.code, "unsupported_event_wait_match");
}

fn output_wait(matcher: OutputMatch) -> PaneWaitForOutputParams {
    PaneWaitForOutputParams {
        pane_id: "p1".into(),
        source: ReadSource::Recent,
        lines: Some(40),
        matcher,
        timeout_ms: None,
        strip_ansi: true,
    }
}

fn read_of(text: &str) -> PaneReadResult {
    PaneReadResult {
        pane_id: "p1".into(),
        workspace_id: "w1".into(),
        tab_id: "t1".into(),
        source: ReadSource::Recent,
        format: ReadFormat::Text,
        text: text.into(),
        revision: 3,
        truncated: false,
    }
}

fn reading(text: &str) -> Option<PaneReadResult> {
    Some(read_of(text))
}

#[test]
fn a_pattern_matches_within_one_line() {
    let matcher = OutputMatch::Regex { value: "^b.d$".into() };
    assert!(begin_output_wait("w", &output_wait(OutputMatch::Regex { value: "^b.d$".into() })).is_ok());
    assert_eq!(match_output("abc\r\nbad\r\nbed\n", &matcher), Some("bad".into()));
    assert_eq!(match_output("abad\nb\nd", &matcher), None);
}

#[test]
fn a_substring_is_found_in_the_first_line_that_holds_it() {
    let matcher = OutputMatch::Substring { value: "ok".into() };
    assert_eq!(match_output("one\ntwo ok\nok", &matcher), Some("two ok".into()));
    assert_eq!(match_output("o\nk", &matcher), None);
}

#[test]
fn a_pattern_that_does_not_compile_ends_the_wait() {
    let params = output_wait(OutputMatch::Regex { value: "(".into() });
    let err = begin_output_wait("w", &params).expect_err("unclosed group");
    assert_eq!(err.error.code, "invalid_regex");
    assert!(err.error.message.contains("unclosed group"));
    match wait_for_output("w", &params, "{}".into(), reading("x"), None, 0) {
        OutputWait::Failed(err) => assert_eq!(err.error.code, "invalid_regex"),
        _ => panic!("the wait goes on"),
    }
}

#[test]
fn a_wait_for_output_matches_or_waits_or_times_out() {
    let params = output_wait(OutputMatch::Substring { value: "done".into() });
    match wait_for_output("w", &params, "{}".into(), reading("a\nall done\n"), Some(5), 9) {
        OutputWait::Matched { read, matched_line } => {
            assert_eq!(read.revision, 3);
            assert_eq!(matched_line, "all done");
        }
        _ => panic!("a line matches"),
    }
    assert!(matches!(
        wait_for_output("w", &params, "{}".into(), reading("a"), Some(5), 4),
        OutputWait::Pending
    ));
    match wait_for_output("w", &params, "{}".into(), reading("a"), Some(5), 5) {
        OutputWait::Failed(err) => {
            assert_eq!(err.id, "w");
            assert_eq!(err.error.code, "timeout");
        }
        _ => panic!("the deadline has passed"),
    }
}

#[test]
fn errors_of_the_read_end_a_wait_under_its_own_id() {
    let params = output_wait(OutputMatch::Substring { value: "done".into() });
    let look = |reply: &str, read: Option<PaneReadResult>| {
        wait_for_output("mine", &params, reply.into(), read, None, 0)
    };
    let failed = r#"{ "id": "mine:read",
        "error": {"code":"pane_not_found","message":"gone","hint":"look again"} }"#;
    match look(failed, None) {
        OutputWait::Passed(reply) => {
            let value: serde_json::Value = serde_json::from_str(&reply).unwrap();
            assert_eq!(value["id"], "mine");
            assert_eq!(value["error"]["code"], "pane_not_found");
            assert_eq!(value["error"]["message"], "gone");
            assert_eq!(value["error"]["hint"], "look again");
        }
        _ => panic!("the read failed"),
    }
    match look("null", None) {
        OutputWait::Failed(err) => {
            assert_eq!(err.id, "mine");
            assert_eq!(err.error.code, "internal_error");
            assert_eq!(err.error.message, "failed to decode pane read result");
        }
        _ => panic!("the read cannot be decoded"),
    }
    match look("{oops", None) {
        OutputWait::Passed(reply) => assert_eq!(reply, "{oops"),
        _ => panic!("what is not JSON is handed on"),
    }
}

#[test]
fn a_reply_that_was_read_is_judged_alike() {
    let params = output_wait(OutputMatch::Substring { value: "done".into() });
    let error = || Json::Object(vec![("error".into(), Json::Null)]);
    let failed = PaneReply::Value { value: error(), read: reading("done") };
    match look_at_reply("mine", &params, failed, None, 0) {
        OutputWait::Refused(value) => assert_eq!(value.text_member("id"), Some("mine")),
        _ => panic!("the read failed"),
    }
    let shown = PaneReply::Value { value: Json::Null, read: reading("done") };
    assert!(matches!(
        look_at_reply("mine", &params, shown, None, 0),
        OutputWait::Matched { .. }
    ));
    assert!(matches!(
        look_at_reply("mine", &params, PaneReply::Text("oops".into()), None, 0),
        OutputWait::Passed(reply) if reply == "oops"
    ));
}

#[test]
fn a_wait_reads_plain_text() {
    let params = output_wait(OutputMatch::Substring { value: "done".into() });
    let read = output_wait_read(&params, ReadSource::RecentUnwrapped);
    assert_eq!(read.pane_id, "p1");
    assert_eq!(read.source, ReadSource::RecentUnwrapped);
    assert_eq!(read.lines, Some(40));
    assert_eq!(read.format, ReadFormat::Text);
    assert!(read.strip_ansi);
}

#[test]
fn an_event_wait_ends_with_a_match_or_at_its_deadline() {
    assert!(matches!(wait_for_event("w", true, Some(1), 9), Some(Ok(()))));
    assert!(wait_for_event("w", false, Some(10), 9).is_none());
    assert!(wait_for_event("w", false, None, 9).is_none());
    match wait_for_event("w", false, Some(9), 9) {
        Some(Err(err)) => assert_eq!(err.error.code, "timeout"),
        _ => panic!("the deadline has passed"),
    }
}

#[test]
fn a_matched_event_is_answered_with_the_change() {
    let change = StatusChange {
        pane_id: "p1".into(),
        workspace_id: "w1".into(),
        agent_status: AgentStatus::Done,
        agent: Some("codex".into()),
        title: None,
        display_agent: None,
        custom_status: Some("waiting".into()),
        state_labels: vec![("a".into(), "b".into())],
    };
    let answer = wait_matched_response("r", MatchedEvent::StatusChanged(change)).unwrap();
    assert_eq!(answer.agent_status, AgentStatus::Done);
    assert_eq!(answer.custom_status.as_deref(), Some("waiting"));
    let other = wait_matched_response("r", MatchedEvent::Other).unwrap_err();
    assert_eq!(other.error.code, "unsupported_event_wait_match");
    let broken = wait_matched_response("r", MatchedEvent::Undecodable).unwrap_err();
    assert_eq!(broken.error.code, "internal_error");
    assert_eq!(broken.error.message, "failed to decode matched event");
}

fn owner() -> TerminalPresentationOwner {
    TerminalPresentationOwner {
        peer_id: "desk".into(),
        pane_id: "p9".into(),
        route: vec!["desk".into(), "hub".into()],
    }
}

#[test]
fn secrets_are_not_shown() {
    let park = TerminalDelegateParkParams {
        target: TerminalDelegationTarget { delegation_id: "d\"1".into(), epoch: 4 },
        park_id: "park".into(),
        origin_id: "origin".into(),
        resume_token: "s3cret".into(),
        discovery_token: "hidden".into(),
    };
    assert_eq!(
        park.redacted(),
        "TerminalDelegateParkParams { target: TerminalDelegationTarget { delegation_id: \"d\\\"1\", \
         epoch: 4 }, park_id: \"park\", origin_id: \"origin\", resume_token: \"[redacted]\", \
         discovery_token: \"[redacted]\" }"
    );
    let resume = TerminalParkedResumeParams {
        target: TerminalParkedTarget {
            park_id: "park".into(),
            origin_id: "origin".into(),
            resume_token: "s3cret".into(),
        },
        owner: owner(),
    };
    assert_eq!(
        resume.redacted(),
        "TerminalParkedResumeParams { target: TerminalParkedTarget { park_id: \"park\", \
         origin_id: \"origin\", resume_token: \"[redacted]\" }, owner: TerminalPresentationOwner { \
         peer_id: \"desk\", pane_id: \"p9\", route: [\"desk\", \"hub\"] } }"
    );
    let list = TerminalParkedListParams {
        origin_id: "origin".into(),
        discovery_token: "hidden".into(),
    };
    assert_eq!(
        list.redacted(),
        "TerminalParkedListParams { origin_id: \"origin\", discovery_token: \"[redacted]\" }"
    );
    let resolve = TerminalParkedResolveParams {
        park_id: "park".into(),
        origin_id: "origin".into(),
        discovery_token: "hidden".into(),
        action: TerminalParkedResolveAction::Promote,
        owner: Some(owner()),
    };
    assert_eq!(
        resolve.redacted(),
        "TerminalParkedResolveParams { park_id: \"park\", origin_id: \"origin\", discovery_token: \
         \"[redacted]\", action: Promote, owner: Some(TerminalPresentationOwner { peer_id: \
         \"desk\", pane_id: \"p9\", route: [\"desk\", \"hub\"] }) }"
    );
    let admin = TerminalParkedAdminListParams { admin_token: "s3cret".into() };
    assert_eq!(
        admin.redacted(),
        "TerminalParkedAdminListParams { admin_token: \"[redacted]\" }"
    );
    let admin_resolve = TerminalParkedAdminResolveParams {
        park_id: "park".into(),
        admin_token: "s3cret".into(),
        action: TerminalParkedResolveAction::Retain,
    };
    assert_eq!(
        admin_resolve.redacted(),
        "TerminalParkedAdminResolveParams { park_id: \"park\", admin_token: \"[redacted]\", \
         action: Retain }"
    );
}

#[test]
fn recovery_records_are_copied_whole() {
    let info = TerminalRecoveryInfo {
        remote_terminal_id: "terminal-a".into(),
        peer_id: "peer-a".into(),
        status: TerminalRecoveryStatus::TimedOut,
        message: Some("connection timed out".into()),
    };
    assert_eq!(format!("{:?}", info.clone()), format!("{info:?}"));
}
