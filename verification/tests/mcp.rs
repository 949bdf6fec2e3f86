use herdr::api::schema::agents::{AgentInfo, AgentSendParams};
use herdr::api::schema::common::{
    AgentStatus, EventMatch, EventsWaitParams, Method, PaneReadResult, PaneSendInputParams,
    PaneTarget, ReadFormat, ReadSource,
};
use herdr::desktop_mcp::flows::{
    after_input, after_lookup, after_prune, check_pane, herdr_stop_cli, interrupt_input,
    live_markers, match_marker, preflight, Creating, Found, InputOutcome, Lookup, PaneCheck, Reply,
    ReplyValue, StopEvent, StopNext, StopState,
};
use herdr::desktop_mcp::launch::{
    active_identity, herdr_launch_cli, presence_request, FindEvent, FindNext, FindState,
    LaunchEvent, LaunchNext, LaunchState,
};
use herdr::desktop_mcp::params::{
    control_result_limit, DestructiveActionParams, InspectParams, PaneControlParams,
    PeerControlParams, WaitParams, WAIT_ENVELOPE_MS,
};
use herdr::desktop_mcp::read::{check_result_size, longest_fitting_tail, truncate_utf8_tail};
use herdr::desktop_mcp::results::{
    check_argument_size, dispatch_control_method, drain_fits, herdr_drain_messages,
    herdr_snapshot, input_tool_result, interrupt_tool_result, named_value, parse_control_params,
    result_len, serialized_tool_result_len, stop_tool_result, success, ToolResult,
};
use herdr::desktop_mcp::tools::{
    ack_tool_result, bounded_pane_answer, bounded_read, bounded_text_read_result,
    drain_tool_result, herdr_health, herdr_read_pane, launch_tool_result, pane_read_tool_result,
    BridgeFacts, ReadPaneParams, ServerVersion,
};
use herdr::desktop_mcp::validate::{
    normalize_wait_timeout, validate_drain, validate_launch, validate_local_agent_target,
    validate_opaque_id, validate_read_pane, validate_remote_agent_target, validate_send_input,
    LaunchCliParams, McpSplit, SendInputParams, DEFAULT_WAIT_MS, MAX_WAIT_MS,
};
use herdr::desktop_mcp::{
    api_error, check_tool_access, queue_error, random_control_client_id, remap_rejection,
    require_compatible, unexpected_result, AccessMode, BridgeError, ClientError, Details,
    PANE_READ_MAX_BYTES, QUEUE_DRAIN_MAX_BYTES, REQUIRED_PROTOCOL,
};
use herdr::desktop_queue::{
    AckResult, ChannelHandle, CliIdentity, CliState, DrainResult, QueueError, QueueErrorKind,
    QueuedMessage,
};
use herdr::json::{is_shallow, Json};

const RESTRICTED_TOOL_NAMES: [&str; 10] = [
    "herdr_ack_messages",
    "herdr_drain_messages",
    "herdr_health",
    "herdr_interrupt_cli",
    "herdr_launch_cli",
    "herdr_pane_process_info",
    "herdr_read_pane",
    "herdr_send_input",
    "herdr_snapshot",
    "herdr_stop_cli",
];

const FULL_CONTROL_TOOL_NAMES: [&str; 11] = [
    "herdr_agent_control",
    "herdr_destructive_action",
    "herdr_inspect",
    "herdr_layout_control",
    "herdr_pane_control",
    "herdr_peer_control",
    "herdr_recovery_control",
    "herdr_tab_control",
    "herdr_wait",
    "herdr_workspace_control",
    "herdr_worktree_control",
];

fn encoded(value: &Json) -> serde_json::Value {
    match value {
        Json::Null => serde_json::Value::Null,
        Json::Bool(b) => serde_json::Value::Bool(*b),
        Json::Number(n) => serde_json::from_str(n).unwrap(),
        Json::Text(s) => serde_json::Value::String(s.clone()),
        Json::Array(items) => serde_json::Value::Array(items.iter().map(encoded).collect()),
        Json::Object(members) => serde_json::Value::Object(
            members.iter().map(|(name, member)| (name.clone(), encoded(member))).collect(),
        ),
    }
}

/// The whole answer: the structured value, and the same value as text.
fn tool_result(value: &serde_json::Value) -> rmcp::model::CallToolResult {
    rmcp::model::CallToolResult::structured(value.clone())
}

fn assert_text_mirrors_structured(result: &ToolResult) {
    let value = encoded(&result.value);
    let mirrored = serde_json::to_value(tool_result(&value)).unwrap();
    let text = mirrored["content"][0]["text"].as_str().expect("text content");
    assert_eq!(serde_json::from_str::<serde_json::Value>(text).unwrap(), value);
    assert_eq!(mirrored["structuredContent"], value);
}

fn at<'a>(value: &'a Json, path: &[&str]) -> &'a Json {
    let mut found = value;
    for name in path {
        found = found.get(name).expect("member");
    }
    found
}

fn launch_params() -> LaunchCliParams {
    LaunchCliParams {
        name: "codex".into(),
        argv: vec!["codex".into(), "--help".into()],
        cwd: "/work".into(),
        env: vec![],
        workspace_id: None,
        tab_id: None,
        split: McpSplit::Right,
    }
}

#[test]
fn launch_validation_rejects_shell_like_and_reserved_inputs() {
    let mut params = launch_params();
    assert!(validate_launch(&params, false, true).is_ok());

    params.env.push(("HERDR_DESKTOP_CLI_ID".into(), "forged".into()));
    assert!(validate_launch(&params, false, true).is_err());
    params.env.clear();
    params.argv[0] = "./codex".into();
    assert!(validate_launch(&params, false, true).is_err());
    params.argv[0] = "codex".into();
    params.cwd = "relative".into();
    assert!(validate_launch(&params, false, true).is_err());
}

#[test]
fn a_launch_needs_a_directory() {
    assert!(validate_launch(&launch_params(), false, false).is_err());
    let mut params = launch_params();
    params.argv.clear();
    assert!(validate_launch(&params, false, true).is_err());
    let mut absolute = launch_params();
    absolute.argv[0] = "/usr/bin/codex".into();
    assert!(validate_launch(&absolute, true, true).is_ok());
    assert!(validate_launch(&absolute, false, true).is_err());
}

#[test]
fn send_input_requires_exactly_one_mode() {
    let neither = SendInputParams { cli_id: "cli".into(), text: None, keys: None };
    assert!(validate_send_input(&neither).is_err());
    let both = SendInputParams {
        cli_id: "cli".into(),
        text: Some("hello".into()),
        keys: Some(vec!["enter".into()]),
    };
    assert!(validate_send_input(&both).is_err());
    let one = SendInputParams { cli_id: "cli".into(), text: Some("hello".into()), keys: None };
    assert!(validate_send_input(&one).is_ok());
}

#[test]
fn utf8_tail_cap_preserves_character_boundaries() {
    let mut text = "start 🦥 end".to_string();
    assert!(truncate_utf8_tail(&mut text, 6));
    assert!(text.len() <= 6);
    assert!(text.is_char_boundary(0));
    assert!(text.ends_with(" end"));
}

#[test]
fn structured_results_include_json_text_content() {
    let ok = success(named_value("answer", Json::Number("42".into())));
    assert!(!ok.is_error);
    assert_text_mirrors_structured(&ok);
    let value = encoded(&ok.value);
    assert_eq!(value["ok"], serde_json::Value::Bool(true));
    assert_eq!(value["data"]["answer"].as_u64(), Some(42));

    let error = BridgeError::new("example", "failed", false).result();
    assert_text_mirrors_structured(&error);
    assert!(error.is_error);
    assert_eq!(encoded(&error.value)["error"]["code"].as_str(), Some("example"));
}

fn pane_read(text: &str) -> PaneReadResult {
    PaneReadResult {
        pane_id: "pane-1".into(),
        workspace_id: "workspace-1".into(),
        tab_id: "tab-1".into(),
        source: ReadSource::Recent,
        format: ReadFormat::Text,
        text: text.into(),
        revision: 1,
        truncated: true,
    }
}

#[test]
fn text_read_cap_measures_the_complete_serialized_result() {
    let read = pane_read(&format!("old{}new-tail", "\\\"".repeat(512)));
    let unbounded = pane_read_tool_result(&read);
    let unbounded_len = serialized_tool_result_len(&unbounded).unwrap();
    let max_bytes = unbounded_len / 2;
    let bounded = bounded_text_read_result(&read, max_bytes)
        .unwrap()
        .expect("metadata fits within cap");
    assert!(serialized_tool_result_len(&bounded).unwrap() <= max_bytes);
    assert_text_mirrors_structured(&bounded);
    let value = encoded(&bounded.value);
    let text = value["data"]["read"]["text"].as_str().expect("read text");
    assert!(text.ends_with("new-tail"));
    assert!(!text.starts_with("old"));
    let longer = pane_read(&read.text[read.text.len() - text.len() - 1..]);
    let longer_len = serialized_tool_result_len(&pane_read_tool_result(&longer)).unwrap();
    assert!(longer_len > max_bytes);
    assert!(bounded_text_read_result(&read, 20).unwrap().is_none());
}

#[test]
fn a_size_is_that_of_the_whole_answer() {
    let answer = success(Json::Null);
    let whole = r#"{"content":[{"type":"text","text":"{\"data\":null,\"ok\":true}"}],"structuredContent":{"data":null,"ok":true},"isError":false}"#;
    let expected = serde_json::to_value(tool_result(&encoded(&answer.value))).unwrap();
    let described: serde_json::Value = serde_json::from_str(whole).unwrap();
    for name in ["content", "structuredContent", "isError"] {
        assert_eq!(expected[name], described[name]);
    }
    assert_eq!(serialized_tool_result_len(&answer).unwrap(), expected.to_string().len());
    let failed = BridgeError::new("c", "m", true).result();
    let value = BridgeError::new("c", "m", true).result().value;
    let as_success = ToolResult { value, is_error: false };
    assert_eq!(
        serialized_tool_result_len(&failed).unwrap() + 1,
        serialized_tool_result_len(&as_success).unwrap()
    );
    assert_eq!(result_len(Ok(7)).unwrap(), 7);
    let refused = result_len(Err("no bytes".into())).unwrap_err();
    assert_eq!(refused.code, "internal_error");
    assert_eq!(refused.message, "failed to encode bridge result: no bytes");
}

#[test]
fn a_pane_read_is_answered_whole_or_cut_short() {
    let read = pane_read(&"0123456789".repeat(40));
    let whole_len = serialized_tool_result_len(&pane_read_tool_result(&read)).unwrap();
    let whole = bounded_pane_answer(&read, ReadFormat::Text, whole_len).unwrap();
    let shown = encoded(&whole.value);
    assert_eq!(shown["data"]["read"]["text"].as_str(), Some(read.text.as_str()));
    assert_eq!(shown["data"]["read"]["source"].as_str(), Some("recent"));
    assert_eq!(shown["data"]["read"]["format"].as_str(), Some("text"));
    assert_eq!(shown["data"]["read"]["revision"].as_u64(), Some(1));

    let max_bytes = whole_len - 1;
    let cut = bounded_pane_answer(&read, ReadFormat::Text, max_bytes).unwrap();
    let shown = encoded(&cut.value);
    assert_eq!(shown["data"]["read"]["text"].as_str(), Some(&read.text[1..]));
    assert_eq!(shown["data"]["read"]["truncated"].as_bool(), Some(true));
    assert!(serialized_tool_result_len(&cut).unwrap() <= max_bytes);

    let refused = bounded_pane_answer(&read, ReadFormat::Ansi, max_bytes).unwrap_err();
    assert_eq!(
        refused.message,
        "ANSI pane output exceeds max_bytes and cannot be safely truncated"
    );
    assert!(matches!(
        refused.details,
        Some(Details::Size { actual_bytes, max_bytes: limit })
            if actual_bytes == whole_len && limit == max_bytes
    ));
    let none = bounded_pane_answer(&read, ReadFormat::Text, 20).unwrap_err();
    assert_eq!(none.message, "the pane result metadata alone exceeds max_bytes");
}

#[test]
fn a_bounded_read_is_the_longest_that_fits() {
    let text = ReadFormat::Text;
    assert!(bounded_read("short", text, 10, 20, |_: &str| Ok(10)).unwrap().is_none());
    let size = |t: &str| Ok(t.len() + 4);
    let cut = bounded_read("0123456789", text, 14, 9, size).unwrap();
    assert_eq!(cut.as_deref(), Some("56789"));
    let none = bounded_read("0123456789", text, 14, 3, size).unwrap_err();
    assert_eq!(none.message, "the pane result metadata alone exceeds max_bytes");
    let refused = bounded_read("0123456789", ReadFormat::Ansi, 14, 9, size).unwrap_err();
    assert_eq!(refused.code, "result_too_large");
    assert!(matches!(
        refused.details,
        Some(Details::Size { actual_bytes: 14, max_bytes: 9 })
    ));
    assert_eq!(longest_fitting_tail("abc", 6, size).unwrap().as_deref(), Some("bc"));
}

#[test]
fn drain_result_size_includes_the_complete_tool_envelope() {
    let drain = DrainResult {
        lease_id: "lease_123".into(),
        lease_expires_at_unix_ms: 10,
        messages: Vec::new(),
        remaining: 0,
        quarantined: 0,
    };
    let result = herdr_drain_messages(&drain).unwrap();
    assert_text_mirrors_structured(&result);
    let full_len = serialized_tool_result_len(&result).unwrap();
    let value = encoded(&result.value);
    let mut structured_only = serde_json::to_value(tool_result(&value)).unwrap();
    structured_only["content"] = serde_json::Value::Array(vec![]);
    let structured_only_len = serde_json::to_vec(&structured_only).unwrap().len();
    assert!(full_len > structured_only_len);
    assert_eq!(value["data"]["lease_id"].as_str(), Some("lease_123"));
}

#[test]
fn drained_messages_are_shown_whole() {
    let drain = DrainResult {
        lease_id: "lease_1".into(),
        lease_expires_at_unix_ms: 600_010,
        messages: vec![QueuedMessage {
            schema_version: 1,
            message_id: "msg_1".into(),
            sequence: 7,
            cli_id: "cli_1".into(),
            created_at_unix_ms: 10,
            kind: "result".into(),
            correlation_id: None,
            text: "done".into(),
        }],
        remaining: 2,
        quarantined: 1,
    };
    let value = encoded(&drain_tool_result(&drain));
    assert_eq!(value["messages"][0]["id"].as_str(), Some("msg_1"));
    assert_eq!(value["messages"][0]["sequence"].as_u64(), Some(7));
    assert!(value["messages"][0]["correlation_id"].is_null());
    assert_eq!(value["remaining"].as_u64(), Some(2));
    assert_eq!(value["quarantined"].as_u64(), Some(1));
    assert!(drain_fits(&drain));
    assert!(herdr_drain_messages(&drain).is_ok());
    // Twice the text, once as text in text, is over the limit with the rest.
    let mut large = drain;
    large.messages[0].text = "x".repeat(QUEUE_DRAIN_MAX_BYTES / 2);
    assert!(!drain_fits(&large));
    let refused = herdr_drain_messages(&large).unwrap_err();
    assert_eq!(refused.code, "result_too_large");
    assert_eq!(
        refused.message,
        "the drained message lease exceeds the 1 MiB bridge limit"
    );
    assert!(matches!(
        refused.details,
        Some(Details::Size { actual_bytes, max_bytes: QUEUE_DRAIN_MAX_BYTES })
            if actual_bytes > QUEUE_DRAIN_MAX_BYTES
    ));
    large.messages[0].text = "x".repeat(QUEUE_DRAIN_MAX_BYTES / 2 - 1024);
    assert!(drain_fits(&large));
    let ack = encoded(&ack_tool_result(&AckResult {
        lease_id: "lease_1".into(),
        already_acked: true,
        deleted: 1,
    }));
    assert_eq!(ack["already_acked"].as_bool(), Some(true));
    assert_eq!(ack["deleted"].as_u64(), Some(1));
}

#[test]
fn restricted_and_full_control_tool_sets_are_exact() {
    let all: Vec<&str> =
        RESTRICTED_TOOL_NAMES.iter().chain(FULL_CONTROL_TOOL_NAMES.iter()).copied().collect();
    let restricted: Vec<&str> =
        all.iter().copied().filter(|name| AccessMode::Restricted.allows_tool(name)).collect();
    assert_eq!(restricted, RESTRICTED_TOOL_NAMES);
    assert!(all.iter().all(|name| AccessMode::FullControl.allows_tool(name)));
    assert!(!AccessMode::FullControl.allows_tool("herdr_unknown"));
    assert!(check_tool_access(AccessMode::Restricted, "herdr_health").is_ok());
    let refused = check_tool_access(AccessMode::Restricted, "herdr_wait").unwrap_err();
    assert_eq!(refused.code, "full_control_required");
    assert!(check_tool_access(AccessMode::FullControl, "herdr_wait").is_ok());
}

#[test]
fn hybrid_inspect_uses_tagged_action_and_params() {
    let params = InspectParams::WorkspaceList(Json::Object(vec![]));
    assert!(matches!(params.into_method().unwrap(), Method::WorkspaceList(_)));
}

#[test]
fn wait_defaults_to_sixty_seconds_and_caps_ten_minutes() {
    let params = WaitParams::Event(EventsWaitParams {
        match_event: EventMatch::Other(Json::Object(vec![(
            "event".into(),
            Json::Text("workspace_created".into()),
        )])),
        timeout_ms: None,
    });
    let (method, envelope) = params.into_method().unwrap();
    let Method::EventsWait(params) = method else {
        panic!("expected events.wait");
    };
    assert_eq!(params.timeout_ms, Some(DEFAULT_WAIT_MS));
    assert_eq!(envelope, DEFAULT_WAIT_MS + WAIT_ENVELOPE_MS);
    assert!(normalize_wait_timeout(Some(MAX_WAIT_MS + 1)).is_err());
}

#[test]
fn peer_actions_require_qualified_agent_targets() {
    assert!(validate_remote_agent_target("peer::agent").is_ok());
    assert!(validate_remote_agent_target("agent").is_err());
    assert!(validate_local_agent_target("peer::agent").is_err());
}

#[test]
fn control_tools_name_their_methods() {
    let send = |target: &str| AgentSendParams { target: target.into(), text: "go".into() };
    assert!(PeerControlParams::SendAgent(send("agent")).into_method().is_err());
    assert!(matches!(
        PeerControlParams::SendAgent(send("peer::agent")).into_method().unwrap(),
        Method::AgentSend(_)
    ));
    let input = PaneSendInputParams { pane_id: "p1".into(), text: "x".into(), keys: vec![] };
    assert!(matches!(
        PaneControlParams::SendInput(input).into_method().unwrap(),
        Method::PaneSendInput(_)
    ));
    assert!(matches!(
        DestructiveActionParams::ClosePane(PaneTarget { pane_id: "p1".into() }).into_method(),
        Method::PaneClose(p) if p.pane_id == "p1"
    ));
    assert_eq!(
        control_result_limit(&Method::PaneGet(PaneTarget { pane_id: "p1".into() })),
        2_097_152
    );
}

#[test]
fn large_answers_and_arguments_are_refused() {
    let arguments = |n: usize| Json::Object(vec![("a".into(), Json::Text("x".repeat(n)))]);
    // Around the text stand the braces, the name and the quotes.
    assert!(parse_control_params(&arguments(1_048_576 - 8)).is_ok());
    assert_eq!(
        parse_control_params(&arguments(1_048_576 - 7)).unwrap_err().message,
        "parameters must be at most 1048576 bytes"
    );
    assert!(check_argument_size(1_048_576).is_ok());
    assert!(check_argument_size(1_048_577).is_err());

    let small = herdr_snapshot(Json::Text("x".into())).unwrap();
    assert_eq!(encoded(&small.value)["data"]["snapshot"].as_str(), Some("x"));
    let around = serialized_tool_result_len(&small).unwrap() - 2;
    let most = (2_097_152 - around) / 2;
    assert!(herdr_snapshot(Json::Text("x".repeat(most))).is_ok());
    assert_eq!(
        herdr_snapshot(Json::Text("x".repeat(most + 1))).unwrap_err().message,
        "the session snapshot exceeds the 2 MiB bridge limit"
    );
    let answer = dispatch_control_method(PANE_READ_MAX_BYTES, Json::Bool(true)).unwrap();
    assert_eq!(encoded(&answer.value)["data"].as_bool(), Some(true));
    let large = Json::Text("x".repeat(PANE_READ_MAX_BYTES / 2));
    let refused = dispatch_control_method(PANE_READ_MAX_BYTES, large);
    assert_eq!(
        refused.unwrap_err().message,
        "the control result exceeds the MCP bridge limit"
    );
    assert!(check_result_size(1, 1, "x").is_ok());
}

#[test]
fn nesting_is_measured() {
    let nested = |n: usize| (0..n).fold(Json::Null, |inner, _| Json::Array(vec![inner]));
    assert!(is_shallow(&Json::Null, 0));
    assert!(!is_shallow(&nested(1), 0));
    assert!(is_shallow(&nested(128), 128));
    assert!(!is_shallow(&nested(129), 128));
    let member = Json::Object(vec![("a".into(), nested(2))]);
    assert!(is_shallow(&member, 3));
    assert!(!is_shallow(&member, 2));
}

#[test]
fn a_pane_read_asks_for_plain_text_or_escapes() {
    let mut params = ReadPaneParams {
        pane_id: "p1".into(),
        source: ReadSource::Recent,
        lines: 200,
        format: ReadFormat::Text,
        max_bytes: 65_536,
    };
    let read = herdr_read_pane(&params).unwrap();
    assert!(read.strip_ansi);
    assert_eq!(read.lines, Some(200));
    params.format = ReadFormat::Ansi;
    assert!(!herdr_read_pane(&params).unwrap().strip_ansi);
    params.max_bytes = 0;
    assert_eq!(
        herdr_read_pane(&params).unwrap_err().message,
        "max_bytes must be between 1 and 262144"
    );
    assert!(validate_read_pane("", 200, 100).is_err());
    assert!(validate_drain("cli_1", 101).is_err());
    assert!(validate_drain("cli_1", 100).is_ok());
    assert!(validate_opaque_id("cli_id", "cli_1").is_ok());
}

#[test]
fn health_tells_whether_the_server_fits() {
    let facts = BridgeFacts {
        mcp_version: "1".into(),
        queue_schema: 1,
        session: "default".into(),
        access_mode: AccessMode::FullControl,
        binary_version: "0.9".into(),
    };
    let fits = Ok(ServerVersion { version: "0.9".into(), protocol: REQUIRED_PROTOCOL });
    let value = encoded(&herdr_health(&facts, &fits));
    assert_eq!(value["herdr_status"].as_str(), Some("available"));
    assert_eq!(value["access_mode"].as_str(), Some("full_control"));
    let other = Ok(ServerVersion { version: "0.8".into(), protocol: REQUIRED_PROTOCOL - 1 });
    let value = encoded(&herdr_health(&facts, &other));
    assert_eq!(value["herdr_status"].as_str(), Some("incompatible"));
    assert_eq!(value["herdr_available"].as_bool(), Some(true));
    let gone = Err(api_error(ClientError::Unreachable));
    let value = encoded(&herdr_health(&facts, &gone));
    assert_eq!(value["herdr_status"].as_str(), Some("unavailable"));
    assert_eq!(value["availability_error"]["code"].as_str(), Some("server_unavailable"));
}

#[test]
fn errors_keep_what_is_behind_them() {
    let full = queue_error(QueueError::new(QueueErrorKind::Full, "full up"));
    assert_eq!(full.code, "queue_full");
    assert!(full.retryable);
    let remapped = remap_rejection(full, "stop_rejected");
    assert_eq!(remapped.code, "stop_rejected");
    let value = remapped.result().value;
    assert_eq!(at(&value, &["error", "details", "upstream_code"]).as_str(), Some("queue_full"));
    assert_eq!(
        at(&value, &["error", "details", "upstream_details", "kind"]).as_str(),
        Some("Full")
    );
    let timeout = remap_rejection(api_error(ClientError::TimedOut), "stop_rejected");
    assert_eq!(timeout.code, "server_timeout");
    let odd = unexpected_result("pane.get", "Ok");
    assert!(!odd.retryable);
    let old = require_compatible("0.1".into(), REQUIRED_PROTOCOL - 1).unwrap_err();
    let value = old.result().value;
    assert!(matches!(
        at(&value, &["error", "details", "required_protocol"]),
        Json::Number(n) if *n == REQUIRED_PROTOCOL.to_string()
    ));
    assert!(require_compatible("0.1".into(), REQUIRED_PROTOCOL).is_ok());
}

#[test]
fn control_client_ids_are_random() {
    let a = random_control_client_id().unwrap();
    let b = random_control_client_id().unwrap();
    assert_ne!(a, b);
    assert_eq!(a.len(), b.len());
}

fn identity(state: CliState) -> CliIdentity {
    CliIdentity {
        cli_id: "cli_1".into(),
        pane_id: "p1".into(),
        terminal_id: "term_1".into(),
        workspace_id: "w1".into(),
        tab_id: "t1".into(),
        name: "codex".into(),
        cwd: "/work".into(),
        state,
        launch_marker: Some("herdr_mcp_1".into()),
    }
}

fn agent(name: Option<&str>, pane_id: &str) -> AgentInfo {
    AgentInfo {
        terminal_id: format!("term_{pane_id}"),
        peer: None,
        qualified_target: None,
        presentation: None,
        name: name.map(str::to_string),
        agent: None,
        title: None,
        display_agent: None,
        agent_status: AgentStatus::Idle,
        screen_detection_skipped: false,
        custom_status: None,
        state_labels: vec![],
        agent_session: None,
        transport: None,
        mirror_of_terminal_id: None,
        attach: None,
        workspace_id: "w1".into(),
        tab_id: "t1".into(),
        pane_id: pane_id.into(),
        focused: false,
        cwd: None,
        foreground_cwd: None,
        revision: 0,
    }
}

fn reply(value: ReplyValue) -> Result<Reply, BridgeError> {
    Ok(Reply { value, text: "shown".into() })
}

fn missing_pane() -> BridgeError {
    BridgeError::new("pane_not_found", "gone", false)
}

#[test]
fn a_registered_cli_is_running_or_launching() {
    assert!(matches!(after_lookup(Ok(identity(CliState::Active))), Ok(Lookup::Running(_))));
    assert!(matches!(
        after_lookup(Ok(identity(CliState::Creating))),
        Ok(Lookup::Launching(c)) if c.marker == "herdr_mcp_1"
    ));
    assert_eq!(
        after_lookup(Ok(identity(CliState::Closed))).err().map(|e| e.code),
        Some("cli_not_running".to_string())
    );
}

#[test]
fn a_launch_is_found_by_its_marker() {
    let agents = vec![agent(Some("other"), "p2"), agent(Some("herdr_mcp_1"), "p3")];
    let found = match_marker(&agents, "herdr_mcp_1").unwrap().unwrap();
    assert_eq!(found.pane_id, "p3");
    assert!(match_marker(&agents, "herdr_mcp_2").unwrap().is_none());
    let twice = vec![agent(Some("herdr_mcp_1"), "p2"), agent(Some("herdr_mcp_1"), "p3")];
    assert_eq!(
        match_marker(&twice, "herdr_mcp_1").err().map(|e| e.code),
        Some("cli_identity_mismatch".to_string())
    );
    assert_eq!(live_markers(&agents), ["other", "herdr_mcp_1"]);
    let creating =
        || Creating { identity: identity(CliState::Creating), marker: "herdr_mcp_1".into() };
    let at = Found {
        pane_id: "p3".into(),
        terminal_id: "term_p3".into(),
        workspace_id: "w1".into(),
        tab_id: "t1".into(),
    };
    assert_eq!(after_prune(creating(), Some(at), &vec![]).unwrap().pane_id, "p3");
    let absent = after_prune(creating(), None, &vec!["cli_1".into()]).unwrap_err();
    assert!(absent.is_confirmed_absent());
    assert!(!after_prune(creating(), None, &vec![]).unwrap_err().is_confirmed_absent());
}

#[test]
fn input_goes_only_to_the_registered_terminal() {
    let me = identity(CliState::Active);
    let same = || reply(ReplyValue::PaneInfo { terminal_id: "term_1".into() });
    assert!(matches!(check_pane(&me, same()), PaneCheck::Same));
    assert!(preflight(&me, same()).is_ok());
    let foreign = reply(ReplyValue::PaneInfo { terminal_id: "term_2".into() });
    let (err, closes) = preflight(&me, foreign).unwrap_err();
    assert_eq!(err.code, "cli_identity_mismatch");
    assert!(closes);
    let (err, closes) = preflight(&me, Err(missing_pane())).unwrap_err();
    assert_eq!(err.code, "cli_not_running");
    assert!(closes);
}

#[test]
fn input_outcomes_are_told_apart() {
    assert!(matches!(after_input(reply(ReplyValue::Done), true), InputOutcome::Sent));
    assert!(matches!(after_input(Err(missing_pane()), true), InputOutcome::Gone(_)));
    let bad_key = || Err(BridgeError::new("invalid_key", "no such key", false));
    assert!(matches!(
        after_input(bad_key(), true),
        InputOutcome::InvalidKeys(m) if m == "no such key"
    ));
    assert!(matches!(
        after_input(bad_key(), false),
        InputOutcome::Refused(e) if e.code == "input_rejected"
    ));
    assert_eq!(interrupt_input("p1".into()).keys, ["ctrl+c"]);
    let sent = input_tool_result("cli_1", &Some("h\u{e9}".into()), &None);
    assert!(matches!(sent.get("text_bytes"), Some(Json::Number(n)) if n == "3"));
    assert!(matches!(
        interrupt_tool_result("cli_1").get("interrupted"),
        Some(Json::Bool(true))
    ));
    assert!(matches!(
        stop_tool_result("cli_1", false).get("already_stopped"),
        Some(Json::Bool(false))
    ));
}

#[test]
fn a_stop_closes_the_pane_it_checked() {
    let next = herdr_stop_cli(
        StopState::Lookup,
        StopEvent::Registered(Ok(identity(CliState::Closed))),
    );
    assert!(matches!(next, StopNext::Stopped { already_stopped: true }));
    let next = herdr_stop_cli(
        StopState::Pane { identity: identity(CliState::Active) },
        StopEvent::Reply(reply(ReplyValue::PaneInfo { terminal_id: "term_1".into() })),
    );
    assert!(matches!(next, StopNext::ClosePane(StopState::Close, pane) if pane == "p1"));
    let next = herdr_stop_cli(StopState::Close, StopEvent::Reply(Err(missing_pane())));
    assert!(matches!(
        next,
        StopNext::MarkClosed(StopState::Mark { already_stopped: true })
    ));
    let next = herdr_stop_cli(
        StopState::Pane { identity: identity(CliState::Active) },
        StopEvent::Reply(reply(ReplyValue::PaneInfo { terminal_id: "term_2".into() })),
    );
    assert!(matches!(next, StopNext::MarkClosedAndRefuse(_)));
}

#[test]
fn queue_errors_name_their_kind() {
    let full = || QueueError::new(QueueErrorKind::Full, "no room");
    let named = |e: &BridgeError| {
        e.code == "queue_full"
            && e.message == "no room"
            && e.retryable
            && matches!(e.details, Some(Details::QueueKind(QueueErrorKind::Full)))
    };
    for state in [StopState::Lookup, StopState::Mark { already_stopped: false }] {
        let StopNext::Refused(e) = herdr_stop_cli(state, StopEvent::Registered(Err(full()))) else {
            panic!("the stop ends here");
        };
        assert!(named(&e));
    }
    for state in [FindState::Lookup, FindState::Activate] {
        let FindNext::Refused(e) = active_identity(state, FindEvent::Identity(Err(full()))) else {
            panic!("the search ends here");
        };
        assert!(named(&e));
    }
    let LaunchNext::Refused(e) = herdr_launch_cli(
        LaunchState::Channel { params: launch_params() },
        LaunchEvent::Channel(Err(full())),
    ) else {
        panic!("the launch ends here");
    };
    assert!(named(&e));
}

#[test]
fn a_search_that_ends_early_says_why() {
    let FindNext::Refused(e) =
        active_identity(FindState::Lookup, FindEvent::Identity(Ok(identity(CliState::Closed))))
    else {
        panic!("the CLI is closed");
    };
    assert_eq!(e.code, "cli_not_running");
    assert!(e.details.is_none());
    let next = active_identity(
        FindState::Lookup,
        FindEvent::Identity(Ok(identity(CliState::Creating))),
    );
    let FindNext::AskVersion(state) = next else { panic!("the server is asked first") };
    let next = active_identity(state, FindEvent::Version(Ok(("1".into(), REQUIRED_PROTOCOL))));
    let FindNext::ListAgents(state) = next else { panic!("the agents are listed") };
    let twice = vec![agent(Some("herdr_mcp_1"), "p3"), agent(Some("herdr_mcp_1"), "p4")];
    let FindNext::Refused(e) = active_identity(state, FindEvent::Agents(Ok(twice))) else {
        panic!("two panes carry the marker");
    };
    assert_eq!(e.code, "cli_identity_mismatch");
    assert!(e.details.is_none());
}

#[test]
fn a_launch_runs_under_its_marker() {
    let next = herdr_launch_cli(
        LaunchState::Version { params: launch_params() },
        LaunchEvent::Version(Ok(("1".into(), REQUIRED_PROTOCOL))),
    );
    assert!(matches!(next, LaunchNext::ListAgents(LaunchState::Agents { .. })));
    let handle = || ChannelHandle {
        cli_id: "cli_1".into(),
        launch_marker: "herdr_mcp_1".into(),
        env: vec![("HERDR_DESKTOP_CLI_ID".into(), "cli_1".into())],
        channel_dir: "cli_1.ab".into(),
    };
    match herdr_launch_cli(
        LaunchState::Channel { params: launch_params() },
        LaunchEvent::Channel(Ok(handle())),
    ) {
        LaunchNext::StartAgent(_, params) => {
            assert_eq!(params.name, "herdr_mcp_1");
            assert_eq!(params.argv, ["codex", "--help"]);
            assert_eq!(
                params.env,
                vec![("HERDR_DESKTOP_CLI_ID".to_string(), "cli_1".to_string())]
            );
        }
        _ => panic!("the agent is started next"),
    }
    let starting =
        || LaunchState::Start { handle: handle(), name: "codex".into(), cwd: "/work".into() };
    assert!(matches!(
        herdr_launch_cli(starting(), LaunchEvent::Reply(Err(api_error(ClientError::TimedOut)))),
        LaunchNext::Find(LaunchState::Unknown { .. }, id) if id == "cli_1"
    ));
    let rejected = BridgeError::new("invalid_agent", "no", false);
    assert!(matches!(
        herdr_launch_cli(starting(), LaunchEvent::Reply(Err(rejected))),
        LaunchNext::AbortAndRefuse(_, e) if e.code == "launch_rejected"
    ));
    assert!(matches!(
        herdr_launch_cli(
            starting(),
            LaunchEvent::Reply(reply(ReplyValue::AgentStarted(agent(None, "p7"))))
        ),
        LaunchNext::Activate(_, identity) if identity.pane_id == "p7"
    ));
    let shown = encoded(&launch_tool_result(&identity(CliState::Active)));
    assert_eq!(shown["pane_id"].as_str(), Some("p1"));
}

#[test]
fn a_taken_name_is_refused() {
    match herdr_launch_cli(
        LaunchState::Prune { params: launch_params(), taken: true },
        LaunchEvent::Pruned(Ok(vec![])),
    ) {
        LaunchNext::Refused(e) => {
            assert_eq!(e.code, "launch_rejected");
            assert_eq!(e.message, "an agent named \"codex\" already exists");
        }
        _ => panic!("the name is taken"),
    }
}

#[test]
fn a_launch_that_was_not_confirmed_is_looked_for() {
    let next = active_identity(
        FindState::Lookup,
        FindEvent::Identity(Ok(identity(CliState::Creating))),
    );
    let FindNext::AskVersion(state) = next else { panic!("the server is asked first") };
    let next =
        active_identity(state, FindEvent::Version(Ok(("1".into(), REQUIRED_PROTOCOL))));
    let FindNext::ListAgents(state) = next else { panic!("the agents are listed") };
    let next =
        active_identity(state, FindEvent::Agents(Ok(vec![agent(Some("herdr_mcp_1"), "p3")])));
    let FindNext::Prune(state, live) = next else { panic!("stale launches are pruned") };
    assert_eq!(live, ["herdr_mcp_1"]);
    let next = active_identity(state, FindEvent::Pruned(Ok(vec![])));
    let FindNext::Activate(state, found) = next else { panic!("the launch is recorded") };
    assert_eq!(found.pane_id, "p3");
    let next = active_identity(state, FindEvent::Identity(Ok(found)));
    let FindNext::Rename(state, pane, name) = next else { panic!("the agent is renamed") };
    assert_eq!((pane.as_str(), name.as_str()), ("p3", "codex"));
    assert!(matches!(active_identity(state, FindEvent::Renamed), FindNext::Found(_)));
}

#[test]
fn a_bridge_registers_before_it_renews() {
    let id = "bridge".to_string();
    assert!(matches!(
        presence_request(&id, AccessMode::Restricted, false),
        Method::ControlClientRegister(p) if p.client_id == "bridge"
    ));
    assert!(matches!(
        presence_request(&id, AccessMode::Restricted, true),
        Method::ControlClientHeartbeat(p) if p.client_id == "bridge"
    ));
}
