use herdr::api::schema::common::{
    AgentStatus, Method, OutputMatch, PaneAgentState, ReadFormat, ReadSource, SplitDirection,
    Subscription,
};
use herdr::cli::api::{
    api_bridge, api_schema, api_snapshot, inject_terminal_delegate_shell_context, run_api_command,
    schema_summary_text, summarize_schema, with_shell_context, ApiCommand, SchemaCommand,
};
use herdr::cli::channel::{
    channel_config_readable, channel_config_writable, channel_set, channel_set_install_action,
    channel_set_rejection, config_reset_keys, finish_reset_keys, has_keys_to_remove,
    key_config_backup_path, keys_removed, parse_channel_set_arg, run_channel_command,
    run_config_command, ChannelCommand, ChannelSetInstallAction,
};
use herdr::cli::desktop::{enqueue_exit_code, run_desktop_command, run_enqueue, stdin_message};
use herdr::cli::mcp::{
    run_mcp_command, run_public_command, serve_access_mode, McpCommand,
    MCP_FULL_CONTROL_ENV_ERROR, MCP_USAGE,
};
use herdr::cli::peer::run_peer_command;
use herdr::cli::remote_resume::{
    describe_record, next_peer, nothing_pending_line, parse_remote_resume, plan_remote_resume,
    print_resume_outcomes, resume_step, ResumeAction, ResumeEvent, ResumePlan, ResumeRun,
};
use herdr::cli::session::{
    parse_session_json_only, parse_session_name_and_json, print_session_table,
    run_session_command, session_delete, session_error, session_list, session_stop, SessionEnd,
    SessionInfo, ShownSession,
};
use herdr::cli::ssh::{
    disconnect_ssh_peer, explicit_remote_ssh_session, keepalive_continues, keepalive_request,
    run_ssh_command, shim_peer_connect_params, ssh_keepalive_should_stop, ssh_os_args_as_utf8,
    ssh_step, ParsedSshInvocation, SshAction, SshEvent, SshState,
};
use herdr::cli::terminal::{
    attach_to_shell, attach_unsupported, parse_terminal_dimension, run_terminal_command,
    terminal_attach, terminal_session, terminal_shell, terminal_title, SessionMode, ShellStep,
    TerminalCommand,
};
use herdr::cli::wait::{run_wait_command, wait_agent_status, wait_output, WaitCommand};
use herdr::cli::{
    command_outcome, maybe_run, parse_agent_status, parse_attach_target, parse_env_assignment,
    parse_pane_agent_state, parse_read_format, parse_read_source, parse_split_direction,
    parse_u32_flag, parse_u64_flag, print_response, remote_handoff_end,
    run_remote_handoff_command, wait_for_agent_change, AwaitedEvent, Command, CommandOutcome,
    EventEnd, HelpTopic, Parsed,
};
use herdr::desktop_mcp::AccessMode;
use herdr::desktop_queue::QueueErrorKind;
use herdr::json::Json;
use herdr::remote_resume::{
    group_by_peer, ResumeAgent, ResumePlacement, ResumeRecord, ResumeSsh,
};

fn args(values: &[&str]) -> Vec<String> {
    values.iter().map(|value| (*value).to_string()).collect()
}

fn object(members: Vec<(&str, Json)>) -> Json {
    Json::Object(members.into_iter().map(|(name, value)| (name.to_string(), value)).collect())
}

fn text(value: &str) -> Json {
    Json::Text(value.to_string())
}

fn at<'a>(value: &'a Json, path: &[&str]) -> Option<&'a Json> {
    let mut found = value;
    for name in path {
        found = found.get(name)?;
    }
    Some(found)
}

fn exit_of<T>(parsed: Parsed<T>) -> (i32, Vec<String>) {
    match parsed {
        Parsed::Exit { code, lines } => (code, lines),
        _ => panic!("expected an exit"),
    }
}

fn run_of<T>(parsed: Parsed<T>) -> T {
    match parsed {
        Parsed::Run(value) => value,
        _ => panic!("expected to go on"),
    }
}

#[test]
fn parses_channel_set_argument() {
    assert_eq!(parse_channel_set_arg(&args(&["preview"])), Some("preview"));
    assert_eq!(parse_channel_set_arg(&args(&["stable"])), Some("stable"));
    assert_eq!(parse_channel_set_arg(&args(&["nightly"])), None);
    assert_eq!(parse_channel_set_arg(&args(&["preview", "stable"])), None);
}

#[test]
fn channel_set_rejects_package_managed_preview_before_config_write() {
    assert_eq!(channel_set_rejection("preview", Some("no preview"), false), Some("no preview"));
    assert_eq!(channel_set_rejection("stable", Some("no preview"), false), None);
    assert_eq!(
        channel_set_rejection("stable", Some("no preview"), true),
        Some("stable channel is not available on Windows yet; Windows builds are preview-only")
    );
    assert_eq!(channel_set_rejection("preview", None, false), None);
    assert_eq!(channel_set_rejection("preview", None, true), None);
}

#[test]
fn channel_set_rejects_stable_only_on_windows() {
    assert_eq!(
        channel_set_rejection("stable", None, true),
        Some("stable channel is not available on Windows yet; Windows builds are preview-only")
    );
    assert_eq!(channel_set_rejection("stable", None, false), None);
}

#[test]
fn channel_set_skips_self_update_for_package_manager_guidance() {
    assert_eq!(
        channel_set_install_action(Some("use package manager")),
        ChannelSetInstallAction::PrintGuidance("use package manager")
    );
    assert_eq!(channel_set_install_action(None), ChannelSetInstallAction::RunSelfUpdate);
}

#[test]
fn parse_env_assignment_accepts_empty_values() {
    assert_eq!(
        parse_env_assignment("HERDR_ROLE=").unwrap(),
        ("HERDR_ROLE".to_string(), String::new())
    );
}

#[test]
fn parse_env_assignment_requires_key_value_separator() {
    assert_eq!(parse_env_assignment("HERDR_ROLE").unwrap_err(), "env must use KEY=VALUE");
}

#[test]
fn an_env_assignment_ends_its_key_at_the_first_separator() {
    assert_eq!(parse_env_assignment("A=b=c").unwrap(), ("A".to_string(), "b=c".to_string()));
    assert!(parse_env_assignment("=c").is_err());
}

#[test]
fn shim_ssh_uses_the_remote_default_session() {
    let parsed = ParsedSshInvocation {
        target: "workbox".to_string(),
        ssh_args: vec!["-p".to_string(), "2222".to_string()],
    };

    let params = shim_peer_connect_params(&parsed, None, None);

    assert_eq!(params.target, "workbox");
    assert_eq!(params.ssh_args, ["-p", "2222"]);
    assert_eq!(params.session.as_deref(), Some("default"));
}

#[test]
fn ssh_keepalive_retries_io_errors_but_stops_on_server_rejection() {
    assert!(!ssh_keepalive_should_stop(&Ok(object(vec![("result", object(vec![]))]))));
    assert!(!ssh_keepalive_should_stop(&Err("temporary timeout".to_string())));
    assert!(ssh_keepalive_should_stop(&Ok(object(vec![(
        "error",
        object(vec![("message", text("connection is gone"))])
    )]))));
}

#[test]
fn non_utf8_ssh_arguments_bypass_managed_interception() {
    let os_args = vec![b"workbox".to_vec(), vec![b'-', b'F', 0xff]];
    assert!(ssh_os_args_as_utf8(os_args).is_none());
    let utf8 = vec![b"workbox".to_vec(), "-F\u{e9}".as_bytes().to_vec()];
    assert_eq!(ssh_os_args_as_utf8(utf8), Some(args(&["workbox", "-F\u{e9}"])));
}

const SCHEMA: &str = r#"{
  "protocol": 15,
  "schema_version": 1,
  "schemas": {
    "response": { "type": "object" },
    "request": { "type": "object", "required": ["id", "method"] },
    "event": { "type": "object" }
  }
}"#;

#[test]
fn schema_summary_text_stays_human_sized() {
    let summary = schema_summary_text(SCHEMA).unwrap();
    assert!(summary.contains("Herdr API schema"));
    assert!(summary.contains("Use `herdr api schema --json`"));
    assert!(summary
        .contains("protocol: 15\nschema_version: 1\nschemas: event, request, response\n"));
    assert!(summary.len() < 400);
}

#[test]
fn a_schema_says_what_it_lacks() {
    for (schema, lacks) in [
        ("{}", "API schema is missing protocol"),
        (r#"{"protocol":-1}"#, "API schema is missing protocol"),
        (r#"{"protocol":15}"#, "API schema is missing schema_version"),
        (r#"{"protocol":15,"schema_version":1,"schemas":[]}"#, "API schema is missing schemas"),
    ] {
        assert_eq!(schema_summary_text(schema).unwrap_err(), lacks);
    }
    assert_eq!(
        schema_summary_text("{").unwrap_err(),
        "EOF while parsing an object at line 1 column 1"
    );
    let read = object(vec![("protocol", Json::Number("15".into()))]);
    assert_eq!(summarize_schema(&read).unwrap_err(), "API schema is missing schema_version");
}

#[test]
fn shell_context_injection_only_changes_fresh_terminal_delegation() {
    let request = r#"{"id":"create","method":"terminal.delegate.create","params":{"label":"remote","env":{"EXPLICIT":"yes"},"owner":{"peer_id":"a","pane_id":"p","route":["a"]}}}"#;
    let env = vec![
        ("SSH_AUTH_SOCK".to_string(), "/tmp/ssh.sock".to_string()),
        ("HERDR_SOCKET_PATH".to_string(), "/tmp/wrong.sock".to_string()),
        ("EXPLICIT".to_string(), "inherited".to_string()),
    ];
    let injected =
        inject_terminal_delegate_shell_context(request, "/remote/home", &env).unwrap();
    assert!(injected.ends_with("}\n"));
    let value: serde_json::Value = serde_json::from_str(&injected).unwrap();
    assert_eq!(value["params"]["cwd"], "/remote/home");
    assert_eq!(value["params"]["env"]["SSH_AUTH_SOCK"], "/tmp/ssh.sock");
    assert_eq!(value["params"]["env"]["EXPLICIT"], "yes");
    assert!(value["params"]["env"].get("HERDR_SOCKET_PATH").is_none());
    assert_eq!(value["params"]["label"], "remote");
    assert_eq!(value["params"]["owner"]["route"][0], "a");
    assert_eq!(value["id"], "create");

    let ping = "{\"id\":\"ping\",\"method\":\"ping\",\"params\":{}}\n";
    assert_eq!(
        inject_terminal_delegate_shell_context(ping, "/ignored", &vec![]).unwrap(),
        ping
    );
}

#[test]
fn requests_in_context_keep_what_they_say() {
    let inject = |request: &str| inject_terminal_delegate_shell_context(request, "/w", &vec![]);
    assert_eq!(
        inject(r#"{"method":"terminal.delegate.create","params":{"cwd":"/mine","n":1.5}}"#)
            .unwrap(),
        "{\"method\":\"terminal.delegate.create\",\"params\":{\"cwd\":\"/mine\",\"env\":{},\"n\":1.5}}\n"
    );
    assert_eq!(
        inject(r#"{"method":"terminal.delegate.create","params":[]}"#).unwrap_err(),
        "terminal.delegate.create requires object params"
    );
    assert_eq!(
        inject("nonsense").unwrap_err(),
        "expected ident at line 1 column 2"
    );
    let spaced = " [ 1 ] ";
    assert_eq!(inject(spaced).unwrap(), spaced);
    let read = object(vec![("method", text("ping"))]);
    assert!(with_shell_context(read, "/w", &vec![]).unwrap().is_none());
}

#[test]
fn duplicate_kind_is_rejected_before_enqueue() {
    let given = args(&["--kind", "info", "--kind", "error", "--message", "hello"]);
    assert_eq!(exit_of(run_enqueue(&given)).0, 2);
}

#[test]
fn duplicate_correlation_id_is_rejected_before_enqueue() {
    let given = args(&[
        "--correlation-id",
        "first",
        "--correlation-id",
        "second",
        "--message",
        "hello",
    ]);
    assert_eq!(exit_of(run_enqueue(&given)).0, 2);
}

#[test]
fn an_enqueue_takes_one_message() {
    let parsed = run_of(run_enqueue(&args(&["--kind", "result", "--message", "hello"])));
    assert_eq!(parsed.kind, "result");
    assert_eq!(parsed.message.as_deref(), Some("hello"));
    assert_eq!(parsed.correlation_id, None);
    assert!(run_of(run_enqueue(&args(&["--stdin"]))).message.is_none());
    assert_eq!(exit_of(run_enqueue(&args(&["--stdin", "--message", "x"]))).0, 2);
    assert_eq!(
        exit_of(run_enqueue(&args(&[]))).1[0],
        "provide exactly one of --message or --stdin"
    );
    assert_eq!(run_of(run_desktop_command(&args(&["enqueue", "--stdin"]))), args(&["--stdin"]));
    assert_eq!(exit_of(run_desktop_command(&args(&[]))).0, 2);
}

#[test]
fn messages_from_the_standard_input_are_bounded_text() {
    assert_eq!(run_of(stdin_message("h\u{e9}".as_bytes().to_vec())), "h\u{e9}");
    assert_eq!(exit_of(stdin_message(vec![0xff])).1[0], "stdin message must be UTF-8");
    assert_eq!(
        exit_of(stdin_message(vec![b'x'; 65_537])).1[0],
        "stdin message exceeds 65536 bytes"
    );
}

#[test]
fn queue_errors_have_exit_codes() {
    assert_eq!(enqueue_exit_code(QueueErrorKind::Invalid), 2);
    assert_eq!(enqueue_exit_code(QueueErrorKind::PermissionDenied), 3);
    assert_eq!(enqueue_exit_code(QueueErrorKind::Full), 4);
    assert_eq!(enqueue_exit_code(QueueErrorKind::Io), 5);
}

#[test]
fn serve_defaults_to_restricted_and_supports_two_explicit_full_control_grants() {
    assert_eq!(serve_access_mode(&args(&["serve"]), None), Ok(Some(AccessMode::Restricted)));
    assert_eq!(
        serve_access_mode(&args(&["serve", "--full-control"]), None),
        Ok(Some(AccessMode::FullControl))
    );
    assert_eq!(
        serve_access_mode(&args(&["serve"]), Some("1")),
        Ok(Some(AccessMode::FullControl))
    );
}

#[test]
fn serve_rejects_noncanonical_full_control_environment_values() {
    for value in ["", "0", "true", "yes", " 1"] {
        assert_eq!(
            serve_access_mode(&args(&["serve"]), Some(value)),
            Err(MCP_FULL_CONTROL_ENV_ERROR)
        );
    }
    assert_eq!(
        serve_access_mode(&args(&["serve", "--full-control"]), Some("true")),
        Err(MCP_FULL_CONTROL_ENV_ERROR)
    );
}

#[test]
fn public_usage_does_not_disclose_the_bridge_serve_command() {
    assert!(MCP_USAGE.contains("mcp install"));
    assert!(MCP_USAGE.contains("mcp status"));
    assert!(MCP_USAGE.contains("mcp uninstall"));
    assert!(!MCP_USAGE.contains("serve"));
    assert_eq!(serve_access_mode(&args(&["serve", "--unknown"]), None), Ok(None));
}

#[test]
fn public_mcp_commands_name_a_client() {
    assert!(matches!(
        run_public_command(&args(&["install", "codex", "--full-control"])),
        Some(McpCommand::Install { client, full_control: true }) if client == "codex"
    ));
    assert!(matches!(
        run_public_command(&args(&["status"])),
        Some(McpCommand::Status { client: None })
    ));
    assert!(run_public_command(&args(&["serve"])).is_none());
    assert!(matches!(
        run_mcp_command(&args(&["serve"]), None),
        Parsed::Run(McpCommand::Serve(AccessMode::Restricted))
    ));
    assert_eq!(exit_of(run_mcp_command(&args(&["serve"]), Some("yes"))).0, 2);
}

#[test]
fn outcomes_count_failures() {
    let outcome = |terminal: &str, error: Json| {
        object(vec![
            ("remote_terminal_id", text(terminal)),
            ("peer_id", text("p")),
            ("error", error),
        ])
    };
    let response = object(vec![(
        "result",
        object(vec![
            ("type", text("remote_resume")),
            (
                "outcomes",
                Json::Array(vec![
                    outcome("term_a", Json::Null),
                    outcome("term_b", text("auth failed")),
                ]),
            ),
        ]),
    )]);
    let (failures, lines) = print_resume_outcomes(&response, "p");
    assert_eq!(failures, 1);
    assert_eq!(lines.len(), 2);
    assert!(lines[1].1.contains("auth failed"));
}

#[test]
fn error_response_counts_one_failure() {
    let response = object(vec![("error", object(vec![("code", text("remote_resume_empty"))]))]);
    let (failures, lines) = print_resume_outcomes(&response, "p");
    assert_eq!(failures, 1);
    assert_eq!(
        lines,
        [(true, "remote resume failed for p: {\"code\":\"remote_resume_empty\"}".to_string())]
    );
}

fn record(terminal: &str, peer: &str) -> ResumeRecord {
    ResumeRecord {
        schema: 1,
        remote_terminal_id: terminal.into(),
        remote_pane_id: "p1".into(),
        peer_id: peer.into(),
        ssh: ResumeSsh {
            target: format!("{peer}.example"),
            ssh_args: vec!["-v".into()],
            session: None,
        },
        agent: Some(ResumeAgent {
            name: Some("builder".into()),
            agent: Some("codex".into()),
            cwd: None,
        }),
        placement: ResumePlacement {
            workspace_id: "w1".into(),
            public_tab_id: "t1".into(),
            public_pane_id: None,
            pane_index: None,
        },
        handed_off_at_unix_ms: 5,
        last_error: None,
    }
}

#[test]
fn records_are_resumed_peer_by_peer() {
    let options = run_of(parse_remote_resume(&args(&[])));
    let records = vec![record("a", "hub"), record("b", "lab"), record("c", "hub")];
    let groups = match plan_remote_resume(&options, records) {
        ResumePlan::Resume(groups) => groups,
        _ => panic!("there is something to resume"),
    };
    assert_eq!(groups.len(), 2);
    assert_eq!(groups[0].records.len(), 2);
    let mut run = ResumeRun { waiting: groups, failures: 0 };
    match next_peer(&run) {
        ResumeAction::Connect { notice, target, ssh_args } => {
            assert_eq!(notice, "resuming 2 pane(s) on hub.example...");
            assert_eq!(target, "hub.example");
            assert_eq!(ssh_args, ["-v"]);
        }
        _ => panic!("the first peer comes first"),
    }
    let (lines, action) =
        resume_step(&mut run, &ResumeEvent::Authenticated(Some("/tmp/ctl".into())));
    assert!(lines.is_empty());
    match action {
        ResumeAction::Send(request) => match request.method {
            Method::RemoteResume(params) => {
                assert_eq!(params.peer_id.as_deref(), Some("hub"));
                assert_eq!(params.managed_control_path.as_deref(), Some("/tmp/ctl"));
            }
            _ => panic!("another request"),
        },
        _ => panic!("the server is asked"),
    }
    let refused = object(vec![("error", object(vec![("message", text("no"))]))]);
    let (lines, action) = resume_step(&mut run, &ResumeEvent::Answered(refused));
    assert!(matches!(action, ResumeAction::Connect { .. }));
    assert_eq!(
        lines,
        [(true, "remote resume failed for hub: {\"message\":\"no\"}".to_string())]
    );
    assert_eq!(run.failures, 1);
    let (lines, action) =
        resume_step(&mut run, &ResumeEvent::NotAuthenticated("refused".into()));
    assert!(matches!(action, ResumeAction::Exit(1)));
    assert_eq!(
        lines,
        [(true, "could not authenticate to lab.example: refused".to_string())]
    );
    assert_eq!(run.failures, 2);
}

#[test]
fn a_resume_can_be_limited_to_a_peer_or_only_list() {
    let options = run_of(parse_remote_resume(&args(&["--list", "--peer", "hub"])));
    assert!(options.list_only);
    assert_eq!(options.peer_id.as_deref(), Some("hub"));
    match plan_remote_resume(&options, vec![record("a", "hub"), record("b", "lab")]) {
        ResumePlan::List(lines) => {
            assert_eq!(lines, [describe_record(&record("a", "hub"))]);
        }
        _ => panic!("the records are listed"),
    }
    match plan_remote_resume(&options, vec![record("b", "lab")]) {
        ResumePlan::Nothing(line) => {
            assert_eq!(line, nothing_pending_line(&Some("hub".into())));
        }
        _ => panic!("nothing is pending for that peer"),
    }
    assert_eq!(group_by_peer(vec![]).len(), 0);
}

#[test]
fn commands_are_found_by_name() {
    assert_eq!(
        maybe_run(&args(&["herdr", "wait", "output"])).unwrap(),
        (Command::Wait, args(&["output"]))
    );
    assert_eq!(maybe_run(&args(&["herdr"])).unwrap_err(), CommandOutcome::NotCli);
    assert_eq!(maybe_run(&args(&["herdr", "dance"])).unwrap_err(), CommandOutcome::NotCli);
    assert_eq!(command_outcome(Some(3)), CommandOutcome::Handled(3));
    assert_eq!(command_outcome(None), CommandOutcome::NotCli);
}

#[test]
fn flags_are_read_by_their_words() {
    assert_eq!(parse_split_direction("down"), Ok(SplitDirection::Down));
    assert!(parse_split_direction("up").is_err());
    assert_eq!(parse_read_source("recent-unwrapped"), Ok(ReadSource::RecentUnwrapped));
    assert_eq!(parse_read_source("x").unwrap_err(), "invalid read source: x");
    assert_eq!(parse_read_format("ansi"), Ok(ReadFormat::Ansi));
    assert_eq!(parse_read_format("html").unwrap_err(), "invalid read format: html");
    assert_eq!(parse_agent_status("done"), Ok(AgentStatus::Done));
    assert!(parse_agent_status("asleep").is_err());
    assert_eq!(parse_pane_agent_state("blocked"), Ok(PaneAgentState::Blocked));
    assert!(parse_pane_agent_state("done").is_err());
    assert_eq!(parse_u32_flag("--lines", "4294967295"), Ok(u32::MAX));
    assert!(parse_u32_flag("--lines", "4294967296").is_err());
    assert_eq!(parse_u64_flag("--timeout", "+12"), Ok(12));
    assert!(parse_u64_flag("--timeout", "1.5").is_err());
}

#[test]
fn an_attach_target_may_be_taken_over() {
    let usage = "usage: x";
    assert_eq!(
        run_of(parse_attach_target(&args(&["term", "--takeover"]), usage)),
        ("term".to_string(), true)
    );
    assert_eq!(exit_of(parse_attach_target(&args(&[]), usage)), (2, args(&[usage])));
}

#[test]
fn responses_are_printed_by_kind() {
    let error = print_response(&object(vec![("error", Json::Null)]));
    assert_eq!((error.code, error.as_error, error.line.as_str()), (1, true, "{\"error\":null}"));
    let fine = print_response(&object(vec![("result", Json::Null)]));
    assert_eq!((fine.code, fine.as_error, fine.line.as_str()), (0, false, "{\"result\":null}"));
}

#[test]
fn a_watch_for_an_agent_ends_with_its_event() {
    assert!(matches!(
        wait_for_agent_change(AwaitedEvent::Arrived(Json::Bool(true)), "late"),
        EventEnd::PrintEvent(line) if line == "true"
    ));
    match wait_for_agent_change(AwaitedEvent::TimedOut, "late") {
        EventEnd::Exit { code, line } => assert_eq!((code, line.as_str()), (1, "late")),
        _ => panic!("the wait is over"),
    }
}

#[test]
fn a_handoff_needs_the_pane_it_runs_in() {
    assert_eq!(exit_of(run_remote_handoff_command(&args(&[]), None)).0, 1);
    let request = run_of(run_remote_handoff_command(&args(&[]), Some("p7".into())));
    assert!(matches!(request.method, Method::TerminalDelegateHandoff(p) if p.pane_id == "p7"));
    assert_eq!(exit_of(run_remote_handoff_command(&args(&["now"]), None)).0, 2);
    let refused = object(vec![("error", object(vec![("message", text("nested"))]))]);
    assert_eq!(
        exit_of(remote_handoff_end(&refused)),
        (1, args(&["remote-handoff failed: nested"]))
    );
}

#[test]
fn peers_are_listed_and_checked() {
    let list = run_of(run_peer_command(&args(&["list"])));
    assert!(matches!(list.method, Method::PeerList(_)));
    let health = run_of(run_peer_command(&args(&["health", "hub"])));
    assert!(matches!(health.method, Method::PeerHealth(t) if t.peer_id == "hub"));
    assert_eq!(exit_of(run_peer_command(&args(&["health"]))).0, 2);
}

#[test]
fn api_commands_are_told_apart() {
    assert!(matches!(
        run_of(run_api_command(&args(&["schema", "--json"]))),
        ApiCommand::Schema(rest) if rest == args(&["--json"])
    ));
    assert!(matches!(
        run_api_command(&args(&[])),
        Parsed::Help { topic: HelpTopic::Api, code: 2 }
    ));
    assert!(matches!(api_bridge(&args(&["--shell-context"])), Parsed::Run(true)));
    assert!(matches!(run_of(api_schema(&args(&[]))), SchemaCommand::Summary));
    assert!(matches!(
        run_of(api_schema(&args(&["--output", "x.json"]))),
        SchemaCommand::WriteTo(path) if path == "x.json"
    ));
    assert!(matches!(
        run_of(api_snapshot(&args(&[]))).method,
        Method::SessionSnapshot(_)
    ));
}

#[test]
fn a_channel_is_chosen_from_the_two_there_are() {
    assert!(matches!(
        run_of(run_channel_command(&args(&["set", "preview"]))),
        ChannelCommand::Choose(rest) if rest == args(&["preview"])
    ));
    assert_eq!(run_of(channel_set(&args(&["preview"]), None, false)), "preview");
    assert_eq!(exit_of(channel_set(&args(&["beta"]), None, false)).0, 2);
    assert_eq!(
        exit_of(channel_set(&args(&["preview"]), Some("no preview here"), false)),
        (1, args(&["no preview here."]))
    );
}

#[test]
fn a_configuration_is_written_only_where_it_parses() {
    run_of(channel_config_readable("/c.toml", "[update]\nchannel = \"stable\"\n"));
    let (code, lines) = exit_of(channel_config_readable("/c.toml", "[update\n"));
    assert_eq!(code, 1);
    assert!(lines[0].contains("/c.toml"));
    assert_eq!(
        run_of(channel_config_writable("/c.toml", "preview", "channel = \"preview\"\n")),
        "Herdr update channel set to preview in /c.toml."
    );
    assert_eq!(exit_of(channel_config_writable("/c.toml", "preview", "= 3")).0, 1);
}

#[test]
fn keybindings_are_removed_where_there_are_any() {
    assert_eq!(run_of(run_config_command(&args(&["reset-keys"]))), args(&[]));
    run_of(config_reset_keys(&args(&[]), "/c.toml", Some("[keys]\nquit = \"q\"\n")));
    assert!(matches!(
        config_reset_keys(&args(&[]), "/c.toml", Some("theme = \"dark\"\n")),
        Parsed::Print(_)
    ));
    assert_eq!(exit_of(config_reset_keys(&args(&[]), "/c.toml", Some("[keys\n"))).0, 1);
    run_of(has_keys_to_remove("/c.toml", Ok(Some(args(&["theme", "keys"])))));
    assert_eq!(key_config_backup_path("/etc/config.toml", 77), "/etc/config.toml.bak-keybind-v2-77");
    let reset = run_of(finish_reset_keys("/c.toml", true, "theme = \"dark\"\n", 77));
    assert_eq!(reset.lines[0], format!("Created backup: {}", reset.backup_path));
    assert_eq!(exit_of(finish_reset_keys("/c.toml", true, "= 1", 77)).0, 1);
    assert_eq!(exit_of(keys_removed("/c.toml", false, Ok(Some(args(&[]))), 77)).0, 1);
}

#[test]
fn sessions_are_told_by_name() {
    assert!(run_of(parse_session_json_only(&args(&["--json"]), "usage")));
    assert_eq!(
        run_of(parse_session_name_and_json(&args(&["work", "--json"]), "usage")),
        ("work".to_string(), true)
    );
    assert_eq!(exit_of(parse_session_name_and_json(&args(&[]), "usage")).0, 2);
    assert!(matches!(
        run_session_command(&args(&[])),
        Parsed::Help { topic: HelpTopic::Session, .. }
    ));
}

fn session(name: &str, running: bool) -> SessionInfo {
    SessionInfo {
        name: name.into(),
        running,
        session_dir: "/s".into(),
        socket_path: "/s/herdr.sock".into(),
    }
}

#[test]
fn sessions_are_listed_in_columns() {
    let lines = print_session_table(&vec![session("work", true), session("play", false)]);
    assert_eq!(lines.len(), 3);
    assert_eq!(
        lines[1],
        format!("{:<20} {:<8} {:<48} {}", "work", "running", "/s", "/s/herdr.sock")
    );
    assert!(lines[2].contains("stopped"));
    match session_list(true, &vec![], vec![text("work")]) {
        SessionEnd::Value(line) => assert_eq!(line, "{\"sessions\":[\"work\"]}"),
        _ => panic!("a value was asked for"),
    }
    assert!(matches!(
        session_list(false, &vec![session("work", true)], vec![]),
        SessionEnd::Lines(lines) if lines.len() == 2
    ));
}

#[test]
fn ended_sessions_are_reported() {
    let shown = || ShownSession { info: session("work", false), value: text("work") };
    assert!(matches!(
        session_stop(false, Ok(Ok(shown()))),
        SessionEnd::Lines(lines) if lines == args(&["stopped session work"])
    ));
    match session_delete(true, Ok(shown())) {
        SessionEnd::Value(line) => {
            assert_eq!(line, "{\"deleted\":true,\"session\":\"work\"}");
        }
        _ => panic!("a value was asked for"),
    }
    for (end, code) in [
        (session_stop(false, Err("bad".into())), "invalid_session_name"),
        (session_stop(false, Ok(Err("bad".into()))), "session_stop_failed"),
        (session_delete(false, Err("bad".into())), "session_delete_failed"),
    ] {
        match end {
            SessionEnd::Failed(line) => {
                let expected = format!("{{\"error\":{{\"code\":\"{code}\",\"message\":\"bad\"}}}}");
                assert_eq!(line, expected);
            }
            _ => panic!("expected a failure"),
        }
    }
    let error = session_error("c", "m");
    assert_eq!(at(&error, &["error", "message"]).and_then(|v| v.as_str()), Some("m"));
}

fn invocation() -> ParsedSshInvocation {
    ParsedSshInvocation { target: "workbox".into(), ssh_args: args(&["-p", "2222"]) }
}

#[test]
fn plain_ssh_runs_where_integration_does_not() {
    let begin = run_ssh_command();
    assert!(matches!(begin.action, SshAction::CheckIntegration));
    let off = ssh_step(begin.state, SshEvent::Integrates(false));
    assert!(matches!(off.action, SshAction::FallBack));
    let unparsed = ssh_step(SshState::Parsing, SshEvent::Parsed(None));
    assert!(matches!(unparsed.action, SshAction::FallBack));
    let batch = ssh_step(SshState::Preflighting(invocation()), SshEvent::Preflight(Some(false)));
    assert!(matches!(batch.action, SshAction::FallBack));
    let refused = ssh_step(
        SshState::Authenticating(invocation()),
        SshEvent::Authenticated { managed: Err("no route".into()), owner_pane_id: None },
    );
    assert_eq!(
        refused.notice.as_deref(),
        Some("herdr ssh setup failed, falling back to ssh: no route")
    );
}

#[test]
fn an_answer_without_a_peer_falls_back() {
    let answered = ssh_step(
        SshState::Connecting { parsed: invocation(), control_path: None, owner_pane_id: None },
        SshEvent::Answered(Ok(object(vec![("result", object(vec![]))]))),
    );
    assert!(matches!(answered.action, SshAction::FallBack));
    assert_eq!(
        answered.notice.as_deref(),
        Some("herdr ssh integration returned no peer id, falling back to ssh")
    );
}

#[test]
fn a_connected_session_attaches_over_its_peer() {
    let result = object(vec![
        ("peer", object(vec![("id", text("workbox"))])),
        ("connection_id", text("c1")),
        ("attach", text("info")),
    ]);
    let answered = ssh_step(
        SshState::Connecting {
            parsed: invocation(),
            control_path: Some("/tmp/ctl".into()),
            owner_pane_id: Some("p1".into()),
        },
        SshEvent::Answered(Ok(object(vec![("result", result)]))),
    );
    assert!(matches!(answered.action, SshAction::ReadAttach(Json::Text(info)) if info == "info"));
    match answered.state {
        SshState::ReadingAttach(link) => {
            assert_eq!(link.peer_id, "workbox");
            assert_eq!(link.connection_id, "c1");
            assert_eq!(link.owner_pane_id.as_deref(), Some("p1"));
        }
        _ => panic!("the attach info is read next"),
    }
}

#[test]
fn a_peer_is_kept_alive_and_disconnected() {
    assert!(keepalive_continues(false, None));
    assert!(!keepalive_continues(true, None));
    assert!(!keepalive_continues(false, Some(false)));
    assert!(matches!(
        keepalive_request("hub", "c1").method,
        Method::PeerKeepaliveSsh(p) if p.peer_id == "hub" && p.connection_id == "c1"
    ));
    let refused = object(vec![("error", object(vec![("message", text("unknown"))]))]);
    assert_eq!(disconnect_ssh_peer(Ok(refused)).unwrap_err(), "unknown");
    assert!(disconnect_ssh_peer(Ok(object(vec![]))).is_ok());
    assert_eq!(explicit_remote_ssh_session(Some("work".into())), "work");
}

#[test]
fn terminals_are_attached_with_their_claims() {
    assert!(matches!(
        run_of(run_terminal_command(&args(&["shell"]))),
        TerminalCommand::Shell(rest) if rest.is_empty()
    ));
    let attach = run_of(terminal_attach(&args(&[
        "term",
        "--takeover",
        "--delegation",
        "d1",
        "--delegation-epoch",
        "1",
    ])));
    assert_eq!(attach.terminal_id, "term");
    assert!(attach.takeover);
    assert_eq!(attach.delegation.as_ref().map(|c| c.delegation_id.as_str()), Some("d1"));
    assert!(attach_unsupported(true, &attach).is_some());
    assert!(attach_unsupported(false, &attach).is_none());
}

#[test]
fn shells_start_in_a_tab_of_their_own() {
    let env = vec![
        ("PATH".to_string(), "/bin".to_string()),
        ("HERDR_SOCKET_PATH".to_string(), "/x".to_string()),
    ];
    let request = run_of(terminal_shell(&args(&["--label", "logs"]), Some("/w".into()), env));
    match request.method {
        Method::TabCreate(params) => {
            assert_eq!(params.label.as_deref(), Some("logs"));
            assert_eq!(params.cwd.as_deref(), Some("/w"));
            assert_eq!(params.env, vec![("PATH".to_string(), "/bin".to_string())]);
        }
        _ => panic!("another request"),
    }
    let created = object(vec![(
        "result",
        object(vec![("root_pane", object(vec![("terminal_id", text("term_9"))]))]),
    )]);
    assert!(matches!(attach_to_shell(&created), ShellStep::Attach(id) if id == "term_9"));
    let refused = object(vec![("error", Json::Null)]);
    assert!(matches!(attach_to_shell(&refused), ShellStep::PrintResponse { code: 1, line } if line == "{\"error\":null}"));
}

#[test]
fn terminal_sessions_have_a_size() {
    assert_eq!(parse_terminal_dimension("80", "--cols"), Ok(80));
    assert!(parse_terminal_dimension("0", "--cols").is_err());
    match run_of(terminal_session(&args(&["control", "term", "--cols", "80"]))) {
        SessionMode::Control(options) => {
            assert_eq!(options.target, "term");
            assert_eq!(options.cols, 80);
            assert_eq!(options.rows, 40);
        }
        SessionMode::Observe(_) => panic!("control was asked for"),
    }
    let title = run_of(terminal_title(&args(&["set", "My window"])));
    assert!(matches!(title.method, Method::ClientWindowTitleSet(p) if p.title == "My window"));
}

#[test]
fn waits_are_read_from_their_options() {
    assert!(matches!(
        run_of(run_wait_command(&args(&["output", "p1"]))),
        WaitCommand::Output(rest) if rest == args(&["p1"])
    ));
    let params = run_of(wait_output(&args(&["p1", "--match", "a.*b", "--regex", "--timeout", "9"])));
    assert!(matches!(params.matcher, OutputMatch::Regex { value } if value == "a.*b"));
    assert_eq!(params.timeout_ms, Some(9));
    assert_eq!(exit_of(wait_output(&args(&["p1"]))).1[0], "missing required --match");
    let (subscription, timeout) =
        run_of(wait_agent_status(&args(&["p1", "--status", "idle"])));
    assert_eq!(timeout, None);
    assert!(matches!(
        subscription,
        Subscription::PaneAgentStatusChanged { pane_id, agent_status: Some(AgentStatus::Idle) }
            if pane_id == "p1"
    ));
}
