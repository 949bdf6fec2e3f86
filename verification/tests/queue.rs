use herdr::desktop_queue::channel::{prune_stale_temp_files, Channel, MessageFile, TempFile};
use herdr::desktop_queue::enqueue::{open_capability, QueueEnv};
use herdr::desktop_queue::manager::{ChannelRecord, QueueManager};
use herdr::desktop_queue::order::name_less;
use herdr::desktop_queue::private::{
    is_record_entry, quarantine_destination, quarantine_name, session_key, temporary_name,
    validate_open_private_file, validate_private_dir, EntryFacts, IoFault, PRIVATE_DIR_MODE,
    PRIVATE_FILE_MODE,
};
use herdr::desktop_queue::reconcile::{ChannelIds, MAX_CHANNEL_DRAWS};
use herdr::desktop_queue::{
    draw_id, file_name_for, parse_channel_name, placeholder_identity, validate_component,
    validate_id, validate_message, ChannelHandle, ChannelMetadata, CliIdentity, CliState,
    DrainResult, EnqueueReceipt, QueueError, QueueErrorKind, QueuedMessage, LEASE_DURATION_MS,
    MAX_CHANNELS, MAX_CHANNEL_BYTES, MAX_MESSAGES_PER_CHANNEL, RECEIPT_DURATION_MS,
    STALE_RECORD_DURATION_MS,
};

const NOW: u64 = 1_700_000_000_000;

fn manager() -> QueueManager {
    QueueManager::new("/spool".into(), "session".into(), vec![], vec![], vec![], NOW)
}

/// The same spool, read again.
fn restart(manager: QueueManager, now: u64) -> QueueManager {
    QueueManager::new(
        manager.root,
        manager.session,
        manager.index,
        manager.channels,
        manager.quarantine,
        now,
    )
}

fn active_identity(cli_id: &str) -> CliIdentity {
    CliIdentity {
        cli_id: cli_id.to_string(),
        pane_id: "w1:p1".to_string(),
        terminal_id: "terminal-1".to_string(),
        workspace_id: "w1".to_string(),
        tab_id: "w1:t1".to_string(),
        name: "worker".to_string(),
        cwd: "/tmp".to_string(),
        state: CliState::Active,
        launch_marker: None,
    }
}

fn active_channel(manager: &mut QueueManager) -> ChannelHandle {
    let handle = manager.create_channel("worker", "/tmp", NOW).unwrap();
    manager.activate_channel(&handle, active_identity(&handle.cli_id), NOW).unwrap();
    handle
}

fn env_of(handle: &ChannelHandle) -> QueueEnv {
    let get = |name: &str| {
        handle.env.iter().find(|(key, _)| key == name).map(|(_, value)| value.clone())
    };
    QueueEnv {
        version: get("HERDR_DESKTOP_QUEUE_VERSION"),
        cli_id: get("HERDR_DESKTOP_CLI_ID"),
        dir: get("HERDR_DESKTOP_QUEUE_DIR"),
    }
}

fn record<'a>(manager: &'a mut QueueManager, channel_dir: &str) -> Option<&'a mut ChannelRecord> {
    manager.channels.iter_mut().find(|channel| channel.dir == channel_dir)
}

fn metadata<'a>(manager: &'a mut QueueManager, channel_dir: &str) -> &'a mut ChannelMetadata {
    match &mut record(manager, channel_dir).unwrap().metadata {
        Some(Ok(metadata)) => metadata,
        _ => panic!("the channel has metadata"),
    }
}

fn encoded(message: &QueuedMessage) -> Vec<u8> {
    format!("{message:?}").into_bytes()
}

fn enqueue_as(
    manager: &mut QueueManager,
    env: &QueueEnv,
    kind: &str,
    correlation_id: Option<&str>,
    text: &str,
    now: u64,
) -> Result<EnqueueReceipt, QueueError> {
    let correlation_id = correlation_id.map(str::to_string);
    let (cli_id, dir) = open_capability(env, kind, &correlation_id, text)?;
    let name = dir.rsplit('/').next().unwrap().to_string();
    let record = record(manager, &name).unwrap();
    let metadata = match &mut record.metadata {
        Some(Ok(metadata)) => metadata,
        _ => panic!("the channel has metadata"),
    };
    let message =
        record.channel.begin_enqueue(metadata, &cli_id, kind, &correlation_id, text, now)?;
    let bytes = encoded(&message);
    record.channel.finish_enqueue(metadata, message, bytes)
}

fn enqueue(
    manager: &mut QueueManager,
    handle: &ChannelHandle,
    kind: &str,
    text: &str,
) -> EnqueueReceipt {
    enqueue_as(manager, &env_of(handle), kind, None, text, NOW).unwrap()
}

fn drain_at(manager: &mut QueueManager, cli_id: &str, limit: usize, now: u64) -> DrainResult {
    manager.drain_bounded(cli_id, limit, |_: &DrainResult| true, now).unwrap()
}

fn drain(manager: &mut QueueManager, cli_id: &str, limit: usize) -> DrainResult {
    drain_at(manager, cli_id, limit, NOW)
}

fn texts(drain: &DrainResult) -> Vec<&str> {
    drain.messages.iter().map(|message| message.text.as_str()).collect()
}

#[test]
fn offline_enqueue_drain_and_idempotent_ack() {
    let mut manager = manager();
    let handle = manager.create_channel("worker", "/tmp", NOW).unwrap();
    let identity =
        manager.activate_channel(&handle, active_identity(&handle.cli_id), NOW).unwrap();

    let receipt =
        enqueue_as(&mut manager, &env_of(&handle), "result", Some("turn-1"), "done", NOW).unwrap();
    assert_eq!(receipt.cli_id, identity.cli_id);
    assert_eq!(receipt.sequence, 1);
    let drained = drain(&mut manager, &identity.cli_id, 20);
    assert_eq!(drained.messages.len(), 1);
    assert_eq!(drained.messages[0].text, "done");
    assert_eq!(drained.messages[0].correlation_id.as_deref(), Some("turn-1"));
    assert_eq!(drained.lease_expires_at_unix_ms, NOW + LEASE_DURATION_MS);
    let ack = manager.ack(&identity.cli_id, &drained.lease_id, NOW).unwrap();
    assert_eq!(ack.deleted, 1);
    assert!(!ack.already_acked);
    assert!(manager.ack(&identity.cli_id, &drained.lease_id, NOW).unwrap().already_acked);
}

#[test]
fn creating_channel_persists_marker_and_can_be_reconciled() {
    let mut manager = manager();
    let handle = manager.create_channel("worker", "/tmp", NOW).unwrap();

    let creating = manager.lookup_cli(&handle.cli_id).unwrap();
    assert_eq!(creating.state, CliState::Creating);
    assert_eq!(creating.launch_marker.as_deref(), Some(handle.launch_marker.as_str()));
    assert_eq!(
        manager
            .activate_reconciled(
                &handle.cli_id,
                "herdr_mcp_wrong",
                active_identity(&handle.cli_id),
                NOW,
            )
            .unwrap_err()
            .kind(),
        QueueErrorKind::Corrupt
    );

    let active = manager
        .activate_reconciled(
            &handle.cli_id,
            &handle.launch_marker,
            active_identity(&handle.cli_id),
            NOW,
        )
        .unwrap();
    assert_eq!(active.state, CliState::Active);
    assert_eq!(active.launch_marker.as_deref(), Some(handle.launch_marker.as_str()));
    assert!(manager.lookup_cli(&handle.cli_id).unwrap().same(&active));
}

#[test]
fn bounded_drain_leases_only_fitting_messages_and_release_restores_fifo() {
    let mut manager = manager();
    let handle = active_channel(&mut manager);
    enqueue(&mut manager, &handle, "result", "first");
    enqueue(&mut manager, &handle, "result", "second");

    let first = manager
        .drain_bounded(
            &handle.cli_id,
            20,
            |candidate: &DrainResult| candidate.messages.len() <= 1,
            NOW,
        )
        .unwrap();
    assert_eq!(first.messages.len(), 1);
    assert_eq!(first.messages[0].text, "first");
    assert_eq!(first.remaining, 1);
    manager.release(&handle.cli_id, &first.lease_id).unwrap();

    let replay = drain(&mut manager, &handle.cli_id, 20);
    assert_eq!(texts(&replay), ["first", "second"]);
}

#[test]
fn capability_must_match_cli_metadata() {
    let mut manager = manager();
    let handle = manager.create_channel("worker", "/tmp", NOW).unwrap();
    let env = QueueEnv { cli_id: Some("cli_wrong".into()), ..env_of(&handle) };
    let err = enqueue_as(&mut manager, &env, "info", None, "hello", NOW).unwrap_err();
    assert_eq!(err.kind(), QueueErrorKind::PermissionDenied);
}

#[test]
fn producers_are_fifo_and_unique() {
    let mut manager = manager();
    let handle = active_channel(&mut manager);
    let sequences: Vec<u64> = (0..8)
        .map(|index| {
            enqueue(&mut manager, &handle, "progress", &format!("message-{index}")).sequence
        })
        .collect();
    assert_eq!(sequences, (1..=8).collect::<Vec<_>>());

    let drained = drain(&mut manager, &handle.cli_id, 20);
    assert_eq!(drained.messages.len(), 8);
    assert!(drained.messages.windows(2).all(|pair| pair[0].sequence < pair[1].sequence));
}

#[test]
fn producers_and_drainers_do_not_duplicate_messages() {
    let mut manager = manager();
    let handle = active_channel(&mut manager);
    let mut sequences = Vec::new();
    for index in 0..40 {
        enqueue(&mut manager, &handle, "progress", &format!("message-{index}"));
        if index % 5 == 4 {
            let lease = drain(&mut manager, &handle.cli_id, 3);
            sequences.extend(lease.messages.iter().map(|message| message.sequence));
            manager.ack(&handle.cli_id, &lease.lease_id, NOW).unwrap();
        }
    }
    loop {
        let lease = drain(&mut manager, &handle.cli_id, 7);
        if lease.messages.is_empty() {
            break;
        }
        sequences.extend(lease.messages.iter().map(|message| message.sequence));
        manager.ack(&handle.cli_id, &lease.lease_id, NOW).unwrap();
    }
    assert_eq!(sequences, (1..=40).collect::<Vec<_>>());
}

#[test]
fn expired_lease_requeues_messages() {
    let mut manager = manager();
    let handle = active_channel(&mut manager);
    enqueue(&mut manager, &handle, "question", "retry me");

    let first = drain(&mut manager, &handle.cli_id, 1);
    let record = record(&mut manager, &handle.channel_dir).unwrap();
    match &mut record.channel.leases[0].metadata {
        Ok(lease) => lease.expires_at_unix_ms = 0,
        Err(_) => panic!("the lease has metadata"),
    }

    let second = drain(&mut manager, &handle.cli_id, 1);
    assert_eq!(second.messages.len(), 1);
    assert_eq!(second.messages[0].text, "retry me");
    assert_ne!(first.lease_id, second.lease_id);
}

#[test]
fn acknowledged_messages_are_never_drained_again() {
    let mut manager = manager();
    let handle = active_channel(&mut manager);
    for text in ["a", "b", "c"] {
        enqueue(&mut manager, &handle, "result", text);
    }
    let first = drain_at(&mut manager, &handle.cli_id, 2, NOW);
    assert_eq!(texts(&first), ["a", "b"]);
    let ack = manager.ack(&handle.cli_id, &first.lease_id, NOW + 1).expect("in time");
    assert_eq!(ack.deleted, 2);
    enqueue(&mut manager, &handle, "result", "d");
    let late = NOW + 48 * 60 * 60 * 1000;
    assert_eq!(texts(&drain_at(&mut manager, &handle.cli_id, 10, late)), ["c", "d"]);
}

#[test]
fn leases_last_ten_minutes() {
    let mut manager = manager();
    let handle = active_channel(&mut manager);
    enqueue(&mut manager, &handle, "question", "retry me");
    let first = drain(&mut manager, &handle.cli_id, 1);
    let before = drain_at(&mut manager, &handle.cli_id, 1, NOW + LEASE_DURATION_MS - 1);
    assert!(before.messages.is_empty());
    assert_eq!(
        manager.ack(&handle.cli_id, &first.lease_id, NOW + LEASE_DURATION_MS).unwrap_err().kind(),
        QueueErrorKind::LeaseExpired
    );
}

#[test]
fn corrupt_messages_are_quarantined() {
    let mut manager = manager();
    let handle = active_channel(&mut manager);
    let channel = &mut record(&mut manager, &handle.channel_dir).unwrap().channel;
    channel.pending.push(MessageFile {
        name: "00000000000000000001-bad.json".into(),
        content: b"not-json".to_vec(),
        encoded_len: 0,
        message: Err(QueueError::new(QueueErrorKind::Corrupt, "not json")),
    });

    let drained = drain(&mut manager, &handle.cli_id, 20);
    assert!(drained.messages.is_empty());
    assert_eq!(drained.quarantined, 1);
    let channel = &record(&mut manager, &handle.channel_dir).unwrap().channel;
    assert_eq!(channel.quarantine.len(), 1);
}

fn dir_facts() -> EntryFacts {
    EntryFacts {
        is_dir: true,
        is_file: false,
        is_symlink: false,
        uid: 501,
        mode: PRIVATE_DIR_MODE,
        links: 2,
    }
}

fn file_facts() -> EntryFacts {
    EntryFacts {
        is_dir: false,
        is_file: true,
        is_symlink: false,
        uid: 501,
        mode: PRIVATE_FILE_MODE,
        links: 1,
    }
}

#[test]
fn wrong_directory_mode_is_rejected() {
    validate_private_dir("/spool", Ok(dir_facts()), 501).unwrap();
    let open = EntryFacts { mode: 0o755, ..dir_facts() };
    let err = validate_private_dir("/spool", Ok(open), 501).unwrap_err();
    assert_eq!(err.kind(), QueueErrorKind::PermissionDenied);
    let foreign = EntryFacts { uid: 0, ..dir_facts() };
    let err = validate_private_dir("/spool", Ok(foreign), 501).unwrap_err();
    assert_eq!(err.kind(), QueueErrorKind::PermissionDenied);
}

#[test]
fn private_directory_symlink_is_rejected() {
    let link = EntryFacts { is_dir: false, is_symlink: true, mode: 0o777, ..dir_facts() };
    let err = validate_private_dir("/spool", Ok(link), 501).unwrap_err();
    assert_eq!(err.kind(), QueueErrorKind::PermissionDenied);
    let err = validate_private_dir("/spool", Err((IoFault::NotFound, "gone".into())), 501)
        .unwrap_err();
    assert_eq!(err.kind(), QueueErrorKind::NotFound);
}

#[test]
fn interior_symlinks_are_rejected() {
    let link = EntryFacts { is_file: false, is_symlink: true, ..file_facts() };
    let err = is_record_entry("/spool/pending/linked.json", "linked.json", link).unwrap_err();
    assert_eq!(err.kind(), QueueErrorKind::PermissionDenied);
    assert!(is_record_entry("/spool/pending/a.json", "a.json", file_facts()).unwrap());
    assert!(!is_record_entry("/spool/pending/.tmp-1", ".tmp-1", file_facts()).unwrap());
}

#[test]
fn queue_files_and_directories_are_private() {
    assert_eq!(PRIVATE_DIR_MODE & 0o777, 0o700);
    assert_eq!(PRIVATE_FILE_MODE & 0o777, 0o600);
    validate_open_private_file("/spool/spool.lock", file_facts(), 501).unwrap();
    for facts in [
        EntryFacts { mode: 0o644, ..file_facts() },
        EntryFacts { links: 2, ..file_facts() },
        EntryFacts { uid: 0, ..file_facts() },
        EntryFacts { is_file: false, ..file_facts() },
    ] {
        let err = validate_open_private_file("/spool/spool.lock", facts, 501).unwrap_err();
        assert_eq!(err.kind(), QueueErrorKind::PermissionDenied);
    }
}

#[test]
fn corrupt_lease_metadata_requeues_without_losing_messages() {
    let mut manager = manager();
    let handle = active_channel(&mut manager);
    enqueue(&mut manager, &handle, "result", "first");
    enqueue(&mut manager, &handle, "result", "second");

    drain(&mut manager, &handle.cli_id, 2);
    let channel = &mut record(&mut manager, &handle.channel_dir).unwrap().channel;
    match &mut channel.leases[0].metadata {
        Ok(lease) => {
            lease.files.clear();
            lease.expires_at_unix_ms = 0;
        }
        Err(_) => panic!("the lease has metadata"),
    }

    let recovered = drain(&mut manager, &handle.cli_id, 2);
    assert_eq!(texts(&recovered), ["first", "second"]);
    let channel = &record(&mut manager, &handle.channel_dir).unwrap().channel;
    assert_eq!(channel.quarantine.len(), 1);
}

#[test]
fn closed_channel_retains_live_ack_receipt() {
    let mut manager = manager();
    let handle = active_channel(&mut manager);
    enqueue(&mut manager, &handle, "result", "done");
    let lease = drain(&mut manager, &handle.cli_id, 1);
    manager.ack(&handle.cli_id, &lease.lease_id, NOW).unwrap();
    manager.mark_closed(&handle.cli_id, NOW).unwrap();

    manager.create_channel("next", "/tmp", NOW).unwrap();
    let repeated = manager.ack(&handle.cli_id, &lease.lease_id, NOW).unwrap();
    assert!(repeated.already_acked);
    assert_eq!(repeated.deleted, 1);
}

#[test]
fn restart_reconciles_split_identity_update() {
    let mut manager = manager();
    let handle = manager.create_channel("worker", "/tmp", NOW).unwrap();
    let expected =
        manager.activate_channel(&handle, active_identity(&handle.cli_id), NOW).unwrap();
    let mut stale = placeholder_identity(metadata(&mut manager, &handle.channel_dir));
    stale.state = CliState::Creating;
    match &mut manager.index[0].entry {
        Ok(entry) => entry.identity = stale,
        Err(_) => panic!("the index has the channel"),
    }

    let restarted = restart(manager, NOW);
    assert!(restarted.lookup_cli(&handle.cli_id).unwrap().same(&expected));
}

#[test]
fn queued_messages_survive_manager_restart() {
    let mut manager = manager();
    let handle = active_channel(&mut manager);
    enqueue(&mut manager, &handle, "result", "persisted");

    let mut restarted = restart(manager, NOW);
    let lease = drain(&mut restarted, &handle.cli_id, 20);
    assert_eq!(lease.messages.len(), 1);
    assert_eq!(lease.messages[0].text, "persisted");
}

#[test]
fn restart_quarantines_and_rebuilds_corrupt_index() {
    let mut manager = manager();
    let handle = manager.create_channel("worker", "/tmp", NOW).unwrap();
    let expected =
        manager.activate_channel(&handle, active_identity(&handle.cli_id), NOW).unwrap();
    manager.index[0].entry = Err(QueueError::new(QueueErrorKind::Corrupt, "not json"));

    let restarted = restart(manager, NOW);
    assert!(restarted.lookup_cli(&handle.cli_id).unwrap().same(&expected));
    assert_eq!(restarted.quarantine.len(), 1);
}

#[test]
fn stale_temporary_and_creating_records_are_pruned() {
    let mut manager = manager();
    let handle = manager.create_channel("worker", "/tmp", NOW).unwrap();
    let abandoned = vec![TempFile { name: ".tmp-abandoned".into(), modified_ms: NOW }];
    assert!(prune_stale_temp_files(abandoned, NOW + STALE_RECORD_DURATION_MS + 1).is_empty());
    let fresh = vec![TempFile { name: ".tmp-fresh".into(), modified_ms: NOW }];
    assert_eq!(prune_stale_temp_files(fresh, NOW).len(), 1);

    metadata(&mut manager, &handle.channel_dir).updated_at_unix_ms = 0;
    manager.index.clear();

    let mut restarted = restart(manager, NOW);
    assert!(record(&mut restarted, &handle.channel_dir).is_some());
    assert_eq!(
        restarted.lookup_cli(&handle.cli_id).unwrap().launch_marker.as_deref(),
        Some(handle.launch_marker.as_str())
    );

    let pruned = restarted.prune_stale_creating(vec![], NOW);
    assert_eq!(pruned, vec![handle.cli_id.clone()]);
    assert!(record(&mut restarted, &handle.channel_dir).is_none());
}

#[test]
fn confirmed_live_marker_and_nonempty_channel_block_stale_pruning() {
    let mut manager = manager();
    let live = manager.create_channel("live", "/tmp", NOW).unwrap();
    metadata(&mut manager, &live.channel_dir).updated_at_unix_ms = 0;

    let live_markers = vec![live.launch_marker.clone()];
    assert!(manager.prune_stale_creating(live_markers.clone(), NOW).is_empty());
    assert!(record(&mut manager, &live.channel_dir).is_some());

    let queued = manager.create_channel("queued", "/tmp", NOW).unwrap();
    enqueue(&mut manager, &queued, "info", "preserve me");
    metadata(&mut manager, &queued.channel_dir).updated_at_unix_ms = 0;

    assert!(manager.prune_stale_creating(live_markers, NOW).is_empty());
    assert!(record(&mut manager, &queued.channel_dir).is_some());
}

#[test]
fn markerless_stale_creating_record_is_pruned_during_maintenance() {
    let mut manager = manager();
    let handle = manager.create_channel("legacy", "/tmp", NOW).unwrap();
    let metadata = metadata(&mut manager, &handle.channel_dir);
    metadata.updated_at_unix_ms = 0;
    metadata.launch_marker = None;
    if let Some(identity) = metadata.identity.as_mut() {
        identity.launch_marker = None;
    }

    let mut restarted = restart(manager, NOW);
    assert!(record(&mut restarted, &handle.channel_dir).is_none());
}

#[test]
fn serialized_byte_quota_does_not_overshoot() {
    let mut manager = manager();
    let handle = active_channel(&mut manager);
    let channel = &mut record(&mut manager, &handle.channel_dir).unwrap().channel;
    channel.pending.push(MessageFile {
        name: "00000000000000000000-filler.json".into(),
        content: vec![0; MAX_CHANNEL_BYTES - 1],
        encoded_len: 0,
        message: Err(QueueError::new(QueueErrorKind::Corrupt, "filler")),
    });

    let before = channel.queued_usage();
    assert_eq!(before, (1, MAX_CHANNEL_BYTES - 1));
    let err =
        enqueue_as(&mut manager, &env_of(&handle), "info", None, "x", NOW).unwrap_err();
    assert_eq!(err.kind(), QueueErrorKind::Full);
    let channel = &record(&mut manager, &handle.channel_dir).unwrap().channel;
    assert_eq!(channel.queued_usage(), before);
}

#[test]
fn a_channel_holds_a_thousand_messages() {
    let mut manager = manager();
    let handle = active_channel(&mut manager);
    for _ in 0..MAX_MESSAGES_PER_CHANNEL {
        enqueue(&mut manager, &handle, "progress", "m");
    }
    let err = enqueue_as(&mut manager, &env_of(&handle), "info", None, "x", NOW).unwrap_err();
    assert_eq!(err.kind(), QueueErrorKind::Full);
    let lease = drain(&mut manager, &handle.cli_id, 100);
    assert_eq!(lease.messages.len(), 100);
    assert_eq!(lease.remaining, 900);
    let channel = &record(&mut manager, &handle.channel_dir).unwrap().channel;
    assert_eq!(channel.lease_message_count(), 100);
    manager.ack(&handle.cli_id, &lease.lease_id, NOW).unwrap();
    assert_eq!(enqueue(&mut manager, &handle, "info", "x").sequence, 1_001);
}

#[test]
fn expired_receipt_allows_empty_closed_channel_pruning() {
    let mut manager = manager();
    let handle = active_channel(&mut manager);
    enqueue(&mut manager, &handle, "result", "done");
    let lease = drain(&mut manager, &handle.cli_id, 1);
    manager.ack(&handle.cli_id, &lease.lease_id, NOW).unwrap();
    manager.mark_closed(&handle.cli_id, NOW).unwrap();
    let channel = &mut record(&mut manager, &handle.channel_dir).unwrap().channel;
    match &mut channel.receipts[0].receipt {
        Ok(receipt) => receipt.acked_at_unix_ms = 0,
        Err(_) => panic!("the lease was acknowledged"),
    }

    manager.create_channel("next", "/tmp", NOW).unwrap();
    assert_eq!(
        manager.lookup_cli(&handle.cli_id).unwrap_err().kind(),
        QueueErrorKind::CliNotFound
    );
}

#[test]
fn receipts_are_kept_for_a_day() {
    let mut manager = manager();
    let handle = active_channel(&mut manager);
    enqueue(&mut manager, &handle, "result", "done");
    let lease = drain(&mut manager, &handle.cli_id, 1);
    manager.ack(&handle.cli_id, &lease.lease_id, NOW).unwrap();
    let late = NOW + RECEIPT_DURATION_MS;
    assert!(manager.ack(&handle.cli_id, &lease.lease_id, late - 1).unwrap().already_acked);
    assert_eq!(
        manager.ack(&handle.cli_id, &lease.lease_id, late).unwrap_err().kind(),
        QueueErrorKind::LeaseNotFound
    );
}

#[test]
fn channel_quota_rejects_the_thirty_third_channel() {
    let mut manager = manager();
    for index in 0..MAX_CHANNELS {
        manager.create_channel(&format!("worker-{index}"), "/tmp", NOW).unwrap();
    }
    let err = manager.create_channel("one-too-many", "/tmp", NOW).unwrap_err();
    assert_eq!(err.kind(), QueueErrorKind::Full);
}

fn ids(n: usize) -> Result<ChannelIds, QueueError> {
    Ok(ChannelIds {
        cli_id: format!("cli_{n}"),
        launch_marker: format!("herdr_mcp_{n}"),
        capability: format!("{n:064x}"),
    })
}

fn failed_draw() -> Result<ChannelIds, QueueError> {
    Err(QueueError::new(QueueErrorKind::Io, "secure random failed: none"))
}

#[test]
fn a_channel_takes_the_first_identifiers_that_are_free() {
    let mut manager = manager();
    let first = manager
        .create_channel_as(vec![ids(1), failed_draw()], "one", "/tmp", NOW)
        .unwrap();
    assert_eq!(first.cli_id, "cli_1");
    assert_eq!(first.launch_marker, "herdr_mcp_1");
    assert_eq!(first.channel_dir, format!("cli_1.{:064x}", 1));
    let second = manager
        .create_channel_as(vec![ids(1), ids(2), ids(3)], "two", "/work", NOW)
        .unwrap();
    assert_eq!(second.channel_dir, format!("cli_2.{:064x}", 2));
    assert_eq!(
        second.env,
        [
            ("HERDR_DESKTOP_QUEUE_VERSION".to_string(), "1".to_string()),
            ("HERDR_DESKTOP_CLI_ID".to_string(), "cli_2".to_string()),
            ("HERDR_DESKTOP_QUEUE_DIR".to_string(), format!("/spool/channels/cli_2.{:064x}", 2)),
        ]
    );
    let dirs: Vec<&str> = manager.channels.iter().map(|record| record.dir.as_str()).collect();
    assert_eq!(dirs, [first.channel_dir.as_str(), second.channel_dir.as_str()]);
    assert_eq!(manager.lookup_cli("cli_2").unwrap().cwd, "/work");
}

#[test]
fn a_draw_that_fails_before_one_is_free_is_the_answer() {
    let mut manager = manager();
    manager.create_channel_as(vec![ids(1)], "one", "/tmp", NOW).unwrap();
    let err = manager
        .create_channel_as(vec![ids(1), failed_draw(), ids(2)], "two", "/tmp", NOW)
        .unwrap_err();
    assert_eq!(err.kind(), QueueErrorKind::Io);
    assert_eq!(err.text(), "secure random failed: none");
    assert_eq!(manager.channels.len(), 1);
}

#[test]
fn there_is_no_channel_where_every_name_is_taken() {
    let mut manager = manager();
    for n in 0..MAX_CHANNEL_DRAWS {
        manager.create_channel_as(vec![ids(n)], "worker", "/tmp", NOW).unwrap();
    }
    let err = manager
        .create_channel_as((0..MAX_CHANNEL_DRAWS).map(ids).collect(), "next", "/tmp", NOW)
        .unwrap_err();
    assert_eq!(err.kind(), QueueErrorKind::Io);
    assert_eq!(err.text(), "failed to allocate a unique desktop queue channel");
    assert_eq!(manager.channels.len(), MAX_CHANNEL_DRAWS);
}

#[test]
fn a_launch_whose_directory_is_gone_cannot_be_activated() {
    let mut manager = manager();
    let handle = manager.create_channel("worker", "/tmp", NOW).unwrap();
    manager.channels.clear();
    let err = manager
        .activate_channel(&handle, active_identity(&handle.cli_id), NOW)
        .unwrap_err();
    assert_eq!(err.kind(), QueueErrorKind::Io);
    let dir = format!("/spool/channels/{}", handle.channel_dir);
    assert_eq!(
        err.text(),
        format!("create private file {dir}/queue.lock: No such file or directory (os error 2)")
    );
    let err = manager.abort_empty_channel(&handle, NOW).unwrap_err();
    assert_eq!(err.kind(), QueueErrorKind::NotFound);
    assert_eq!(
        err.text(),
        format!("inspect private directory {dir}: No such file or directory (os error 2)")
    );
}

#[test]
fn a_channel_without_its_record_cannot_be_closed() {
    let mut manager = manager();
    let handle = active_channel(&mut manager);
    record(&mut manager, &handle.channel_dir).unwrap().metadata = None;
    let err = manager.mark_closed(&handle.cli_id, NOW).unwrap_err();
    assert_eq!(err.kind(), QueueErrorKind::Io);
    assert_eq!(
        err.text(),
        format!(
            "open private file /spool/channels/{}/channel.json: No such file or directory \
             (os error 2)",
            handle.channel_dir
        )
    );
}

#[test]
fn closed_channels_keep_what_was_quarantined() {
    let mut manager = manager();
    let handle = active_channel(&mut manager);
    record(&mut manager, &handle.channel_dir).unwrap().channel.quarantine.push("x-a.json".into());
    manager.mark_closed(&handle.cli_id, NOW).unwrap();
    let mut manager = restart(manager, NOW);
    assert!(record(&mut manager, &handle.channel_dir).is_some());
    record(&mut manager, &handle.channel_dir).unwrap().channel.quarantine.clear();
    let mut manager = restart(manager, NOW);
    assert!(record(&mut manager, &handle.channel_dir).is_none());
}

#[test]
fn closed_channels_take_no_messages() {
    let mut manager = manager();
    let handle = active_channel(&mut manager);
    manager.mark_closed(&handle.cli_id, NOW).unwrap();
    let err = enqueue_as(&mut manager, &env_of(&handle), "info", None, "x", NOW).unwrap_err();
    assert_eq!(err.kind(), QueueErrorKind::Closed);
}

#[test]
fn abandoned_channels_leave_nothing_behind() {
    let mut manager = manager();
    let handle = manager.create_channel("worker", "/tmp", NOW).unwrap();
    manager.abort_empty_channel(&handle, NOW).unwrap();
    assert!(record(&mut manager, &handle.channel_dir).is_none());
    assert_eq!(
        manager.lookup_cli(&handle.cli_id).unwrap_err().kind(),
        QueueErrorKind::CliNotFound
    );
}

#[test]
fn drains_are_bounded() {
    let mut manager = manager();
    let handle = active_channel(&mut manager);
    for limit in [0, 101] {
        assert_eq!(
            manager
                .drain_bounded(&handle.cli_id, limit, |_: &DrainResult| true, NOW)
                .unwrap_err()
                .kind(),
            QueueErrorKind::Invalid
        );
    }
    assert_eq!(
        manager.drain_bounded("../x", 1, |_: &DrainResult| true, NOW).unwrap_err().kind(),
        QueueErrorKind::Invalid
    );
    assert_eq!(
        manager.release(&handle.cli_id, "lease_none").unwrap_err().kind(),
        QueueErrorKind::LeaseNotFound
    );
}

#[test]
fn a_failed_draw_leases_nothing() {
    let mut manager = manager();
    let handle = active_channel(&mut manager);
    enqueue(&mut manager, &handle, "result", "first");
    let failed = Err(QueueError::new(QueueErrorKind::Io, "secure random failed: none"));
    let err = manager
        .drain_as(&handle.cli_id, 20, |_: &DrainResult| true, failed, NOW)
        .unwrap_err();
    assert_eq!(err.text(), "secure random failed: none");
    assert_eq!(texts(&drain(&mut manager, &handle.cli_id, 20)), ["first"]);

    let mut channel = Channel::new();
    let failed = Err(QueueError::new(QueueErrorKind::Io, "secure random failed: none"));
    let err = channel
        .begin_enqueue_as(
            metadata(&mut manager, &handle.channel_dir),
            &handle.cli_id,
            "info",
            &None,
            "x",
            failed,
            NOW,
        )
        .unwrap_err();
    assert_eq!(err.kind(), QueueErrorKind::Io);
}

#[test]
fn messages_are_checked_before_they_are_queued() {
    validate_message("info", &Some("turn-1".into()), "text").unwrap();
    assert!(validate_message("shout", &None, "text").is_err());
    assert!(validate_message("info", &None, &"x".repeat(65_537)).is_err());
    validate_message("info", &None, &"x".repeat(65_536)).unwrap();
    assert!(validate_message("info", &Some("".into()), "text").is_err());
    assert!(validate_message("info", &Some("a b".into()), "text").is_err());
    validate_id("cli_id", "cli_1").unwrap();
    assert!(validate_id("cli_id", "").is_err());
    assert!(validate_component("name", "a/b").is_err());
}

#[test]
fn message_files_sort_by_sequence() {
    assert_eq!(file_name_for(7, "msg_a"), "00000000000000000007-msg_a.json");
    assert!(name_less(&file_name_for(9, "msg_z"), &file_name_for(10, "msg_a")));
    assert!(!name_less("b", "a"));
}

#[test]
fn identifiers_are_drawn() {
    let first = draw_id("msg_", 16).unwrap();
    let second = draw_id("msg_", 16).unwrap();
    assert_eq!(first.len(), 36);
    assert!(first.starts_with("msg_"));
    assert_ne!(first, second);
    let tagged = quarantine_destination("a.json").unwrap();
    assert_eq!(tagged.len(), 16 + 7);
    assert!(tagged.ends_with("-a.json"));
    assert_eq!(quarantine_name("tag", "a.json"), "tag-a.json");
    assert_eq!(temporary_name().unwrap().len(), 29);
}

#[test]
fn sessions_are_known_by_their_socket() {
    let key = session_key(&b"/tmp/herdr.sock".to_vec());
    assert_eq!(key, "0cb0c5e4a7465217");
    assert_ne!(key, session_key(&b"/tmp/other.sock".to_vec()));
    assert!(key.bytes().all(|byte| byte.is_ascii_hexdigit()));
}

#[test]
fn channel_directories_name_their_cli() {
    let mut manager = manager();
    let handle = manager.create_channel("worker", "/tmp", NOW).unwrap();
    let (cli_id, _) = parse_channel_name(&handle.channel_dir).unwrap();
    assert_eq!(cli_id, handle.cli_id);
    assert!(parse_channel_name("nothing").is_err());
}

#[test]
fn capabilities_are_read_from_the_environment() {
    let env = || QueueEnv {
        version: Some("1".into()),
        cli_id: Some("cli_1".into()),
        dir: Some("/spool/c".into()),
    };
    assert_eq!(
        open_capability(&env(), "info", &None, "x").unwrap(),
        ("cli_1".to_string(), "/spool/c".to_string())
    );
    for broken in [
        QueueEnv { version: None, ..env() },
        QueueEnv { cli_id: None, ..env() },
        QueueEnv { dir: None, ..env() },
        QueueEnv { dir: Some("spool/c".into()), ..env() },
    ] {
        assert_eq!(
            open_capability(&broken, "info", &None, "x").unwrap_err().kind(),
            QueueErrorKind::PermissionDenied
        );
    }
    let broken = QueueEnv { cli_id: Some("../x".into()), ..env() };
    assert_eq!(
        open_capability(&broken, "info", &None, "x").unwrap_err().kind(),
        QueueErrorKind::Invalid
    );
}
