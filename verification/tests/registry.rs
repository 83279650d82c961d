use shikigami::checkpoint::{is_safe_run_id, Checkpoint};
use shikigami::config::Config;
use shikigami::digest::text_label;
use shikigami::events::{event_detail, event_name, format_event, HarnessEvent};
use shikigami::metrics::{
    aggregate_lock_step, process_is_alive, LockStep, LockTry, Metrics, MetricsSnapshot,
    PersistedMetrics, ProcessSnapshot, LOCK_TRIES,
};
use shikigami::model::TokenUsage;
use shikigami::registry::{RegistryError, RunRegistry, RunSlot, ACTIVE_HEARTBEAT_TTL_MS};
use shikigami::run::preparation::check_restore;
use shikigami::run::resume::{
    configured_workspace_adapter, is_below, join_path, validate_resumed_workspace, workspace_place,
    BelowProbe, Component, WorkspacePlace,
};
use shikigami::run::{RunError, RunRequest, RunResult, RunTermination};

fn empty_slot() -> RunSlot {
    RunSlot { record: None, cancel_marker: false, owner_ms: None }
}

fn registry() -> RunRegistry {
    RunRegistry::new("/state")
}

#[test]
fn records_runs_and_control_markers_without_task_text() {
    let registry = registry();
    let mut slot = empty_slot();
    registry.start(&mut slot, "run-1", "secret task", Some("op-1"), None, 5, 7).unwrap();
    let record = registry.load(&slot, "run-1").unwrap();
    assert_eq!(record.status, "running");
    assert!(!format!("{record:?}").contains("secret task"));
    assert_eq!(record.task_digest, text_label("secret task"));
    registry.cancel(&mut slot, "run-1").unwrap();
    assert!(registry.cancel_requested(&slot));
    registry.clear_cancel(&mut slot, "run-1").unwrap();
    assert!(!registry.cancel_requested(&slot));
}

#[test]
fn recent_heartbeat_prevents_concurrent_start_but_stale_lease_can_resume() {
    let registry = registry();
    let mut slot = empty_slot();
    let now = 10 * ACTIVE_HEARTBEAT_TTL_MS;
    registry.start(&mut slot, "run-1", "task", None, None, now, 7).unwrap();
    assert!(matches!(
        registry.start(&mut slot, "run-1", "task", None, None, now, 7),
        Err(RegistryError::Active(_))
    ));
    let mut record = registry.load(&slot, "run-1").unwrap();
    record.last_heartbeat_at_ms = 0;
    slot.record = Some(record);
    slot.owner_ms = None;
    registry.start(&mut slot, "run-1", "resumed task", None, None, now, 7).unwrap();
    assert_eq!(
        registry.load(&slot, "run-1").unwrap().task_digest,
        text_label("resumed task")
    );
}

#[test]
fn independent_registry_instances_respect_filesystem_owner_lease() {
    let first = registry();
    let second = registry();
    let mut slot = empty_slot();
    let now = 10 * ACTIVE_HEARTBEAT_TTL_MS;
    first.start(&mut slot, "run-1", "task", None, None, now, 7).unwrap();
    let mut record = first.load(&slot, "run-1").unwrap();
    record.last_heartbeat_at_ms = 0;
    slot.record = Some(record);
    assert!(matches!(
        second.start(&mut slot, "run-1", "concurrent", None, None, now, 8),
        Err(RegistryError::Active(_))
    ));
}

#[test]
fn stale_owner_lease_can_be_cleaned() {
    let registry = registry();
    let mut slot = empty_slot();
    let now = 10 * ACTIVE_HEARTBEAT_TTL_MS;
    registry.start(&mut slot, "run-1", "task", None, None, now, 7).unwrap();
    assert!(matches!(
        registry.clean(&mut slot, "run-1", false, now),
        Err(RegistryError::Active(_))
    ));
    let mut record = registry.load(&slot, "run-1").unwrap();
    record.last_heartbeat_at_ms = 0;
    slot.record = Some(record);
    slot.owner_ms = None;
    registry.clean(&mut slot, "run-1", false, now).unwrap();
    assert!(slot.record.is_none());
}

#[test]
fn missing_run_has_no_event_log() {
    assert!(matches!(
        registry().event_log(&empty_slot(), "missing", None),
        Err(RegistryError::Missing(_))
    ));
    assert!(matches!(
        registry().event_log(&empty_slot(), "../missing", None),
        Err(RegistryError::InvalidRunId)
    ));
}

#[test]
fn event_log_omits_tool_arguments() {
    let registry = registry();
    let mut slot = empty_slot();
    registry.start(&mut slot, "run-1", "task", None, None, 5, 7).unwrap();
    let line = registry
        .append_event(
            "run-1",
            &HarnessEvent::ToolStart {
                name: "write_file".into(),
                args_json: "secret-content".into(),
            },
            6,
        )
        .unwrap();
    let log = registry.event_log(&slot, "run-1", Some(format!("{line:?}"))).unwrap();
    assert!(log.contains("write_file"));
    assert!(!log.contains("secret-content"));
    let line = registry
        .append_event(
            "run-1",
            &HarnessEvent::RunFinished {
                run_id: "run-1".into(),
                success: true,
                summary: "private summary that must not persist".into(),
            },
            7,
        )
        .unwrap();
    let log = registry.event_log(&slot, "run-1", Some(format!("{line:?}"))).unwrap();
    assert!(!log.contains("private summary"));
    assert!(registry
        .append_event("../run-1", &HarnessEvent::Status { status: "x".into() }, 7)
        .is_none());
}

#[test]
fn finished_runs_keep_their_outcome() {
    let registry = registry();
    let mut slot = empty_slot();
    registry.start(&mut slot, "run-1", "task", None, None, 5, 7).unwrap();
    registry.set_workspace(&mut slot, "run-1", "/ws").unwrap();
    registry.heartbeat(&mut slot, "run-1", 6).unwrap();
    registry.set_artifact_dir(&mut slot, "run-1", "/artifacts").unwrap();
    let result = RunResult {
        run_id: "run-1".into(),
        success: true,
        summary: "done".into(),
        turns: 3,
        workspace: "/ws".into(),
        artifact_dir: Some("/artifacts".into()),
        termination: RunTermination::Completed,
        park: None,
        prompt_id: "p".into(),
        usage: TokenUsage { input_tokens: 1, output_tokens: 2 },
        cost: None,
        todos: vec![],
    };
    registry.finish_result(&mut slot, &result, 9).unwrap();
    let record = registry.load(&slot, "run-1").unwrap();
    assert_eq!(record.status, "completed");
    assert_eq!(record.success, Some(true));
    assert_eq!(record.finished_at_ms, Some(9));
    assert!(!record.is_active());
    assert!(matches!(
        registry.cancel(&mut slot, "run-1"),
        Err(RegistryError::NotActive(_))
    ));

    let mut failed = empty_slot();
    registry.start(&mut failed, "run-2", "task", None, None, 5, 7).unwrap();
    registry.finish_error(&mut failed, "run-2", &RunError::TimedOut(4), 9).unwrap();
    let record = registry.load(&failed, "run-2").unwrap();
    assert_eq!(record.status, "timed_out");
    assert_eq!(record.success, Some(false));
}

#[test]
fn lists_show_the_latest_run_first() {
    let registry = registry();
    let mut records = vec![];
    for (id, at) in [("run-1", 5), ("run-2", 9), ("run-3", 7)] {
        let mut slot = empty_slot();
        registry.start(&mut slot, id, "task", None, None, at, 7).unwrap();
        records.push(slot.record.unwrap());
    }
    let listed: Vec<String> =
        registry.list(records).into_iter().map(|record| record.run_id).collect();
    assert_eq!(listed, vec!["run-2", "run-3", "run-1"]);
}

#[test]
fn run_directories_stay_below_the_state_root() {
    let registry = registry();
    assert_eq!(registry.run_dir("run-1").unwrap(), "/state/runs/run-1");
    assert!(matches!(registry.run_dir(".."), Err(RegistryError::InvalidRunId)));
    assert!(!is_safe_run_id(""));
    assert_eq!(
        RegistryError::Missing("run-1".into()).message(),
        "run not found: run-1"
    );
}

#[test]
fn events_are_named_and_bounded() {
    let event = HarnessEvent::ToolEnd { name: "bash".into(), ok: false, detail: "secret".into() };
    assert_eq!(event_name(&event), "tool_end");
    assert_eq!(event_detail(&event), Some("bash ok=false".to_string()));
    assert!(!format_event(&event).contains("secret"));
    let compacted = HarnessEvent::ContextCompacted { before: 20, after: 6 };
    assert_eq!(event_detail(&compacted), Some("before=20 after=6".to_string()));
}

#[test]
fn snapshot_and_prometheus_export() {
    let mut m = Metrics::new();
    m.record_run(true, false, 3, 10, 5);
    m.record_run(false, true, 1, 2, 1);
    m.record_plane_error();
    let s = m.snapshot();
    assert_eq!(s.runs_total, 2);
    assert_eq!(s.runs_success, 1);
    assert_eq!(s.runs_parked, 1);
    assert_eq!(s.turns_total, 4);
    assert_eq!(s.plane_errors, 1);
    assert_eq!(s.tokens_input_total, 12);
    assert_eq!(s.tokens_output_total, 6);
    let text = s.to_prometheus();
    assert!(text.contains("shikigami_runs_total 2"));
    assert!(text.contains("shikigami_plane_errors_total 1"));
    assert!(text.contains("shikigami_tokens_input_total 12"));
}

#[test]
fn aggregate_reads_unique_durable_instance_snapshot() {
    let mut metrics = Metrics::new();
    metrics.record_run(true, false, 2, 3, 4);
    let files = vec![ProcessSnapshot { snapshot: metrics.snapshot(), alive: true }];
    let aggregate = Metrics::aggregate(None, &files, true);
    assert_eq!(aggregate.total.runs_total, 1);
    assert_eq!(aggregate.total.turns_total, 2);
    assert_eq!(aggregate.total.tokens_input_total, 3);
    assert_eq!(aggregate.total.tokens_output_total, 4);
    assert!(aggregate.retired.is_none());
}

#[test]
fn aggregate_retires_snapshot_when_pid_identity_changes() {
    let stale = PersistedMetrics {
        schema_version: 1,
        process_id: 77,
        process_identity: "old-process".into(),
        updated_at_ms: 1,
        snapshot: MetricsSnapshot { runs_total: 2, ..MetricsSnapshot::default() },
    };
    assert!(!process_is_alive(&stale, Some("new-process"), true));
    assert!(process_is_alive(&stale, Some("old-process\n"), true));
    assert!(!process_is_alive(&stale, None, false));
    let files = vec![ProcessSnapshot { snapshot: stale.snapshot, alive: false }];
    let aggregate = Metrics::aggregate(None, &files, true);
    assert_eq!(aggregate.total.runs_total, 2);
    assert_eq!(aggregate.retired.unwrap().runs_total, 2);
    assert_eq!(aggregate.folded, vec![0]);
    let again = Metrics::aggregate(aggregate.retired, &vec![], true);
    assert_eq!(again.total.runs_total, 2);
    let unlocked = Metrics::aggregate(None, &files, false);
    assert_eq!(unlocked.total.runs_total, 2);
    assert!(unlocked.retired.is_none());
}

#[test]
fn the_aggregate_lock_is_given_up_on_in_time() {
    assert_eq!(aggregate_lock_step(0, LockTry::Created), LockStep::Acquired);
    assert_eq!(
        aggregate_lock_step(1, LockTry::Held { age_ms: Some(60001) }),
        LockStep::RemoveStale { again: true }
    );
    assert!(matches!(
        aggregate_lock_step(LOCK_TRIES, LockTry::Held { age_ms: None }),
        LockStep::Wait { again: false, .. }
    ));
}

#[test]
fn counters_saturate() {
    let mut m = Metrics::new();
    m.record_run(true, false, 1, u64::MAX, 0);
    let mut total = m.snapshot();
    let other = MetricsSnapshot { runs_total: u64::MAX, ..MetricsSnapshot::default() };
    total.add_assign(&other);
    assert_eq!(total.runs_total, u64::MAX);
}

fn resumed_checkpoint(workspace: &str) -> Checkpoint {
    Checkpoint {
        run_id: "abc-123".into(),
        task: "t".into(),
        prompt_id: "p".into(),
        messages: vec![],
        completed_turns: 0,
        workspace: workspace.into(),
        keep_workspace: true,
        workspace_adapter: "directory".into(),
        park: None,
        todos: vec![],
        replay: None,
        content: None,
    }
}

fn directory_config() -> Config {
    let mut config = Config::default();
    config.workspace.adapter = "directory".into();
    config.workspace.root = ".".into();
    config
}

fn plain_probe() -> BelowProbe {
    BelowProbe {
        root: Ok("/state/runs".into()),
        first: Component::Plain,
        second: Component::Plain,
        target: Ok("/state/runs/abc-123/workspace".into()),
    }
}

#[test]
fn run_resumed_workspace_must_match_configured_run_boundary() {
    let config = directory_config();
    let place = workspace_place(&config, "/state/runs", "abc-123");
    let outside = resumed_checkpoint("/outside");
    let err = validate_resumed_workspace(
        &config,
        &place,
        &outside,
        &Ok("/outside".to_string()),
        &plain_probe(),
    )
    .unwrap_err();
    assert!(err.message().contains("does not match"), "{}", err.message());

    let inside = resumed_checkpoint("/state/runs/abc-123/workspace");
    let validated = validate_resumed_workspace(
        &config,
        &place,
        &inside,
        &Ok("/state/runs/abc-123/workspace".to_string()),
        &plain_probe(),
    )
    .unwrap();
    assert_eq!(validated, inside.workspace);
}

#[test]
fn run_resumed_workspace_rejects_symlink_substitution() {
    let config = directory_config();
    let place = workspace_place(&config, "/state/runs", "abc-123");
    let probe = BelowProbe { second: Component::Symlink, ..plain_probe() };
    let c = resumed_checkpoint("/state/runs/abc-123/workspace");
    let err = validate_resumed_workspace(
        &config,
        &place,
        &c,
        &Ok("/outside".to_string()),
        &probe,
    )
    .unwrap_err();
    assert!(
        err.message().contains("must not contain symlinks"),
        "{}",
        err.message()
    );
}

#[test]
fn workspaces_are_placed_by_their_adapter() {
    let config = directory_config();
    assert_eq!(configured_workspace_adapter(&config), "directory");
    assert!(matches!(
        workspace_place(&config, "/state/runs", "abc-123"),
        WorkspacePlace::Below { .. }
    ));
    assert!(is_below("/state/runs/a", "/state/runs"));
    assert!(!is_below("/state/runs-2/a", "/state/runs"));
    assert_eq!(join_path("/state", "runs"), "/state/runs");
}

#[test]
fn a_snapshot_is_not_restored_in_place() {
    let mut request = RunRequest::new("task".into());
    check_restore("inplace", &request).unwrap();
    request.restore_snapshot = Some("initial".into());
    check_restore("directory", &request).unwrap();
    assert_eq!(
        check_restore("inplace", &request).unwrap_err().message(),
        "run: restore_snapshot is not supported with workspace adapter `inplace`"
    );
}

#[test]
fn a_leaving_process_folds_its_counters_in() {
    let mut m = Metrics::new();
    m.record_run(true, false, 3, 10, 5);
    assert_eq!(m.retire(None), m.snapshot());
    let kept = MetricsSnapshot { runs_total: 4, turns_total: 7, ..MetricsSnapshot::default() };
    let total = m.retire(Some(kept));
    assert_eq!(total.runs_total, 5);
    assert_eq!(total.turns_total, 10);
    assert_eq!(total.tokens_input_total, 10);
}

#[test]
fn the_registry_lies_below_its_state_root() {
    assert_eq!(RunRegistry::new("/state").runs_root(), "/state/runs");
    assert_eq!(RunRegistry::new("/state/").runs_root(), "/state/runs");
    assert_eq!(RunRegistry::new("").runs_root(), "runs");
    assert_eq!(RunRegistry::new("/state/").cancel_root, "/state/run-controls");
    assert_eq!(RunRegistry::new("").cancel_root, "run-controls");
    assert_eq!(RunRegistry::new("").run_dir("run-1").unwrap(), "runs/run-1");
}

#[test]
fn content_turns_are_told_by_their_size() {
    let event = HarnessEvent::ContentTurn {
        turn: 3,
        part_count: 2,
        kinds: vec!["text".into(), "image".into()],
        digests: vec!["sha256:a".into(), "sha256:b".into()],
    };
    assert_eq!(event_name(&event), "content_turn");
    assert_eq!(event_detail(&event).as_deref(), Some("turn=3 parts=2"));
    assert_eq!(format_event(&event), "content_turn=3 parts=2");
}
