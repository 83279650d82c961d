use shikigami::checkpoint::is_safe_run_id;
use shikigami::config::Config;
use shikigami::digest::digest_hex;
use shikigami::model::TokenUsage;
use shikigami::plane_host::{
    advance_start, default_worker_id, doctor_gate, lifecycle_bind, serve_options, validate_options,
    worker_id, BindScope, PlaneHostError, PlaneHostOptions, StartStage,
};
use shikigami::plane_intake::claimed_run::{
    ack_for, ack_refused, acknowledge, advance_claim, bounded_reason, checkpoint_for_park,
    claim_call_window, claim_event_id, continuation_answer, execution_of, fence_loss_grace,
    fenced_retry_sleep, harness_error_is_governance, observe_error, park_reason,
    parked_checkpoint, prepare_claimed_run, refuse, replacement_task, retry_interval,
    shutdown_grace, validate_continuation, wants_checkpoint, CallOutcome, ClaimEvent, ClaimPlan, ClaimStage, Execution, FencedRetry, FencedRetryOp, HarnessFailure,
    LifecycleNote, Renewal, RetryNext,
};
use shikigami::plane_intake::receipt_artifact::{
    from_captured_manifest, projection_kind, valid_generated_path, ArtifactFile, ArtifactManifest,
};
use shikigami::plane_intake::serve_loop::{
    after_execution, after_poll, after_sleep, next_step, observe_claim_error, ClaimPoll,
    LifecycleGate, ServeStep,
};
use shikigami::plane_intake::{
    check_serve_options, map_claimed_work, ClaimedPlaneWork, ClaimedWorkMappingError,
    ClaimedWorkPolicy, PlaneAckOutcome, PlaneCheckpoint, PlaneClaim, PlaneClaimEventKind,
    PlaneClaimLease, PlaneIntakeError, PlaneServeOptions, PlaneWorkContinuation, CLAIMED_STATUS,
    MILLISECOND, RUNTIME_DISPATCH_KIND, SECOND,
};
use shikigami::run::{GovernanceError, ParkInfo, ParkKind, RunError, RunResult, RunTermination};

fn work(parameters_json: &str) -> ClaimedPlaneWork {
    ClaimedPlaneWork {
        effect_id: "effect-1".into(),
        instance_id: "instance-1".into(),
        operation_id: "operation-1".into(),
        kind: RUNTIME_DISPATCH_KIND.into(),
        status: CLAIMED_STATUS.into(),
        payload_json: payload("shikigami", parameters_json),
        parameters_json: parameters_json.into(),
        resolved_task: None,
        continuation: None,
    }
}

fn payload(runtime: &str, parameters_json: &str) -> String {
    format!(
        "{{\"instance_id\":\"instance-1\",\"operation_id\":\"operation-1\",\"parameters_digest\":\"{}\",\"runtime\":\"{}\"}}",
        digest_hex(parameters_json.as_bytes()),
        runtime
    )
}

#[test]
fn maps_claim_with_host_caps_and_ignores_non_authoritative_fields() {
    let claimed = work(
        r#"{"keep_workspace":true,"task":"run the admitted task","timeout_secs":120,"unknown_future_field":{"cannot":"configure host"}}"#,
    );
    let policy = ClaimedWorkPolicy {
        host_timeout_ms: Some(60_000),
        allow_keep_workspace: false,
        ..Default::default()
    };

    let request = map_claimed_work(&claimed, &policy).unwrap();
    assert_eq!(request.task, "run the admitted task");
    assert_eq!(request.logical_operation_id.as_deref(), Some("operation-1"));
    assert_eq!(request.timeout_ms, Some(60_000));
    assert!(!request.keep_workspace);
}

#[test]
fn uses_authorized_artifact_resolution_result() {
    let mut claimed = work(r#"{"artifact_refs":["artifact:task/1"],"timeout_secs":30}"#);
    claimed.resolved_task = Some("resolved task text".into());

    let request = map_claimed_work(&claimed, &ClaimedWorkPolicy::default()).unwrap();
    assert_eq!(request.task, "resolved task text");
    assert_eq!(request.timeout_ms, Some(30_000));
}

#[test]
fn rejects_missing_operation_id() {
    let mut claimed = work(r#"{"task":"demo"}"#);
    claimed.operation_id.clear();
    assert_eq!(
        map_claimed_work(&claimed, &ClaimedWorkPolicy::default()).unwrap_err(),
        ClaimedWorkMappingError::MissingField { field: "operation_id" }
    );
}

#[test]
fn rejects_oversized_task() {
    let claimed = work(r#"{"task":"12345"}"#);
    let policy = ClaimedWorkPolicy { max_task_bytes: 4, ..Default::default() };
    assert_eq!(
        map_claimed_work(&claimed, &policy).unwrap_err(),
        ClaimedWorkMappingError::TaskTooLarge { actual: 5, maximum: 4 }
    );
}

#[test]
fn rejects_mismatched_correlation_and_digest() {
    let mut mismatched = work(r#"{"task":"demo"}"#);
    mismatched.instance_id = "other-instance".into();
    assert_eq!(
        map_claimed_work(&mismatched, &ClaimedWorkPolicy::default()).unwrap_err(),
        ClaimedWorkMappingError::CorrelationMismatch { field: "instance_id" }
    );

    let mut changed = work(r#"{"task":"demo"}"#);
    changed.parameters_json = r#"{"task":"changed"}"#.into();
    assert_eq!(
        map_claimed_work(&changed, &ClaimedWorkPolicy::default()).unwrap_err(),
        ClaimedWorkMappingError::ParametersDigestMismatch
    );
}

#[test]
fn rejects_unresolved_artifact_refs_and_wrong_runtime() {
    let unresolved = work(r#"{"artifact_refs":["artifact:task/1"]}"#);
    assert_eq!(
        map_claimed_work(&unresolved, &ClaimedWorkPolicy::default()).unwrap_err(),
        ClaimedWorkMappingError::ArtifactResolutionRequired
    );

    let mut wrong_runtime = work(r#"{"task":"demo"}"#);
    wrong_runtime.payload_json = payload("other", r#"{"task":"demo"}"#);
    assert_eq!(
        map_claimed_work(&wrong_runtime, &ClaimedWorkPolicy::default()).unwrap_err(),
        ClaimedWorkMappingError::RuntimeMismatch {
            expected: "shikigami".into(),
            actual: "other".into()
        }
    );
}

#[test]
fn every_other_mapping_fault_is_told_apart() {
    let policy = ClaimedWorkPolicy::default();
    let mut kind = work(r#"{"task":"demo"}"#);
    kind.kind = "other".into();
    assert_eq!(
        map_claimed_work(&kind, &policy).unwrap_err(),
        ClaimedWorkMappingError::InvalidKind("other".into())
    );
    let mut status = work(r#"{"task":"demo"}"#);
    status.status = "done".into();
    assert_eq!(
        map_claimed_work(&status, &policy).unwrap_err(),
        ClaimedWorkMappingError::InvalidStatus("done".into())
    );
    let mut broken = work(r#"{"task":"demo"}"#);
    broken.payload_json = "{".into();
    assert!(matches!(
        map_claimed_work(&broken, &policy).unwrap_err(),
        ClaimedWorkMappingError::InvalidPayload(_)
    ));
    assert!(matches!(
        map_claimed_work(&work("{"), &policy).unwrap_err(),
        ClaimedWorkMappingError::InvalidParameters(_)
    ));
    assert_eq!(
        map_claimed_work(&work("{}"), &policy).unwrap_err(),
        ClaimedWorkMappingError::MissingTask
    );
    assert_eq!(
        map_claimed_work(&work(r#"{"task":"x","timeout_secs":"soon"}"#), &policy).unwrap_err(),
        ClaimedWorkMappingError::InvalidTimeout
    );
    assert_eq!(
        map_claimed_work(&work(r#"{"task":"x","keep_workspace":1}"#), &policy).unwrap_err(),
        ClaimedWorkMappingError::InvalidKeepWorkspace
    );
    assert_eq!(
        map_claimed_work(&work(r#"{"artifact_refs":[""]}"#), &policy).unwrap_err(),
        ClaimedWorkMappingError::InvalidArtifactRefs
    );
}

fn claim_until(valid_until: u64) -> PlaneClaim {
    PlaneClaim {
        work: work(r#"{"task":"demo"}"#),
        lease: PlaneClaimLease {
            runtime_id: "shikigami".into(),
            generation: 1,
            fencing_token: "fence-1".into(),
            expires_at_ms: 10,
            valid_until,
        },
    }
}

#[test]
fn lease_call_window_fails_before_expiry() {
    let now = 5 * SECOND;
    assert!(matches!(
        claim_call_window(&claim_until(now + 10 * MILLISECOND), now, 20 * SECOND),
        Err(PlaneIntakeError::FenceLost(_))
    ));
}

#[test]
fn calls_leave_a_safety_margin() {
    let now = 5 * SECOND;
    assert_eq!(
        claim_call_window(&claim_until(now + SECOND), now, 20 * SECOND).unwrap(),
        900 * MILLISECOND
    );
    assert_eq!(
        claim_call_window(&claim_until(now + 60 * SECOND), now, 20 * SECOND).unwrap(),
        20 * SECOND
    );
    assert_eq!(
        claim_call_window(&claim_until(now + 50 * MILLISECOND), now, 20 * SECOND).unwrap(),
        40 * MILLISECOND
    );
    assert!(shutdown_grace(
        &claim_until(now + 60 * SECOND),
        now,
        &PlaneServeOptions::default()
    ) > 0);
    let policy = PlaneServeOptions::default().policy;
    assert_eq!(policy.expected_runtime, "shikigami");
    assert_eq!(policy.host_timeout_ms, None);
    assert!(!policy.allow_keep_workspace);
    assert!(fence_loss_grace(&PlaneServeOptions::default()) > 0);
    assert!(retry_interval(&PlaneServeOptions::default()) > 0);
}

fn continued(claimed: &ClaimedPlaneWork) -> PlaneWorkContinuation {
    let input_json = r#"{"answer":"continue"}"#.to_string();
    PlaneWorkContinuation {
        resolution_id: "resolution-1".into(),
        park_id: "park-1".into(),
        effect_id: claimed.effect_id.clone(),
        operation_id: claimed.operation_id.clone(),
        park_generation: 1,
        input_digest: format!("sha256:{}", digest_hex(input_json.as_bytes())),
        input_json,
        checkpoint: None,
    }
}

#[test]
fn continuation_is_bound_to_claim_identity_and_digest() {
    let claimed = work(r#"{"task":"demo"}"#);
    let continuation = continued(&claimed);
    validate_continuation(&claimed, &continuation).unwrap();

    let mut forged = continuation.clone();
    forged.operation_id = "other-operation".into();
    assert!(validate_continuation(&claimed, &forged).is_err());

    let mut corrupt = continuation;
    corrupt.input_digest = format!("sha256:{}", "0".repeat(64));
    assert!(validate_continuation(&claimed, &corrupt).is_err());
}

#[test]
fn checkpoint_reference_rejects_paths_and_urls() {
    assert!(is_safe_run_id("123e4567-e89b-12d3-a456-426614174000"));
    assert!(!is_safe_run_id("../checkpoint"));
    assert!(!is_safe_run_id("/tmp/run"));
    assert!(!is_safe_run_id("https://example.test/run"));
}

#[test]
fn fenced_retry_sleep_clamps_to_half_remaining_lease() {
    let remaining = 80 * MILLISECOND;
    let now = 7 * SECOND;
    let sleep = fenced_retry_sleep(now + remaining, now, 250 * MILLISECOND, SECOND);
    assert!(
        sleep <= remaining / 2,
        "sleep {sleep:?} must not exceed half remaining {remaining:?}"
    );
    assert!(sleep > 0);
}

#[test]
fn fenced_retry_sleep_is_zero_when_lease_has_elapsed() {
    let now = 7 * SECOND;
    let sleep = fenced_retry_sleep(now - MILLISECOND, now, 250 * MILLISECOND, SECOND);
    assert_eq!(sleep, 0);
}

#[test]
fn fenced_retry_sleep_uses_retry_interval_when_lease_is_long() {
    let now = 7 * SECOND;
    let sleep = fenced_retry_sleep(now + 60 * SECOND, now, 200 * MILLISECOND, SECOND);
    assert_eq!(sleep, 200 * MILLISECOND);
}

#[test]
fn parked_work_resumes_only_from_its_own_checkpoint() {
    let options = PlaneServeOptions {
        checkpoint_store_id: Some("store-1".into()),
        ..PlaneServeOptions::default()
    };
    let digest = format!("sha256:{}", "a".repeat(64));
    let mut claimed = work(r#"{"task":"demo"}"#);
    let mut continuation = continued(&claimed);
    continuation.checkpoint = Some(PlaneCheckpoint {
        store_id: "store-1".into(),
        reference: "run-1".into(),
        digest: digest.clone(),
    });
    claimed.continuation = Some(continuation);
    let resumed = prepare_claimed_run(&claimed, &options, Some(&digest)).unwrap();
    assert!(resumed.resumed);
    assert_eq!(resumed.request.resume_run_id.as_deref(), Some("run-1"));
    assert_eq!(resumed.request.resume_answer.as_deref(), Some("continue"));
    assert_eq!(resumed.before_run_events[0].kind, PlaneClaimEventKind::ResumeStarted);
    assert_eq!(resumed.checkpoint_digest, digest);

    let replaced = prepare_claimed_run(&claimed, &options, None).unwrap();
    assert!(!replaced.resumed);
    assert!(replaced.request.resume_run_id.is_none());
    assert_eq!(
        replaced.before_run_events[0].kind,
        PlaneClaimEventKind::CheckpointUnavailable
    );
    assert_eq!(
        replaced.request.task,
        replacement_task("demo", r#"{"answer":"continue"}"#)
    );

    claimed.continuation = None;
    let fresh = prepare_claimed_run(&claimed, &options, None).unwrap();
    assert_eq!(fresh.request.task, "demo");
    assert!(fresh.request.restore_snapshot.is_none());
    assert!(fresh.before_run_events.is_empty());
}

#[test]
fn answers_are_read_from_the_continuation() {
    assert_eq!(continuation_answer(r#"{"answer":"yes"}"#).unwrap(), "yes");
    assert!(continuation_answer("{").is_err());
    assert_eq!(bounded_reason(&"x".repeat(600)).len(), 512);
    let kept = checkpoint_for_park("store-1", "run-1", Ok("sha256:d".into())).unwrap();
    assert_eq!(kept.reference, "run-1");
    assert!(checkpoint_for_park("store-1", "run-1", Err("gone".into())).is_err());
}

#[test]
fn only_a_park_with_a_store_hands_over_its_checkpoint() {
    let store = Some("store-1".to_string());
    let loaded = || Ok("sha256:d".to_string());
    let parked = || {
        let mut run = result(true, None);
        run.termination = RunTermination::Parked;
        Ok(run)
    };
    assert!(wants_checkpoint(&store, &parked()));
    let kept = parked_checkpoint(&store, &parked(), loaded()).unwrap();
    assert_eq!(kept.store_id, "store-1");
    assert_eq!(kept.reference, "run-1");
    assert_eq!(kept.digest, "sha256:d");
    assert!(!wants_checkpoint(&None, &parked()));
    assert!(parked_checkpoint(&None, &parked(), loaded()).is_none());
    assert!(parked_checkpoint(&Some(" ".into()), &parked(), loaded()).is_none());
    assert!(parked_checkpoint(&store, &parked(), Err("gone".into())).is_none());
    assert!(!wants_checkpoint(&store, &Ok(result(true, None))));
    assert!(parked_checkpoint(&store, &Ok(result(true, None)), loaded()).is_none());
    let failed = Err(HarnessFailure::Other("broken".into()));
    assert!(parked_checkpoint(&store, &failed, loaded()).is_none());
}

fn result(success: bool, park: Option<ParkInfo>) -> RunResult {
    RunResult {
        run_id: "run-1".into(),
        success,
        summary: "the summary".into(),
        turns: 2,
        workspace: "/ws".into(),
        artifact_dir: None,
        termination: if park.is_some() {
            RunTermination::Parked
        } else {
            RunTermination::Completed
        },
        park,
        prompt_id: "p".into(),
        usage: TokenUsage::default(),
        cost: None,
        todos: vec![],
    }
}

fn park() -> ParkInfo {
    ParkInfo {
        reason: "unsure".into(),
        question: "which?".into(),
        tool_call_id: "call-1".into(),
        kind: ParkKind::Escalate,
        approval_id: None,
    }
}

#[test]
fn outcomes_become_acknowledgements() {
    let done = ack_for(&Ok(result(true, None)), "req-1".into(), None);
    assert_eq!(done.outcome, PlaneAckOutcome::Completed);
    assert_eq!(done.request_id, "req-1");
    let failed = ack_for(&Ok(result(false, None)), "req-1".into(), None);
    assert_eq!(failed.outcome, PlaneAckOutcome::Failed);
    assert_eq!(failed.reason, "the summary");
    let parked = result(false, Some(park()));
    assert_eq!(park_reason(&parked), "unsure; question: which?");
    let ack = ack_for(&Ok(parked), "req-1".into(), None);
    assert_eq!(ack.outcome, PlaneAckOutcome::Parked);
    assert_eq!(ack.reason, "unsure; question: which?");
    let error = HarnessFailure::Run(RunError::Cancelled);
    let ack = ack_for(&Err(error), "req-2".into(), None);
    assert_eq!(ack.outcome, PlaneAckOutcome::Failed);
    let refused = ack_refused(&PlaneIntakeError::Source("gone".into()), "req-3".into());
    assert_eq!(refused.outcome, PlaneAckOutcome::Failed);
    let fresh = acknowledge(&Ok(result(true, None)), None);
    assert_eq!(fresh.request_id.len(), 36);
    assert_ne!(fresh.request_id, refuse(&PlaneIntakeError::Source("gone".into())).request_id);
    assert_eq!(claim_event_id().len(), 36);
    assert_ne!(claim_event_id(), claim_event_id());
    assert!(harness_error_is_governance(&HarnessFailure::Run(RunError::Governance(
        GovernanceError::Message("down".into())
    ))));
    assert!(!harness_error_is_governance(&HarnessFailure::Run(RunError::Cancelled)));
}

#[test]
fn retries_stop_at_their_limit_and_at_lost_fences() {
    let mut retry = FencedRetry::new(FencedRetryOp::Ack, 2);
    assert!(matches!(retry.after_call(CallOutcome::Done, false), RetryNext::Succeeded));
    assert!(matches!(
        retry.after_call(CallOutcome::Failed(PlaneIntakeError::FenceLost("x".into())), false),
        RetryNext::Failed(PlaneIntakeError::FenceLost(_))
    ));
    assert!(matches!(retry.after_call(CallOutcome::TimedOut, false), RetryNext::Renew));
    assert!(retry.after_renewal(Renewal::TimedOut).is_err());
    let lease = claim_until(9).lease;
    assert_eq!(retry.after_renewal(Renewal::Renewed(lease.clone())).unwrap(), lease);
    retry.after_sleep(false).unwrap();
    let again = retry.after_call(CallOutcome::Failed(PlaneIntakeError::Source("x".into())), false);
    assert!(matches!(again, RetryNext::Failed(_)));
}

#[test]
fn a_stopped_claim_is_never_acknowledged() {
    let plan = ClaimPlan { events: 1, resumed: true };
    let mut stage = ClaimStage::Prepare;
    for event in [ClaimEvent::Done, ClaimEvent::Done, ClaimEvent::ShutdownSeen] {
        stage = advance_claim(&plan, stage, event);
    }
    assert_eq!(stage, ClaimStage::Stopped);
    assert_eq!(advance_claim(&plan, stage, ClaimEvent::Done), ClaimStage::Stopped);
    assert_eq!(execution_of(stage, false), Some(Execution::Shutdown));
    let mut stage = ClaimStage::Prepare;
    for event in [
        ClaimEvent::Done,
        ClaimEvent::Done,
        ClaimEvent::Done,
        ClaimEvent::HeartbeatDue,
        ClaimEvent::Done,
        ClaimEvent::RunEnded { success: true },
        ClaimEvent::Done,
        ClaimEvent::Done,
    ] {
        stage = advance_claim(&plan, stage, event);
    }
    assert_eq!(stage, ClaimStage::Ended);
}

#[test]
fn claims_are_polled_only_while_the_host_accepts() {
    let options = PlaneServeOptions { max_jobs: Some(1), ..PlaneServeOptions::default() };
    assert_eq!(next_step(&options, 0, false, None), ServeStep::Claim);
    assert!(matches!(next_step(&options, 1, false, None), ServeStep::Stop { .. }));
    assert!(matches!(next_step(&options, 0, true, None), ServeStep::Stop { .. }));
    let waiting = LifecycleGate { accepting: false, draining: false };
    assert_eq!(next_step(&options, 0, false, Some(waiting)), ServeStep::Sleep);
    assert_eq!(after_poll(ClaimPoll::Claimed, false), ServeStep::Execute);
    assert_eq!(after_poll(ClaimPoll::Nothing, false), ServeStep::Sleep);
    assert_eq!(after_sleep(false), ServeStep::Again);
    assert!(after_execution(Execution::Continue).is_ok());
    assert!(after_execution(Execution::GovernanceUnavailable).is_err());
    assert!(matches!(
        observe_claim_error(&PlaneIntakeError::FenceLost("x".into())),
        LifecycleNote::FenceLost(_)
    ));
    assert!(matches!(
        observe_error(&PlaneIntakeError::Mapping(ClaimedWorkMappingError::MissingTask)),
        LifecycleNote::Nothing
    ));
    assert!(matches!(
        observe_error(&PlaneIntakeError::Source("shutdown requested".into())),
        LifecycleNote::Drain
    ));
    assert!(matches!(
        observe_error(&PlaneIntakeError::Harness("x".into())),
        LifecycleNote::GovernanceLost
    ));
}

#[test]
fn serve_options_need_a_positive_heartbeat() {
    check_serve_options(&PlaneServeOptions::default()).unwrap();
    let broken = PlaneServeOptions { heartbeat_interval: 0, ..PlaneServeOptions::default() };
    assert!(check_serve_options(&broken).is_err());
    let late = PlaneServeOptions {
        heartbeat_interval: 60 * SECOND,
        claim_ttl: 60 * SECOND,
        ..PlaneServeOptions::default()
    };
    assert!(check_serve_options(&late).is_err());
}

fn file(path: &str) -> ArtifactFile {
    ArtifactFile {
        path: path.into(),
        bytes: 1,
        sha256: format!("sha256:{}", digest_hex(path.as_bytes())),
    }
}

fn manifest(files: Vec<ArtifactFile>) -> ArtifactManifest {
    ArtifactManifest { run_id: "run-1".into(), files_truncated: false, files }
}

#[test]
fn omits_artifact_when_a_projection_kind_is_missing() {
    let captured = manifest(vec![
        file("app/index.html"),
        file("sdk/client.ts"),
        file("tests/acceptance.test.ts"),
    ]);
    assert!(from_captured_manifest(&captured, "run-1").is_none());
}

#[test]
fn builds_sorted_credential_free_manifest_when_all_kinds_exist() {
    let captured = manifest(vec![
        file("tests/acceptance.test.ts"),
        file("deploy/compose.yaml"),
        file("sdk/client.ts"),
        file("app/index.html"),
        file("README.md"),
    ]);
    let json = from_captured_manifest(&captured, "run-1").expect("artifact");
    let value: serde_json::Value = serde_json::from_str(&json).unwrap();
    assert_eq!(value["artifact_id"], "artifact:run-1");
    let files = value["files"].as_array().unwrap();
    assert_eq!(
        files.iter().map(|file| file["path"].as_str().unwrap()).collect::<Vec<_>>(),
        [
            "app/index.html",
            "deploy/compose.yaml",
            "sdk/client.ts",
            "tests/acceptance.test.ts"
        ]
    );
    assert_eq!(files[0]["kind"], "application");
    assert_eq!(files[1]["kind"], "delivery_inputs");
    assert_eq!(files[2]["kind"], "typed_sdk");
    assert_eq!(files[3]["kind"], "tests");
    assert!(files.iter().all(|file| file["immutable"] == true));
    assert!(files.iter().all(|file| file.get("content").is_none()));
    assert!(value["tree_digest"]
        .as_str()
        .is_some_and(|digest| digest.starts_with("sha256:") && digest.len() == 71));
}

fn all_kinds() -> Vec<ArtifactFile> {
    vec![
        file("app/index.html"),
        file("sdk/client.ts"),
        file("tests/acceptance.test.ts"),
        file("deploy/compose.yaml"),
    ]
}

#[test]
fn omits_truncated_inventory() {
    let mut captured = manifest(all_kinds());
    captured.files_truncated = true;
    assert!(from_captured_manifest(&captured, "run-1").is_none());
}

#[test]
fn omits_manifest_bound_to_a_different_run() {
    let captured = manifest(all_kinds());
    assert!(from_captured_manifest(&captured, "run-other").is_none());
}

#[test]
fn omits_artifact_that_exceeds_chisei_ack_json_limit() {
    let mut files: Vec<ArtifactFile> = (0..900)
        .map(|index| file(&format!("app/generated-{index:04}.ts")))
        .collect();
    files.extend(all_kinds());
    let captured = manifest(files);
    assert!(from_captured_manifest(&captured, "run-1").is_none());
}

#[test]
fn generated_paths_are_plain() {
    assert_eq!(projection_kind("typed_sdk/x"), Some("typed_sdk"));
    assert_eq!(projection_kind("README.md"), None);
    assert!(valid_generated_path("app/a/b.ts"));
    for path in ["", "/app/x", "app\\x", "app//x", "app/./x", "app/../x", "app/x."] {
        assert!(!valid_generated_path(path), "{path}");
    }
}

#[test]
fn rejects_non_plane_governance_at_the_host_interface() {
    let error =
        validate_options(&Config::default(), &PlaneHostOptions::default(), &None).unwrap_err();
    assert!(matches!(error, PlaneHostError::WrongGovernanceAdapter { .. }));
}

#[test]
fn rejects_public_lifecycle_bind_at_the_host_interface() {
    let mut config = Config::default();
    config.governance.adapter = "sekai-chisei".into();
    let options = PlaneHostOptions {
        lifecycle_listen: Some("192.0.2.10:8080".into()),
        ..Default::default()
    };
    let error =
        validate_options(&config, &options, &Some(Ok(BindScope::Other))).unwrap_err();
    assert!(matches!(
        error,
        PlaneHostError::InvalidOption { field: "lifecycle_listen", .. }
    ));
    let private =
        PlaneHostOptions { lifecycle_listen: Some("127.0.0.1:0".into()), ..Default::default() };
    validate_options(&config, &private, &Some(Ok(BindScope::Loopback))).unwrap();
    assert!(lifecycle_bind(&Some(Err("not an address".into()))).is_err());
}

#[test]
fn worker_ids_fall_back_to_the_host_name() {
    assert_eq!(default_worker_id(Some("node-1".into()), None), "node-1");
    assert_eq!(default_worker_id(None, Some("node-2".into())), "node-2");
    assert_eq!(default_worker_id(None, None), "shikigami-worker");
    assert_eq!(default_worker_id(Some("  ".into()), None), "shikigami-worker");
    assert_eq!(
        worker_id(&PlaneHostOptions::default(), "node-1".into()).unwrap(),
        "node-1"
    );
    let named = PlaneHostOptions { worker_id: Some("w".into()), ..Default::default() };
    assert_eq!(worker_id(&named, "node-1".into()).unwrap(), "w");
    doctor_gate(true, &vec![]).unwrap();
    assert!(matches!(
        doctor_gate(false, &vec!["broken".into()]),
        Err(PlaneHostError::DoctorFailed(m)) if m.contains("broken")
    ));
}

#[test]
fn an_accepted_host_can_serve() {
    let mut config = Config::default();
    config.governance.adapter = "sekai-chisei".into();
    let options = PlaneHostOptions::default();
    validate_options(&config, &options, &None).unwrap();
    check_serve_options(&serve_options(&config, &options)).unwrap();
}

#[test]
fn a_failed_start_withdraws_the_lifecycle() {
    let mut stage = StartStage::RemoveStale;
    for ok in [true, true, true, true, false] {
        stage = advance_start(stage, ok);
    }
    assert_eq!(stage, StartStage::MarkUnhealthy);
    assert_eq!(advance_start(stage, true), StartStage::Withdraw);
    assert_eq!(advance_start(StartStage::Withdraw, true), StartStage::Failed);
    let mut stage = StartStage::RemoveStale;
    for ok in [true, true, true, true, true, true] {
        stage = advance_start(stage, ok);
    }
    assert_eq!(stage, StartStage::Prepared);
}
