use shikigami::checkpoint::{is_safe_run_id, Checkpoint, ParkedState};
use shikigami::config::Config;
use shikigami::content::{
    ContentCapabilitiesV1, ContentCheckpointBinding, ContentDisclosureState, ContentMessageV1,
    ContentModelTurnV1, ContentPartDescriptor, ContentPartKind, ContentProvenanceV1,
    ContentTerminalCheckpoint,
};
use shikigami::digest::digest_label;
use shikigami::events::HarnessEvent;
use shikigami::json::Json;
use shikigami::model::{
    completion_request, completion_turn, completions_url, default_script, from_config,
    ChatMessage, ModelAdapter, ModelError, ModelTurn, ScriptedModel, TokenUsage, ToolCall, ToolDef,
};
use shikigami::registry::{RegistryError, RunRegistry, RunSlot};
use shikigami::run::content_stages::{advance_content, ContentStage};
use shikigami::run::content_turn::{content_result, resolved_output, Resolution};
use shikigami::run::model_turn::{content_to_model_turn, ResolvedPart};
use shikigami::run::preparation::{
    advance_initial, baseline_event, compensation_failed, compensation_reason, context_events,
    finalized_artifacts, fresh_state, report_result, resumed_state, snapshot_event, snapshot_plan,
    ContextSource, InitialStage, MaterializedWorkspace, SnapshotOutcome, SnapshotPlan,
    WorkspaceCleanup,
};
use shikigami::run::session::{sidecar_slot, ContentResumeState, RunSession};
use shikigami::run::supervision::{
    attempt_run_id, finish_run, preflight, preflight_fresh, projected_summary,
    recover_finalized_content, ContentResume, LoadedCheckpoint, ResolvedContent, ResumeChecks,
};
use shikigami::run::tool_batch::ToolBatchOutcome;
use shikigami::run::transaction::{
    advance_end, begin_end, conclude_batch, conclude_turn, effective_timeout, ended_outcome,
    failed_outcome, plan_ending, plan_failure, run_result, EndPlan, EndStage,
};
use shikigami::run::{GovernanceError, RunError, RunRequest, RunResult, RunTermination};

fn checkpoint(park: Option<ParkedState>) -> Checkpoint {
    Checkpoint {
        run_id: "run-1".into(),
        task: "the task".into(),
        prompt_id: "prompt".into(),
        messages: vec![ChatMessage {
            role: "user".into(),
            content: "the task".into(),
            tool_call_id: String::new(),
            tool_calls: vec![],
        }],
        completed_turns: 2,
        workspace: "/ws".into(),
        keep_workspace: true,
        workspace_adapter: "directory".into(),
        park,
        todos: vec![],
        replay: None,
        content: None,
    }
}

fn park() -> ParkedState {
    ParkedState {
        reason: "unsure".into(),
        question: "which?".into(),
        tool_call_id: "call-1".into(),
    }
}

fn resume(answer: Option<&str>) -> RunRequest {
    let mut request = RunRequest::new(String::new());
    request.resume_run_id = Some("run-1".into());
    request.resume_answer = answer.map(|a| a.to_string());
    request
}

fn checked() -> ResumeChecks {
    ResumeChecks { prompt_fault: None, workspace_fault: None }
}

fn passes(request: &RunRequest, c: Checkpoint, expected: Option<&str>) -> Result<(), String> {
    let loaded = LoadedCheckpoint { checkpoint: c, digest: "sha256:d".into() };
    preflight(&Config::default(), "run-1", request, &loaded, expected, None, None, &checked())
        .map_err(|e| e.message())
}

#[test]
fn attempts_are_checked_before_they_start() {
    passes(&resume(None), checkpoint(None), None).unwrap();
    passes(&resume(None), checkpoint(None), Some("sha256:d")).unwrap();
    assert!(passes(&resume(None), checkpoint(None), Some("sha256:e")).is_err());
    assert!(passes(&resume(None), checkpoint(Some(park())), None)
        .unwrap_err()
        .contains("is parked; supply resume_answer"));
    assert!(passes(&resume(Some("yes")), checkpoint(None), None)
        .unwrap_err()
        .contains("not parked"));
    passes(&resume(Some("yes")), checkpoint(Some(park())), None).unwrap();
    preflight_fresh(None).unwrap();
    assert!(preflight_fresh(Some("sha256:d")).is_err());
}

#[test]
fn run_ids_are_fresh_or_resumed() {
    assert_eq!(attempt_run_id(&resume(None)), "run-1");
    let fresh = attempt_run_id(&RunRequest::new("t".into()));
    assert!(is_safe_run_id(&fresh));
    assert_ne!(fresh, attempt_run_id(&RunRequest::new("t".into())));
}

#[test]
fn a_resumed_attempt_carries_its_answer_over() {
    let state = resumed_state(
        &Config::default(),
        &resume(Some("the first")),
        "run-1",
        Some(checkpoint(Some(park()))),
        Ok("/ws".to_string()),
    )
    .unwrap();
    assert_eq!(state.turns, 2);
    assert_eq!(state.task, "the task");
    assert!(state.messages.last().unwrap().content.contains("the first"));
    assert_eq!(state.messages.last().unwrap().tool_call_id, "call-1");
    assert_eq!(state.workspace.cleanup, WorkspaceCleanup::Keep);
    assert!(resumed_state(&Config::default(), &resume(None), "run-1", None, Ok("/ws".into()))
        .is_err());
}

#[test]
fn a_fresh_attempt_starts_from_its_task() {
    let workspace = MaterializedWorkspace {
        path: "/ws".into(),
        adapter: "directory".into(),
        cleanup: WorkspaceCleanup::RemoveDir,
    };
    let state =
        fresh_state(&RunRequest::new("go".into()), "run-9".into(), Ok(workspace)).unwrap();
    assert_eq!(state.messages.len(), 1);
    assert_eq!(state.messages[0].role, "user");
    assert_eq!(state.messages[0].content, "go");
    assert_eq!(state.turns, 0);
    assert!(matches!(
        fresh_state(&RunRequest::new("go".into()), "run-9".into(), Err("full".into())),
        Err(RunError::Workspace(_))
    ));
}

#[test]
fn snapshots_follow_the_request() {
    let mut request = RunRequest::new("go".into());
    let mut config = Config::default();
    assert!(matches!(snapshot_plan(&config, &request), SnapshotPlan::Nothing));
    config.workspace.snapshot = true;
    assert!(matches!(snapshot_plan(&config, &request), SnapshotPlan::CaptureInitial));
    request.restore_snapshot = Some("initial".into());
    assert!(matches!(snapshot_plan(&config, &request), SnapshotPlan::Restore(n) if n == "initial"));
    assert!(snapshot_event(&SnapshotOutcome::Unchanged).is_none());
    assert!(matches!(
        snapshot_event(&SnapshotOutcome::Captured { name: "initial".into(), path: "/s".into() }),
        Some(HarnessEvent::Message { text, .. }) if text == "snapshot initial at /s"
    ));
}

#[test]
fn context_is_announced() {
    let rules = Some(ContextSource { name: "AGENTS.md".into(), digest: "sha256:r".into() });
    let skills = vec![ContextSource { name: "pack".into(), digest: "sha256:s".into() }];
    let events = context_events("prompt-1", &rules, &skills, "/ws");
    assert!(matches!(&events[0], HarnessEvent::Prompt { prompt_id } if prompt_id == "prompt-1"));
    assert!(events.len() >= 3);
    assert!(baseline_event(&Ok(())).is_none());
    assert!(baseline_event(&Err("no git".into())).is_some());
}

#[test]
fn the_initial_checkpoint_is_durable_or_taken_back() {
    let mut stage = InitialStage::Save;
    for _ in 0..4 {
        stage = advance_initial(stage, false, true, true);
    }
    assert_eq!(stage, InitialStage::Ready);
    assert_eq!(
        advance_initial(InitialStage::Save, false, true, false),
        InitialStage::Compensate
    );
    assert_eq!(
        advance_initial(InitialStage::Save, true, true, false),
        InitialStage::SaveFailed
    );
    let error = RunError::Checkpoint("disk full".into());
    assert!(compensation_reason(&error).starts_with("initial checkpoint failed: "));
    assert!(compensation_failed(&error, "plane down").message().contains("plane down"));
}

#[test]
fn unrequired_reports_may_fail() {
    report_result(Ok(()), true).unwrap();
    report_result(Err(GovernanceError::Message("down".into())), false).unwrap();
    assert!(report_result(Err(GovernanceError::Message("down".into())), true).is_err());
    let (dir, note) = finalized_artifacts(Ok("/artifacts".into()), &Ok(()));
    assert_eq!(dir.as_deref(), Some("/artifacts"));
    assert!(note.is_none());
    let (dir, note) = finalized_artifacts(Err("gone".into()), &Ok(()));
    assert!(dir.is_none());
    assert!(note.is_some());
}

#[test]
fn a_turn_without_tools_ends_the_run() {
    let done = ModelTurn { content: "all done".into(), tool_calls: vec![], usage: None };
    let ending = conclude_turn(&done).unwrap();
    assert!(ending.success);
    assert_eq!(ending.summary, "all done");
    let working = ModelTurn {
        content: String::new(),
        tool_calls: vec![ToolCall { id: "a".into(), name: "bash".into(), args_json: "{}".into() }],
        usage: None,
    };
    assert!(conclude_turn(&working).is_none());
    assert!(conclude_batch(ToolBatchOutcome::Continue).is_none());
    let reported = conclude_batch(ToolBatchOutcome::Completed {
        summary: "reported".into(),
        success: false,
    })
    .unwrap();
    assert!(!reported.success);
    let outcome = ended_outcome(&reported, 3, "/ws");
    assert_eq!(outcome.turns, 3);
    let result = run_result(
        "run-1".into(),
        reported,
        3,
        "/ws".into(),
        None,
        "prompt".into(),
        TokenUsage::default(),
        None,
        vec![],
    );
    assert_eq!(result.summary, "reported");
    assert_eq!(failed_outcome(&RunError::Cancelled, 1, "/ws").termination, "cancelled");
}

#[test]
fn timeouts_come_from_the_request_first() {
    let mut config = Config::default();
    assert_eq!(effective_timeout(&config, None), None);
    config.run.timeout_secs = Some(3);
    assert_eq!(effective_timeout(&config, None), Some(3000));
    assert_eq!(effective_timeout(&config, Some(5)), Some(5));
}

fn end_stages(p: &EndPlan, ok: bool) -> Vec<EndStage> {
    let mut stage = begin_end(p);
    let mut seen = vec![stage];
    for _ in 0..30 {
        let next = advance_end(p, stage, ok);
        if next == stage {
            break;
        }
        stage = next;
        seen.push(stage);
    }
    seen
}

#[test]
fn workspaces_are_removed_only_after_success() {
    let done = conclude_turn(&ModelTurn {
        content: "ok".into(),
        tool_calls: vec![],
        usage: None,
    })
    .unwrap();
    let removed = end_stages(&plan_ending(&done, false), true);
    assert!(removed.contains(&EndStage::Cleanup));
    assert_eq!(removed.last(), Some(&EndStage::Done));
    let kept = end_stages(&plan_ending(&done, true), true);
    assert!(!kept.contains(&EndStage::Cleanup));
    let failed = end_stages(&plan_failure(&RunError::Cancelled, false), true);
    assert!(!failed.contains(&EndStage::Cleanup));
    assert_eq!(failed.last(), Some(&EndStage::Failed));
}

#[test]
fn sessions_become_checkpoints() {
    let mut session = RunSession::new(
        "run-1".into(),
        "task".into(),
        "/ws".into(),
        "directory".into(),
        true,
        vec![],
        4,
    );
    assert!(!session.is_content());
    let saved = session.save("prompt", &vec![], &None);
    assert_eq!(saved.completed_turns, 4);
    assert!(saved.park.is_none());
    let parked = session.save_recoverable(Some(park()), "prompt", &vec![], &None);
    assert_eq!(parked.park.unwrap().question, "which?");
    assert!(session.content_sidecar(1).is_none());
    assert_eq!(session.bound_generation(), 0);
}

fn capabilities() -> ContentCapabilitiesV1 {
    ContentCapabilitiesV1 {
        input_kinds: vec![ContentPartKind::Text],
        output_kinds: vec![ContentPartKind::Text],
        media_types: vec!["text/plain".into()],
        max_part_bytes: 1024,
        max_parts: 8,
        max_aggregate_bytes: 4096,
    }
}

fn part(part_id: &str, payload: &[u8]) -> ContentPartDescriptor {
    ContentPartDescriptor {
        part_id: part_id.into(),
        kind: ContentPartKind::Text,
        media_type: "text/plain".into(),
        byte_length: payload.len() as u64,
        sha256_digest: digest_label(payload),
        reference: format!("memory:{part_id}"),
        provenance: ContentProvenanceV1 {
            source: "test".into(),
            source_id: part_id.into(),
            source_version: "1".into(),
            observed_at_ms: 1,
        },
        disclosure_state: ContentDisclosureState::Accepted,
        disclosure_reason: String::new(),
    }
}

fn content_message(parts: Vec<ContentPartDescriptor>) -> ContentMessageV1 {
    ContentMessageV1 { role: "user".into(), parts, tool_call_id: String::new(), tool_calls: vec![] }
}

fn content_session() -> RunSession {
    let mut session = RunSession::new(
        "run-1".into(),
        "task".into(),
        "/ws".into(),
        "directory".into(),
        true,
        vec![],
        0,
    );
    session
        .set_content(
            "resolver-1",
            capabilities(),
            vec![content_message(vec![part("in", b"hello")])],
            None,
            ContentResumeState {
                initial_message_count: 1,
                binding: None,
                terminal: None,
                usage: TokenUsage::default(),
            },
        )
        .unwrap();
    session
}

#[test]
fn content_turns_are_stored_and_appended() {
    let mut session = content_session();
    assert!(session.is_content());
    let turn = ContentModelTurnV1 {
        text: "finished".into(),
        output_parts: vec![],
        tool_calls: vec![],
        usage: None,
    };
    session.begin_content_turn(&turn).unwrap();
    session.check_content_turn(&turn).unwrap();
    let plan = session.plan_content_turn(&turn).unwrap();
    assert_eq!(plan.len(), 1);
    assert_eq!(plan[0].text, "finished");
    let stored = part(&plan[0].part_id, b"finished");
    session.append_content_model_turn(&turn, &vec![stored], &vec![]).unwrap();
    assert_eq!(session.content_messages().unwrap().len(), 2);
    session
        .mark_content_terminal(true, RunTermination::Completed, "finished", TokenUsage::default())
        .unwrap();
    let recovered =
        session.recover_content_terminal(Ok(Some("finished".into()))).unwrap().unwrap();
    assert_eq!(recovered.1, "finished");
    let sidecar = session.content_sidecar(1).unwrap();
    assert_eq!(sidecar.generation, 1);
    assert!(sidecar.terminal.is_some());
}

#[test]
fn content_tool_text_gets_a_fresh_part() {
    let mut session = content_session();
    let plan = session.plan_content_tool_text("call-1", "result").unwrap();
    assert_ne!(plan.part_id, "in");
    let stored = part(&plan.part_id, b"result");
    session.append_content_tool_text("call-1".into(), stored).unwrap();
    assert_eq!(session.content_messages().unwrap()[1].tool_call_id, "call-1");
}

#[test]
fn outputs_are_held_to_their_descriptors() {
    let p = part("out", b"x");
    resolved_output(&p, Resolution::Fits).unwrap();
    assert!(resolved_output(&p, Resolution::Failed).is_err());
    assert!(resolved_output(&p, Resolution::Misfit("digest differs".into())).is_err());
}

#[test]
fn stored_parts_make_a_model_turn_again() {
    let turn = ContentModelTurnV1 {
        text: String::new(),
        output_parts: vec![part("out", b"hello")],
        tool_calls: vec![],
        usage: None,
    };
    let rebuilt = content_to_model_turn(
        &turn,
        &vec![],
        &vec![ResolvedPart::Text { value: "hello".into(), misfit: None }],
    )
    .unwrap();
    assert_eq!(rebuilt.content, "hello");
    assert!(content_to_model_turn(&turn, &vec![], &vec![ResolvedPart::Failed]).is_err());
}

#[test]
fn finalized_content_is_not_run_again() {
    let mut c = checkpoint(None);
    c.content = Some(ContentCheckpointBinding {
        schema_version: 1,
        generation: 1,
        slot: "a".into(),
        sha256_digest: digest_label(b"sidecar"),
        resolver_id: "resolver-1".into(),
    });
    let mut session = content_session();
    let mut sidecar = session.content_sidecar(1).unwrap();
    sidecar.completed_turns = 2;
    sidecar.terminal = Some(ContentTerminalCheckpoint {
        success: true,
        termination: RunTermination::Completed,
        summary_part_id: "out".into(),
        summary_digest: digest_label(b"finished"),
        usage: TokenUsage::default(),
        finalized: true,
        artifact_dir: None,
    });
    let request = ContentResume {
        run_id: "run-1".into(),
        task: "the task".into(),
        resolver_id: "resolver-1".into(),
        capabilities: capabilities(),
        initial_messages_match: true,
    };
    let resolved = ResolvedContent { parts_fault: None, summary: Ok(Some("finished".into())) };
    let result = recover_finalized_content(&request, &c, &sidecar, resolved, None)
        .unwrap()
        .unwrap();
    assert_eq!(result.summary, "finished");
    assert!(result.success);
    sidecar.terminal = None;
    let resolved = ResolvedContent { parts_fault: None, summary: Ok(None) };
    assert!(recover_finalized_content(&request, &c, &sidecar, resolved, None)
        .unwrap()
        .is_none());
    session.set_content_usage(TokenUsage { input_tokens: 1, output_tokens: 1 });
    assert_eq!(session.content_usage().input_tokens, 1);
}

fn result() -> RunResult {
    RunResult {
        run_id: "run-1".into(),
        success: true,
        summary: "private summary".into(),
        turns: 2,
        workspace: "/ws".into(),
        artifact_dir: None,
        termination: RunTermination::Completed,
        park: None,
        prompt_id: "p".into(),
        usage: TokenUsage::default(),
        cost: None,
        todos: vec![],
    }
}

#[test]
fn content_summaries_are_projected_before_they_are_kept() {
    let registry = RunRegistry::new("/state");
    let mut slot = RunSlot { record: None, cancel_marker: false, owner_ms: None };
    registry.start(&mut slot, "run-1", "task", None, None, 1, 1).unwrap();
    finish_run(&registry, &mut slot, "run-1", &Ok(result()), true, 2);
    let kept = slot.record.unwrap();
    assert_eq!(kept.summary, projected_summary("private summary"));
    assert!(!kept.summary.contains("private"));
    assert_eq!(
        RegistryError::Active("run-1".into()).message(),
        "run run-1 is still active; wait for it to terminate before cleanup or resume"
    );
}

#[test]
fn adapters_are_named() {
    assert!(matches!(from_config("scripted", false), Ok(ModelAdapter::Scripted)));
    assert!(matches!(from_config("http", true), Ok(ModelAdapter::Http)));
    assert!(matches!(from_config("http", false), Err(ModelError::HttpUnavailable)));
    assert!(matches!(from_config("nope", true), Err(ModelError::Message(_))));
    let mut model = ScriptedModel::from_config(&default_script());
    assert_eq!(model.next_turn().unwrap().tool_calls[0].name, "write_file");
    assert_eq!(model.next_turn().unwrap().tool_calls[0].name, "report");
    assert!(matches!(model.next_turn(), Err(ModelError::ScriptExhausted)));
}

#[test]
fn completions_are_asked_for_and_read() {
    assert_eq!(
        completions_url("https://one.example/v1/"),
        "https://one.example/v1/chat/completions"
    );
    let tools = vec![ToolDef {
        name: "read_file".into(),
        description: "Read".into(),
        schema: r#"{"type":"object"}"#.into(),
    }];
    let asked = completion_request("m-1", "be careful", &checkpoint(None).messages, &tools);
    assert_eq!(asked.text_at("model", ""), "m-1");
    assert_eq!(asked.get("messages").unwrap().as_list().unwrap().len(), 2);
    assert_eq!(
        asked.get("tools").unwrap().as_list().unwrap()[0]
            .get_nested("function", "name")
            .unwrap()
            .as_str(),
        Some("read_file")
    );
    let answer = Json::object(vec![(
        "choices".to_string(),
        Json::list(vec![Json::object(vec![(
            "message".to_string(),
            Json::object(vec![("content".to_string(), Json::string("hello"))]),
        )])]),
    )]);
    let turn = completion_turn(&answer).unwrap();
    assert_eq!(turn.content, "hello");
    assert!(turn.tool_calls.is_empty());
    assert!(completion_turn(&Json::Null).is_err());
}

#[test]
fn a_content_terminal_is_finalized_once_it_is_marked() {
    let mut session = content_session();
    session.mark_content_finalized(Some("/artifacts"));
    assert!(session.content_sidecar(1).unwrap().terminal.is_none());

    let turn = ContentModelTurnV1 {
        text: "finished".into(),
        output_parts: vec![],
        tool_calls: vec![],
        usage: None,
    };
    let plan = session.plan_content_turn(&turn).unwrap();
    let stored = part(&plan[0].part_id, b"finished");
    session.append_content_model_turn(&turn, &vec![stored], &vec![]).unwrap();
    session
        .mark_content_terminal(true, RunTermination::Completed, "finished", TokenUsage::default())
        .unwrap();
    let marked = session.content_sidecar(1).unwrap().terminal.unwrap();
    assert!(!marked.finalized);
    assert_eq!(marked.summary_part_id, plan[0].part_id);

    session.mark_content_finalized(Some("/artifacts"));
    let terminal = session.content_sidecar(1).unwrap().terminal.unwrap();
    assert!(terminal.finalized);
    assert_eq!(terminal.artifact_dir.as_deref(), Some("/artifacts"));
    assert_eq!(terminal.summary_digest, marked.summary_digest);
}

#[test]
fn content_faults_become_run_errors() {
    assert!(content_result(None).is_ok());
    let fault = content_result(Some("part `a` is withheld".into())).unwrap_err();
    assert_eq!(fault.message(), "run: part `a` is withheld");

    assert!(content_session().revalidate_content(None).is_ok());
    let fault = content_session().revalidate_content(Some("part `a` is gone".into())).unwrap_err();
    assert_eq!(fault.message(), "run: part `a` is gone");
    let plain = RunSession::new(
        "run-1".into(),
        "task".into(),
        "/ws".into(),
        "directory".into(),
        true,
        vec![],
        0,
    );
    assert!(plain.revalidate_content(Some("unused".into())).is_ok());
}

#[test]
fn scripts_of_turns_are_followed_in_order() {
    let turn = |content: &str| ModelTurn {
        content: content.into(),
        tool_calls: vec![],
        usage: None,
    };
    let mut model = ScriptedModel::from_turns(vec![turn("one"), turn("two")]);
    assert_eq!(model.next_turn().unwrap().content, "one");
    assert_eq!(model.next_turn().unwrap().content, "two");
    assert!(matches!(model.next_turn(), Err(ModelError::ScriptExhausted)));
}

#[test]
fn a_run_starts_from_the_tokens_it_has_used() {
    let mut content = content_session();
    content.set_content_usage(TokenUsage { input_tokens: 3, output_tokens: 4 });
    assert_eq!(content.starting_usage(false), TokenUsage { input_tokens: 3, output_tokens: 4 });
    assert_eq!(content.starting_usage(true), TokenUsage { input_tokens: 3, output_tokens: 4 });
    let plain = RunSession::new(
        "run-1".into(),
        "task".into(),
        "/ws".into(),
        "directory".into(),
        true,
        vec![],
        4,
    );
    assert_eq!(plain.starting_usage(false), TokenUsage { input_tokens: 0, output_tokens: 0 });
    assert_eq!(plain.starting_usage(true), TokenUsage { input_tokens: 0, output_tokens: 0 });
}

fn content_turn(text: &str, calls: &[(&str, &str)]) -> ContentModelTurnV1 {
    ContentModelTurnV1 {
        text: text.into(),
        output_parts: vec![],
        tool_calls: calls
            .iter()
            .map(|(name, arguments)| ToolCall {
                id: String::new(),
                name: name.to_string(),
                args_json: arguments.to_string(),
            })
            .collect(),
        usage: None,
    }
}

/// Stores a turn as it is planned and appends it, without any check before.
fn append_unchecked(session: &mut RunSession, turn: &ContentModelTurnV1) -> Result<(), RunError> {
    let plan = session.plan_content_turn(turn).unwrap();
    let stored = plan.iter().map(|text| part(&text.part_id, text.text.as_bytes())).collect();
    let pointers = turn.tool_calls.iter().map(|_| "{}".to_string()).collect();
    session.append_content_model_turn(turn, &stored, &pointers)
}

#[test]
fn refused_content_turns_leave_the_conversation_as_it_was() {
    let mut held = content_turn("x", &[]);
    held.output_parts = vec![part("in", b"again")];
    let mut twice = content_turn("x", &[]);
    twice.output_parts = vec![part("out", b"1"), part("out", b"2")];
    let mut kind = content_turn("x", &[]);
    kind.output_parts = vec![part("out", b"1")];
    kind.output_parts[0].kind = ContentPartKind::Image;
    let mut media = content_turn("x", &[]);
    media.output_parts = vec![part("out", b"1")];
    media.output_parts[0].media_type = "text/html".into();
    let mut many = content_turn("", &[]);
    many.output_parts = (0..8).map(|i| part(&format!("out-{i}"), b"1")).collect();
    let refused = [
        (
            content_turn("", &[("open", r#"{"path":"see memory:in now"}"#)]),
            "content tool arguments must not disclose raw resolver references",
        ),
        (held, "model returned a duplicate content part id"),
        (twice, "model returned a duplicate content part id"),
        (kind, "model returned an unsupported content output kind"),
        (media, "model returned content outside the configured capability bounds"),
        (
            content_turn(&"x".repeat(1025), &[]),
            "content model text or tool arguments exceed the configured part bound",
        ),
        (
            content_turn("x", &[("open", "")]),
            "content model text or tool arguments exceed the configured part bound",
        ),
        (many, "content model output exceeds the configured aggregate bound"),
        (content_turn("", &[]), "content model turn returned no output or tool calls"),
    ];
    for (turn, reason) in &refused {
        let mut session = content_session();
        let before = format!("{:?}", session.content_messages());
        let error = append_unchecked(&mut session, turn).unwrap_err();
        assert_eq!(error.message(), format!("run: {reason}"));
        assert_eq!(format!("{:?}", session.content_messages()), before);
    }
}

#[test]
fn appended_content_turns_take_fresh_part_ids() {
    let mut session = content_session();
    let turn = content_turn("done", &[("open", r#"{"path":"a"}"#), ("open", r#"{"path":"b"}"#)]);
    append_unchecked(&mut session, &turn).unwrap();
    let messages = session.content_messages().unwrap();
    assert_eq!(messages[1].parts.len(), 3);
    assert_eq!(messages[1].tool_calls[0].id, "tool-0-0");
    assert_eq!(messages[1].tool_calls[1].id, "tool-0-1");
    assert_eq!(messages[1].tool_calls[1].name, "open");
    assert_eq!(messages[1].tool_calls[1].args_json, "{}");
    let mut ids: Vec<_> =
        messages.iter().flat_map(|message| &message.parts).map(|part| &part.part_id).collect();
    ids.sort();
    ids.dedup();
    assert_eq!(ids.len(), 4);

    let taken = messages[1].parts[0].part_id.clone();
    let error = session
        .append_content_model_turn(&content_turn("y", &[]), &vec![part(&taken, b"y")], &vec![])
        .unwrap_err();
    assert_eq!(error.message(), "run: content part id is already used");
    let error = session.append_content_tool_text("c".into(), part(&taken, b"y")).unwrap_err();
    assert_eq!(error.message(), "run: content part id is already used");
    assert_eq!(session.content_messages().unwrap().len(), 2);
    assert!(session.content_is_countable());
    append_unchecked(&mut session, &content_turn("again", &[])).unwrap();
    assert_ne!(session.content_messages().unwrap()[2].parts[0].part_id, taken);
}

#[test]
fn refused_output_parts_take_no_id() {
    let session = content_session();
    let mut used = vec!["in".to_string()];
    let mut image = part("out", b"1");
    image.kind = ContentPartKind::Image;
    assert!(session.check_output_part(&mut used, &image, None).is_err());
    assert!(session
        .check_output_part(&mut used, &part("out", b"1"), Some("unsound".into()))
        .is_err());
    assert_eq!(used, vec!["in".to_string()]);
    assert!(session.check_output_part(&mut used, &part("out", b"1"), None).unwrap());
    assert_eq!(used, vec!["in".to_string(), "out".to_string()]);
}

#[test]
fn content_turns_are_checked_stored_and_appended_in_order() {
    let mut turn = content_turn("done", &[("open", "{}")]);
    turn.output_parts = vec![part("one", b"1"), part("two", b"2")];
    turn.output_parts[0].disclosure_state = ContentDisclosureState::Withheld;
    let mut stage = ContentStage::Begin;
    let mut seen = vec![stage];
    while stage != ContentStage::Appended {
        stage = advance_content(&turn, stage, true);
        seen.push(stage);
    }
    assert_eq!(
        seen,
        vec![
            ContentStage::Begin,
            ContentStage::CheckPart { index: 0 },
            ContentStage::CheckPart { index: 1 },
            ContentStage::Resolve { index: 1 },
            ContentStage::CheckTurn,
            ContentStage::Store { index: 0 },
            ContentStage::Store { index: 1 },
            ContentStage::Append,
            ContentStage::Validate,
            ContentStage::Appended,
        ]
    );
    for stage in seen.iter().take(9) {
        assert_eq!(advance_content(&turn, *stage, false), ContentStage::Refused);
    }
    assert_eq!(advance_content(&turn, ContentStage::Refused, true), ContentStage::Refused);
    let silent = content_turn("", &[]);
    assert_eq!(advance_content(&silent, ContentStage::Begin, true), ContentStage::CheckTurn);
    assert_eq!(advance_content(&silent, ContentStage::CheckTurn, true), ContentStage::Append);
}

#[test]
fn content_is_bound_once_its_checkpoint_is_written() {
    let binding = |generation: u64| {
        Some(ContentCheckpointBinding {
            schema_version: 1,
            generation,
            slot: sidecar_slot(generation).into(),
            sha256_digest: digest_label(b"sidecar"),
            resolver_id: "resolver-1".into(),
        })
    };
    let mut session = content_session();
    let saved = session.save("prompt", &vec![], &binding(1));
    assert_eq!(saved.content.unwrap().generation, 1);
    assert_eq!(session.bound_generation(), 0);
    session.finish_save(binding(1), true);
    assert_eq!(session.bound_generation(), 1);
    session.save_recoverable(None, "prompt", &vec![], &binding(2));
    session.finish_save(binding(2), false);
    assert_eq!(session.bound_generation(), 1);
    session.finish_save(None, true);
    assert_eq!(session.bound_generation(), 1);
    assert_eq!(sidecar_slot(1), "a");
    assert_eq!(sidecar_slot(2), "b");
    assert_ne!(sidecar_slot(session.bound_generation() + 1), sidecar_slot(1));
}
