use shikigami::checkpoint::Checkpoint;
use shikigami::config::{Config, ContextSettings};
use shikigami::content::{ContentCheckpointBinding, CONTENT_SCHEMA_VERSION};
use shikigami::model::{ChatMessage, TokenUsage, ToolCall, ToolDef};
use shikigami::registry::{RunRecord, RunRegistry, RunSlot, RUN_REGISTRY_SCHEMA_VERSION};
use shikigami::replay::bindings::{
    empty_workspace_digest, inventory_entry, local_policy_digest, model_digest, replay_config,
    tool_catalog_digest, validate_host_policy, validate_runtime_bindings, EntryAction, EntryKind,
    Inventory,
};
use shikigami::replay::credentials::contains_credential_material;
use shikigami::replay::export::{
    export_replay_inputs, skill_sources_are_retained, skills_root, CheckpointLoad, ExportInputs,
    SkillProbe, SkillsRoot,
};
use shikigami::replay::recovery::{
    mark_replay_finalized, recover_terminal_replay, replay_checkpoint,
};
use shikigami::replay::{
    compare_steps, complete_replay, digest_bytes, steps_from_messages, text_digest,
    validate_digest, ReplayBindings, ReplayComparisonStatus, ReplayError, ReplayEvidenceBundle,
    ReplayManifest, ReplayRequest, ReplayStepEvidence, ReplayStepKind, ReplayTerminalCheckpoint,
    ReplayTerminalEvidence, MAX_REPLAY_STEPS, MAX_REPLAY_TASK_BYTES, REPLAY_SCHEMA_VERSION,
};
use shikigami::run::session::RunSession;
use shikigami::run::{RunResult, RunTermination};

fn valid_digest(seed: &str) -> String {
    text_digest(seed)
}

fn bundle() -> ReplayEvidenceBundle {
    let bindings = ReplayBindings {
        task_digest: valid_digest("task"),
        inputs_digest: valid_digest("inputs"),
        prompt_digest: valid_digest("prompt"),
        model_digest: valid_digest("model"),
        tool_catalog_digest: valid_digest("tools"),
        policy_evidence_digest: valid_digest("policy"),
        retained_evidence_digest: valid_digest("source"),
    };
    ReplayEvidenceBundle {
        schema_version: REPLAY_SCHEMA_VERSION,
        source_run_id: "source-run".into(),
        source_logical_operation_id: None,
        task: "task".into(),
        bindings,
        expected_steps: vec![],
        expected_terminal: ReplayTerminalEvidence {
            success: true,
            termination: "completed".into(),
            summary_digest: valid_digest("done"),
        },
    }
}

#[test]
fn manifest_binds_exact_evidence_bytes() {
    let evidence = bundle();
    let manifest = ReplayManifest::for_evidence(&evidence).unwrap();
    let request = ReplayRequest::new(manifest, evidence);
    assert!(request.keep_workspace);
    assert!(request.admitted().is_ok());
}

#[test]
fn changed_evidence_is_rejected() {
    let evidence = bundle();
    let manifest = ReplayManifest::for_evidence(&evidence).unwrap();
    let mut changed = evidence;
    changed.task = "changed".into();
    let error = ReplayRequest::new(manifest, changed).admitted().unwrap_err();
    assert!(error.message().contains("digest"));
}

#[test]
fn unsupported_versions_are_rejected() {
    let mut evidence = bundle();
    evidence.schema_version = 99;
    assert!(evidence.validate().unwrap_err().message().contains("version"));
}

#[test]
fn oversized_and_credential_bearing_evidence_is_rejected() {
    let mut oversized = bundle();
    oversized.task = "x".repeat(MAX_REPLAY_TASK_BYTES + 1);
    assert!(oversized.validate().unwrap_err().message().contains("task"));

    let mut too_many_steps = bundle();
    too_many_steps.expected_steps = (0..=MAX_REPLAY_STEPS)
        .map(|_| ReplayStepEvidence {
            kind: ReplayStepKind::Model,
            name: String::new(),
            content_digest: valid_digest("step"),
        })
        .collect();
    assert!(too_many_steps
        .validate()
        .unwrap_err()
        .message()
        .contains("expected_steps"));

    let mut credential = bundle();
    credential.task = "call with authorization: bearer secret-value-123".into();
    assert!(credential
        .validate()
        .unwrap_err()
        .message()
        .contains("credential"));
}

#[test]
fn every_manifest_binding_is_content_bound() {
    let evidence = bundle();
    let manifest = ReplayManifest::for_evidence(&evidence).unwrap();
    for mutate in 0..7 {
        let mut changed = manifest.clone();
        let replacement = valid_digest(&format!("changed-{mutate}"));
        match mutate {
            0 => changed.bindings.task_digest = replacement,
            1 => changed.bindings.inputs_digest = replacement,
            2 => changed.bindings.prompt_digest = replacement,
            3 => changed.bindings.model_digest = replacement,
            4 => changed.bindings.tool_catalog_digest = replacement,
            5 => changed.bindings.policy_evidence_digest = replacement,
            6 => changed.bindings.retained_evidence_digest = replacement,
            _ => unreachable!(),
        }
        let error = ReplayRequest::new(changed, evidence.clone()).admitted().unwrap_err();
        let text = error.message();
        assert!(text.contains("bindings"), "binding {mutate}: {text}");
    }
}

#[test]
fn messages_become_ordered_digest_only_evidence() {
    let messages = vec![
        ChatMessage {
            role: "assistant".into(),
            content: String::new(),
            tool_call_id: String::new(),
            tool_calls: vec![ToolCall {
                id: "call-1".into(),
                name: "read_file".into(),
                args_json: r#"{"path":"README.md"}"#.into(),
            }],
        },
        ChatMessage {
            role: "tool".into(),
            content: "contents".into(),
            tool_call_id: "call-1".into(),
            tool_calls: vec![],
        },
    ];
    let steps = steps_from_messages(&messages);
    assert_eq!(steps.len(), 2);
    assert_eq!(steps[0].kind, ReplayStepKind::Model);
    assert_eq!(steps[1].name, "read_file");
    assert!(!steps[1].content_digest.contains("contents"));
}

#[test]
fn model_step_digest_ignores_provider_tool_call_ids() {
    let message = |id: &str| ChatMessage {
        role: "assistant".into(),
        content: "inspect".into(),
        tool_call_id: String::new(),
        tool_calls: vec![ToolCall {
            id: id.into(),
            name: "read_file".into(),
            args_json: r#"{"path":"README.md"}"#.into(),
        }],
    };
    let first = steps_from_messages(&vec![message("provider-call-1")]);
    let second = steps_from_messages(&vec![message("provider-call-999")]);
    assert_eq!(first, second);
}

#[test]
fn ordered_comparison_classifies_nondeterministic_text_and_structure() {
    let step = |kind, name: &str, content: &str| ReplayStepEvidence {
        kind,
        name: name.into(),
        content_digest: valid_digest(content),
    };
    let expected = vec![
        step(ReplayStepKind::Model, "", "equal"),
        step(ReplayStepKind::Model, "", "source wording"),
        step(ReplayStepKind::Tool, "grep", "structure"),
        step(ReplayStepKind::Tool, "read_file", "missing"),
    ];
    let actual = vec![
        step(ReplayStepKind::Model, "", "equal"),
        step(ReplayStepKind::Model, "", "nondeterministic wording"),
        step(ReplayStepKind::Tool, "glob", "structure"),
    ];

    let statuses: Vec<_> = compare_steps(&expected, &actual)
        .into_iter()
        .map(|comparison| comparison.status)
        .collect();

    assert_eq!(
        statuses,
        vec![
            ReplayComparisonStatus::Equal,
            ReplayComparisonStatus::Changed,
            ReplayComparisonStatus::Unsupported,
            ReplayComparisonStatus::Missing,
        ]
    );
}

#[test]
fn model_binding_includes_credential_free_source_configuration() {
    let mut first = Config::default();
    first.model.adapter = "scripted".into();
    first.model.script_json = Some(r#"[{"content":"first"}]"#.into());
    let mut second = first.clone();
    second.model.script_json = Some(r#"[{"content":"second"}]"#.into());

    let first = model_digest(&first);
    let second = model_digest(&second);
    assert_ne!(first, second);

    let mut first = Config::default();
    first.model.adapter = "http".into();
    first.model.base_url = Some("https://one.example/v1".into());
    let mut second = first.clone();
    second.model.base_url = Some("https://two.example/v1".into());
    assert_ne!(model_digest(&first), model_digest(&second));
}

#[test]
fn replay_runtime_disables_context_compaction() {
    let mut config = Config::default();
    config.run.compact_after_messages = Some(4);
    assert_eq!(replay_config(&config).run.compact_after_messages, None);
}

fn inventory(files: &[(&str, &[u8])]) -> String {
    let mut v = Inventory::new();
    for (path, bytes) in files {
        v.add_file(Some(path), &bytes.to_vec()).unwrap();
    }
    v.digest()
}

#[test]
fn inventory_digests_ignore_the_order_of_a_walk() {
    let one = inventory(&[("a.txt", b"1"), ("nested/input.txt", b"same")]);
    let two = inventory(&[("nested/input.txt", b"same"), ("a.txt", b"1")]);
    assert_eq!(one, two);
    assert_ne!(one, inventory(&[("a.txt", b"1"), ("nested/input.txt", b"changed")]));
    assert_eq!(inventory(&[]), empty_workspace_digest());
    let mut broken = Inventory::new();
    assert!(broken.add_file(None, &vec![]).is_err());
    assert_eq!(inventory_entry("src", EntryKind::Directory).unwrap(), EntryAction::Descend);
    assert_eq!(inventory_entry("a.txt", EntryKind::File).unwrap(), EntryAction::Read);
    assert!(inventory_entry("link", EntryKind::Symlink).is_err());
}

#[test]
fn digests_have_one_form() {
    validate_digest("task_digest", &text_digest("x")).unwrap();
    assert_eq!(text_digest("x"), digest_bytes(b"x"));
    assert!(validate_digest("task_digest", "sha256:short").is_err());
    assert!(validate_digest("task_digest", &"g".repeat(71)).is_err());
    assert_eq!(
        text_digest(""),
        "sha256:e3b0c44298fc1c149afbf4c8996fb92427ae41e4649b934ca495991b7852b855"
    );
}

#[test]
fn credentials_are_recognized_by_their_marks() {
    assert!(contains_credential_material("Authorization: Bearer abcdefgh12345"));
    assert!(contains_credential_material("see (sk-abcdefghijkl)"));
    assert!(!contains_credential_material("password: ${PASSWORD_FROM_ENV}"));
    assert!(!contains_credential_material("token=short"));
    assert!(!contains_credential_material("write the release notes"));
}

const PROMPT: &str = "You are a careful agent.";

fn record(finish: bool) -> RunRecord {
    RunRecord {
        schema_version: RUN_REGISTRY_SCHEMA_VERSION,
        run_id: "run-1".into(),
        status: if finish { "completed" } else { "running" }.into(),
        success: if finish { Some(true) } else { None },
        termination: if finish { Some("completed".into()) } else { None },
        summary: if finish { "done" } else { "" }.into(),
        task_digest: text_digest("task"),
        logical_operation_id: None,
        workspace: None,
        artifact_dir: None,
        started_at_ms: 1,
        last_started_at_ms: 1,
        finished_at_ms: if finish { Some(2) } else { None },
        process_id: 1,
        last_heartbeat_at_ms: 1,
        turns: 1,
        usage: TokenUsage::default(),
        cost: None,
        cancel_requested: false,
    }
}

fn checkpoint(
    prompt_id: &str,
    messages: Vec<ChatMessage>,
    content: Option<ContentCheckpointBinding>,
) -> Checkpoint {
    Checkpoint {
        run_id: "run-1".into(),
        task: "task".into(),
        prompt_id: prompt_id.into(),
        messages,
        completed_turns: 1,
        workspace: "/state/runs/run-1/workspace".into(),
        keep_workspace: true,
        workspace_adapter: "directory".into(),
        park: None,
        todos: vec![],
        replay: None,
        content,
    }
}

fn inputs(c: Checkpoint, finish: bool, snapshot: Option<&[u8]>) -> ExportInputs {
    ExportInputs {
        record: Ok(record(finish)),
        checkpoint: CheckpointLoad::Retained(c),
        checkpoint_bytes: b"{\"retained\":true}".to_vec(),
        current_prompt_id: "harness:current".into(),
        inputs_digest: snapshot.map(|bytes| inventory(&[("input.txt", bytes)])),
        skills_retained: true,
        prompt_body: PROMPT.into(),
        tools: vec![],
        enabled: vec![],
    }
}

fn exportable_config() -> Config {
    let mut config = Config::default();
    config.governance.adapter = "local".into();
    config.model.adapter = "scripted".into();
    config
}

#[test]
fn export_without_initial_snapshot_is_incomplete_even_if_workspace_exists() {
    let report = export_replay_inputs(
        "run-1",
        &inputs(checkpoint("harness:current", vec![], None), true, None),
        &exportable_config(),
    )
    .unwrap();
    assert!(!report.complete);
    assert!(report.missing.iter().any(|item| item == "inputs"));
    assert!(report.manifest.is_none());
    assert!(report.evidence.is_none());
}

#[test]
fn export_complete_package_admits_and_binds_snapshot_not_workspace() {
    let messages = vec![
        ChatMessage {
            role: "assistant".into(),
            content: String::new(),
            tool_call_id: String::new(),
            tool_calls: vec![ToolCall {
                id: "report-1".into(),
                name: "report".into(),
                args_json: r#"{"summary":"done","success":true}"#.into(),
            }],
        },
        ChatMessage {
            role: "tool".into(),
            content: "report: done".into(),
            tool_call_id: "report-1".into(),
            tool_calls: vec![],
        },
    ];
    let given = inputs(checkpoint("harness:current", messages, None), true, Some(b"original"));
    let report = export_replay_inputs("run-1", &given, &exportable_config()).unwrap();
    assert!(report.complete, "{:?}", report.missing);
    let evidence = report.evidence.expect("complete evidence");
    assert_eq!(
        evidence.bindings.inputs_digest,
        inventory(&[("input.txt", b"original")])
    );
    assert_ne!(
        evidence.bindings.inputs_digest,
        inventory(&[("mutated.txt", b"after")])
    );
    assert_eq!(
        evidence.bindings.retained_evidence_digest,
        digest_bytes(b"{\"retained\":true}")
    );
    assert_eq!(evidence.expected_steps.len(), 2);
    let request = ReplayRequest::new(report.manifest.expect("complete manifest"), evidence);
    request.admitted().unwrap();
}

#[test]
fn export_prompt_digest_includes_snapshot_project_rules() {
    let mut given =
        inputs(checkpoint("harness:current", vec![], None), true, Some(b"original"));
    given.prompt_body = format!("{PROMPT}\n\nmust follow the house rules");
    let report = export_replay_inputs("run-1", &given, &exportable_config()).unwrap();
    assert!(report.complete, "{:?}", report.missing);
    let evidence = report.evidence.expect("complete evidence");
    assert_eq!(evidence.bindings.prompt_digest, text_digest(&given.prompt_body));
    assert_ne!(evidence.bindings.prompt_digest, text_digest(PROMPT));
}

fn exported_with_skills_root(root: &str) -> shikigami::replay::export::ReplayExportReport {
    let mut config = exportable_config();
    config.context.skills = vec!["pack".into()];
    config.context.skills_root = Some(root.into());
    let mut given =
        inputs(checkpoint("harness:current", vec![], None), true, Some(b"original"));
    let probes = vec![SkillProbe { regular_file: true, inside_root: true }];
    given.skills_retained = skill_sources_are_retained(&config.context, true, &probes);
    export_replay_inputs("run-1", &given, &config).unwrap()
}

#[test]
fn export_external_skill_root_is_incomplete_prompt() {
    let report = exported_with_skills_root("/tmp/not-retained-skills");
    assert!(!report.complete);
    assert!(report.missing.iter().any(|item| item == "prompt"));
}

#[test]
fn export_parent_skill_root_is_incomplete_prompt() {
    let report = exported_with_skills_root("../packs");
    assert!(!report.complete);
    assert!(report.missing.iter().any(|item| item == "prompt"));
}

#[test]
fn skills_inside_the_snapshot_are_retained() {
    let settings =
        ContextSettings { skills: vec!["pack".into()], skills_root: Some("skills".into()) };
    assert!(matches!(skills_root(&settings), SkillsRoot::Below(_)));
    let probes = vec![SkillProbe { regular_file: true, inside_root: true }];
    assert!(skill_sources_are_retained(&settings, true, &probes));
    let escaped = vec![SkillProbe { regular_file: true, inside_root: false }];
    assert!(!skill_sources_are_retained(&settings, true, &escaped));
    let none = ContextSettings { skills: vec![], skills_root: None };
    assert!(skill_sources_are_retained(&none, false, &vec![]));
}

#[test]
fn export_content_run_is_incomplete() {
    let binding = ContentCheckpointBinding {
        schema_version: CONTENT_SCHEMA_VERSION,
        generation: 1,
        slot: "a".into(),
        sha256_digest: digest_bytes(b"sidecar"),
        resolver_id: "cli-file-v1".into(),
    };
    let report = export_replay_inputs(
        "run-1",
        &inputs(checkpoint("harness:current", vec![], Some(binding)), true, Some(b"original")),
        &exportable_config(),
    )
    .unwrap();
    assert!(!report.complete);
    assert_eq!(report.missing, vec!["content"]);
}

#[test]
fn export_compacted_history_is_incomplete() {
    let messages = vec![ChatMessage {
        role: "user".into(),
        content: "[context compacted: 8 earlier messages omitted; continue the original task]"
            .into(),
        tool_call_id: String::new(),
        tool_calls: vec![],
    }];
    let report = export_replay_inputs(
        "run-1",
        &inputs(checkpoint("harness:current", messages, None), true, Some(b"original")),
        &exportable_config(),
    )
    .unwrap();
    assert!(!report.complete);
    assert!(report.missing.iter().any(|item| item == "steps"));
}

#[test]
fn export_prompt_mismatch_and_non_terminal_are_incomplete() {
    let report = export_replay_inputs(
        "run-1",
        &inputs(
            checkpoint("custom:not-the-current-system-prompt", vec![], None),
            false,
            Some(b"original"),
        ),
        &exportable_config(),
    )
    .unwrap();
    assert!(!report.complete);
    assert!(report.missing.iter().any(|item| item == "prompt"));
    assert!(report.missing.iter().any(|item| item == "terminal"));
}

#[test]
fn an_unreadable_checkpoint_is_told() {
    let mut given =
        inputs(checkpoint("harness:current", vec![], None), true, Some(b"original"));
    given.checkpoint = CheckpointLoad::Unreadable("bad json".into());
    let report = export_replay_inputs("run-1", &given, &exportable_config()).unwrap();
    assert_eq!(report.missing, vec!["checkpoint"]);
    assert_eq!(report.reason, "bad json");
    let mut missing =
        inputs(checkpoint("harness:current", vec![], None), true, Some(b"original"));
    missing.checkpoint = CheckpointLoad::Missing;
    let report = export_replay_inputs("run-1", &missing, &exportable_config()).unwrap();
    assert!(!report.complete);
}

#[test]
fn runtime_bindings_are_held_to_the_manifest() {
    let config = exportable_config();
    let tools = vec![];
    let enabled = vec![];
    let bindings = ReplayBindings::from_runtime(
        &config,
        &enabled,
        "task",
        PROMPT,
        &tools,
        &text_digest("inputs"),
        &text_digest("retained"),
    )
    .unwrap();
    assert_eq!(bindings.tool_catalog_digest, tool_catalog_digest(&tools));
    assert_eq!(bindings.policy_evidence_digest, local_policy_digest(&config, &enabled));
    validate_host_policy(&config, &enabled, &bindings).unwrap();
    let mut evidence = bundle();
    evidence.bindings = bindings;
    let manifest = ReplayManifest::for_evidence(&evidence).unwrap();
    let execution = ReplayRequest::new(manifest, evidence).admitted().unwrap();
    validate_runtime_bindings(
        &config,
        &execution,
        "task",
        PROMPT,
        &tools,
        Ok(text_digest("inputs")),
    )
    .unwrap();
    match validate_runtime_bindings(
        &config,
        &execution,
        "task",
        "another prompt",
        &tools,
        Ok(text_digest("inputs")),
    ) {
        Err(ReplayError::BindingMismatch { surface }) => assert_eq!(surface, "prompt"),
        _ => panic!("the prompt differs"),
    }
}

fn run_result() -> RunResult {
    RunResult {
        run_id: "run-2".into(),
        success: true,
        summary: "done".into(),
        turns: 1,
        workspace: "/ws".into(),
        artifact_dir: None,
        termination: RunTermination::Completed,
        park: None,
        prompt_id: "harness:current".into(),
        usage: TokenUsage::default(),
        cost: None,
        todos: vec![],
    }
}

#[test]
fn a_replay_that_repeats_its_source_is_equal() {
    let evidence = bundle();
    let manifest = ReplayManifest::for_evidence(&evidence).unwrap();
    let execution = ReplayRequest::new(manifest, evidence).admitted().unwrap();
    let result = complete_replay(&vec![], run_result(), execution.clone());
    assert_eq!(result.terminal.status, ReplayComparisonStatus::Equal);
    assert!(result.steps.is_empty());
    let report = result.report();
    assert_eq!(report.run_id, "run-2");
    assert_eq!(report.termination, "completed");
    let failed = RunResult { success: false, ..run_result() };
    let changed = complete_replay(&vec![], failed, execution);
    assert_eq!(changed.terminal.status, ReplayComparisonStatus::Changed);
}

#[test]
fn a_replay_keeps_the_steps_that_it_compared() {
    let messages = vec![ChatMessage {
        role: "assistant".into(),
        content: "inspect".into(),
        tool_call_id: String::new(),
        tool_calls: vec![],
    }];
    let taken = steps_from_messages(&messages);
    let mut evidence = bundle();
    evidence.expected_steps = vec![
        ReplayStepEvidence {
            kind: ReplayStepKind::Model,
            name: String::new(),
            content_digest: valid_digest("other wording"),
        },
        ReplayStepEvidence {
            kind: ReplayStepKind::Tool,
            name: "read_file".into(),
            content_digest: valid_digest("contents"),
        },
    ];
    let expected = evidence.expected_steps.clone();
    let manifest = ReplayManifest::for_evidence(&evidence).unwrap();
    let execution = ReplayRequest::new(manifest, evidence).admitted().unwrap();
    let result = complete_replay(&messages, run_result(), execution);
    assert_eq!(result.steps.len(), 2);
    assert_eq!(result.steps[0].status, ReplayComparisonStatus::Changed);
    assert_eq!(result.steps[0].expected.as_ref(), Some(&expected[0]));
    assert_eq!(result.steps[0].actual.as_ref(), Some(&taken[0]));
    assert_eq!(result.steps[1].status, ReplayComparisonStatus::Missing);
    assert_eq!(result.steps[1].expected.as_ref(), Some(&expected[1]));
    assert_eq!(result.steps[1].actual, None);
}

#[test]
fn a_terminal_replay_is_recovered_from_its_checkpoint() {
    let evidence = bundle();
    let manifest = ReplayManifest::for_evidence(&evidence).unwrap();
    let execution = ReplayRequest::new(manifest, evidence).admitted().unwrap();
    let mut c = checkpoint("harness:current", vec![], None);
    let mut replay = replay_checkpoint(&execution, "/state/runs/run-1/workspace");
    assert!(recover_terminal_replay(&c, None, "run-1", &execution).unwrap().is_none());
    c.replay = Some(replay.clone());
    assert!(recover_terminal_replay(&c, None, "run-1", &execution).unwrap().is_none());
    replay.terminal = Some(ReplayTerminalCheckpoint {
        success: true,
        termination: RunTermination::Completed,
        summary: "done".into(),
        prompt_id: "harness:current".into(),
        usage: TokenUsage::default(),
        cost: None,
        finalized: false,
        artifact_dir: None,
    });
    c.replay = Some(replay);
    let recovered = recover_terminal_replay(&c, Some("/artifacts"), "run-1", &execution)
        .unwrap()
        .unwrap();
    assert_eq!(recovered.run.summary, "done");
    assert!(!recovered.finalized);
    mark_replay_finalized(&mut c, "run-1", Some("/artifacts")).unwrap();
    let again = recover_terminal_replay(&c, None, "run-1", &execution).unwrap().unwrap();
    assert!(again.finalized);
    assert_eq!(again.run.artifact_dir.as_deref(), Some("/artifacts"));
}

#[test]
fn a_session_keeps_the_terminal_of_its_replay() {
    let evidence = bundle();
    let manifest = ReplayManifest::for_evidence(&evidence).unwrap();
    let execution = ReplayRequest::new(manifest, evidence).admitted().unwrap();
    let mut session = RunSession::new(
        "run-1".into(),
        "task".into(),
        "/ws".into(),
        "directory".into(),
        false,
        vec![],
        2,
    );
    let terminal = ReplayTerminalCheckpoint {
        success: true,
        termination: RunTermination::Completed,
        summary: "done".into(),
        prompt_id: "harness:current".into(),
        usage: TokenUsage::default(),
        cost: None,
        finalized: false,
        artifact_dir: None,
    };
    session.mark_replay_terminal(terminal.clone());
    assert!(session.replay.is_none());
    session.set_replay(Some(replay_checkpoint(&execution, "/ws")));
    session.mark_replay_finalized(Some("/artifacts"));
    assert!(session.replay.as_ref().unwrap().terminal.is_none());
    session.mark_replay_terminal(terminal.clone());
    assert_eq!(session.replay.as_ref().unwrap().terminal, Some(terminal));
    session.mark_replay_finalized(Some("/artifacts"));
    let kept = session.replay.unwrap().terminal.unwrap();
    assert!(kept.finalized);
    assert_eq!(kept.artifact_dir.as_deref(), Some("/artifacts"));
}

/// The digest of the files that lie below a root.
fn digest_below(root: &str, files: &[(String, &str)]) -> String {
    let mut found = Inventory::new();
    for (path, text) in files {
        let relative = path.strip_prefix(&format!("{root}/")).unwrap();
        assert!(matches!(inventory_entry(relative, EntryKind::File), Ok(EntryAction::Read)));
        found.add_file(Some(relative), &text.as_bytes().to_vec()).unwrap();
    }
    found.digest()
}

#[test]
fn workspace_digest_is_path_independent_and_content_sensitive() {
    let at = |root: &str| format!("{root}/nested/input.txt");
    assert_eq!(
        digest_below("/first", &[(at("/first"), "same")]),
        digest_below("/second", &[(at("/second"), "same")])
    );
    assert_ne!(
        digest_below("/first", &[(at("/first"), "same")]),
        digest_below("/second", &[(at("/second"), "changed")])
    );
}

#[test]
fn export_unreadable_initial_snapshot_is_incomplete() {
    // A link in the snapshot leaves it without a digest.
    let walked = inventory_entry("link", EntryKind::Symlink)
        .map(|_| inventory(&[("input.txt", b"original")]));
    let mut given = inputs(checkpoint("harness:current", vec![], None), true, None);
    given.inputs_digest = walked.ok();
    let report = export_replay_inputs("run-1", &given, &Config::default()).unwrap();
    assert!(!report.complete);
    assert!(report.missing.iter().any(|item| item == "inputs"));
}

#[test]
fn export_missing_run_fails_explicitly() {
    let empty = RunSlot { record: None, cancel_marker: false, owner_ms: None };
    let mut given = inputs(checkpoint("harness:current", vec![], None), true, None);
    given.record = RunRegistry::new("/state").load(&empty, "missing");
    let error = export_replay_inputs("missing", &given, &Config::default()).unwrap_err();
    assert!(error.message().contains("not found"), "{}", error.message());
}

#[test]
fn canonical_texts_escape_quotes_backslashes_and_control_characters() {
    let mut evidence = bundle();
    evidence.task = "a\"b\\c/d\u{8}\t\n\u{c}\r\u{0}\u{1f}\u{7f}\u{e9}\u{1f600}".into();
    let text = evidence.canonical_json();
    let written = concat_pieces(&[
        r#","task":"a\"b\\c/d\b\t\n\f\r\u0000\u001f"#,
        "\u{7f}\u{e9}\u{1f600}",
        r#"","bindings":{"#,
    ]);
    assert!(text.contains(&written), "{text}");
}

fn concat_pieces(pieces: &[&str]) -> String {
    pieces.concat()
}

#[test]
fn a_manifest_admits_no_evidence_but_its_own() {
    let mut evidence = bundle();
    evidence.source_logical_operation_id = Some("op".into());
    evidence.expected_steps = vec![ReplayStepEvidence {
        kind: ReplayStepKind::Tool,
        name: "read_file".into(),
        content_digest: valid_digest("step"),
    }];
    let manifest = ReplayManifest::for_evidence(&evidence).unwrap();
    assert!(ReplayRequest::new(manifest.clone(), evidence.clone()).admitted().is_ok());
    for mutate in 0..9 {
        let mut other = evidence.clone();
        match mutate {
            0 => other.source_run_id = "other".into(),
            1 => other.source_logical_operation_id = None,
            2 => other.source_logical_operation_id = Some("op\",\"task\":\"task".into()),
            3 => other.task = "other".into(),
            4 => other.bindings.inputs_digest = valid_digest("other"),
            5 => other.expected_steps[0].name = String::new(),
            6 => other.expected_steps[0].kind = ReplayStepKind::Model,
            7 => other.expected_steps.clear(),
            8 => other.expected_terminal.summary_digest = valid_digest("other"),
            _ => unreachable!(),
        }
        let refused = ReplayRequest::new(manifest.clone(), other).admitted();
        assert!(refused.is_err(), "bundle {mutate}");
    }
}

#[test]
fn digests_tell_texts_tools_files_and_models_apart() {
    assert_eq!(text_digest("a\r\nb"), text_digest("a\nb"));
    assert_ne!(text_digest("a\rb"), text_digest("a\nb"));
    assert_ne!(text_digest("a b"), text_digest("a\nb"));

    let tool = |name: &str, description: &str, schema: &str| ToolDef {
        name: name.into(),
        description: description.into(),
        schema: schema.into(),
    };
    let catalog = vec![tool("read", "reads", "{}"), tool("write", "writes", "{}")];
    let digest = tool_catalog_digest(&catalog);
    let turned = vec![tool("write", "writes", "{}"), tool("read", "reads", "{}")];
    assert_eq!(tool_catalog_digest(&turned), digest);
    for changed in [
        tool("reads", "reads", "{}"),
        tool("read", "reads more", "{}"),
        tool("read", "reads", "[]"),
        tool("read\",\"reads", "", "{}"),
    ] {
        assert_ne!(tool_catalog_digest(&vec![changed, tool("write", "writes", "{}")]), digest);
    }

    assert_ne!(inventory(&[("a.txt", b"")]), empty_workspace_digest());
    assert_ne!(inventory(&[("a.txt", b"")]), inventory(&[("b.txt", b"")]));
    assert_ne!(inventory(&[("a.txt", b"1")]), inventory(&[("a.txt", b"2")]));

    let scripted = |script: &str| {
        let mut config = Config::default();
        config.model.adapter = "scripted".into();
        config.model.script_json = Some(script.into());
        model_digest(&config)
    };
    assert_eq!(scripted("[1,\r\n2]"), scripted("[1,\n2]"));
    assert_ne!(scripted("[1,2]"), scripted("[1,3]"));
    let over_http = |base: Option<&str>| {
        let mut config = Config::default();
        config.model.adapter = "http".into();
        config.model.base_url = base.map(|base| base.to_string());
        model_digest(&config)
    };
    assert_eq!(over_http(Some("https://one.example/v1//")), over_http(Some("https://one.example/v1")));
    assert_ne!(over_http(Some("https://one.example/v1")), over_http(Some("https://one.example/v2")));
    assert_eq!(over_http(None), over_http(Some("https://api.openai.com/v1/")));
}
