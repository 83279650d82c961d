use shikigami::content::{
    ContentDisclosureState, ContentMessageV1, ContentPartDescriptor, ContentPartKind,
    ContentProvenanceV1,
};
use shikigami::digest::digest_label;
use shikigami::events::HarnessEvent;
use shikigami::model::{ChatMessage, ModelTurn, TokenUsage, ToolCall};
use shikigami::run::model_turn::{
    advance_turn, content_turn_event, staged_model_turn, DurableModelTurn, PlanAction, PlanLimits,
    TurnStage,
};
use shikigami::run::session::{
    has_staged_content_model_turn, reserve_part_id, terminal_summary_binding,
    tool_arguments_disclose_reference,
};
use shikigami::run::{compact_messages, Bounds, RunError};

fn message(role: &str, content: &str, tool_call_id: &str, tool_calls: Vec<ToolCall>) -> ChatMessage {
    ChatMessage {
        role: role.into(),
        content: content.into(),
        tool_call_id: tool_call_id.into(),
        tool_calls,
    }
}

fn call(id: &str, name: &str, args_json: &str) -> ToolCall {
    ToolCall { id: id.into(), name: name.into(), args_json: args_json.into() }
}

fn twenty_messages() -> Vec<ChatMessage> {
    (0..20)
        .map(|i| {
            message(
                if i == 0 { "user" } else { "assistant" },
                &format!("m{i}"),
                "",
                vec![],
            )
        })
        .collect()
}

#[test]
fn run_compact_messages_shrinks_list() {
    let mut msgs = twenty_messages();
    let (before, after) = compact_messages(&mut msgs, 10, 4).unwrap();
    assert_eq!(before, 20);
    assert!(after < before);
    assert_eq!(msgs[0].content, "m0");
    assert!(msgs[1].content.contains("compacted"));
    assert_eq!(msgs.last().unwrap().content, "m19");
}

#[test]
fn mod_compact_messages_shrinks_list() {
    let mut msgs = twenty_messages();
    let (before, after) = compact_messages(&mut msgs, 10, 4).unwrap();
    assert_eq!(before, 20);
    assert!(after < before);
    assert_eq!(msgs[0].content, "m0");
    assert!(msgs[1].content.contains("compacted"));
    assert_eq!(msgs.last().unwrap().content, "m19");
}

#[test]
fn model_turn_compact_messages_shrinks_list() {
    let mut msgs = twenty_messages();
    let (before, after) = compact_messages(&mut msgs, 10, 4).unwrap();
    assert_eq!(before, 20);
    assert!(after < before);
    assert_eq!(msgs[0].content, "m0");
    assert!(msgs[1].content.contains("compacted"));
    assert_eq!(msgs.last().unwrap().content, "m19");
}

#[test]
fn compaction_keeps_the_head_and_the_tail() {
    let mut msgs = twenty_messages();
    assert_eq!(compact_messages(&mut msgs, 10, 4), Some((20, 6)));
    assert_eq!(
        msgs[1].content,
        "[context compacted: 15 earlier messages omitted; continue the original task]"
    );
    assert_eq!(msgs[2].content, "m16");
    let mut short = twenty_messages();
    short.truncate(10);
    assert_eq!(compact_messages(&mut short, 10, 4), None);
    assert_eq!(short.len(), 10);
}

#[test]
fn resume_reuses_a_checkpointed_assistant_turn_without_a_plane_model_id() {
    let messages = vec![message(
        "assistant",
        "",
        "",
        vec![call("call-1", "write_file", r#"{"path":"once.txt","content":"once"}"#)],
    )];

    let turn = staged_model_turn(true, &messages, 1).unwrap();
    assert_eq!(turn.tool_calls, messages[0].tool_calls);
    assert!(staged_model_turn(false, &messages, 1).is_none());
}

#[test]
fn staged_replay_reconstructs_the_durable_assistant_turn() {
    let messages = vec![message(
        "assistant",
        "continue",
        "",
        vec![call("call-1", "read_file", r#"{"path":"README.md"}"#)],
    )];

    let turn = staged_model_turn(true, &messages, 1).unwrap();

    assert_eq!(turn.content, "continue");
    assert_eq!(turn.tool_calls, messages[0].tool_calls);
    assert_eq!(turn.usage, None);
}

#[test]
fn unfinished_batch_after_legacy_empty_ids_restages_remaining_calls() {
    let messages = vec![
        message(
            "assistant",
            "",
            "",
            vec![
                call("", "read_file", r#"{"path":"missing.txt"}"#),
                call("", "write_file", r#"{"path":"hello.txt","content":"approved"}"#),
            ],
        ),
        message("tool", "missing", "", vec![]),
    ];
    let turn = staged_model_turn(true, &messages, 1).unwrap();
    assert_eq!(turn.tool_calls.len(), 2);
    assert_eq!(turn.tool_calls[1].name, "write_file");
}

#[test]
fn completed_empty_id_batch_does_not_restage() {
    let messages = vec![
        message(
            "assistant",
            "",
            "",
            vec![call("", "read_file", r#"{"path":"missing.txt"}"#)],
        ),
        message("tool", "missing", "", vec![]),
    ];
    assert!(staged_model_turn(true, &messages, 1).is_none());
}

#[test]
fn reused_provider_ids_do_not_mark_later_calls_answered() {
    let messages = vec![
        message(
            "assistant",
            "",
            "",
            vec![
                call("write-1", "read_file", r#"{"path":"missing.txt"}"#),
                call("write-1", "write_file", r#"{"path":"hello.txt","content":"approved"}"#),
            ],
        ),
        message("tool", "missing", "write-1", vec![]),
    ];
    let turn = staged_model_turn(true, &messages, 1).unwrap();
    assert_eq!(turn.tool_calls.len(), 2);
    assert_eq!(turn.tool_calls[1].name, "write_file");
}

#[test]
fn unfinished_batch_after_prefix_results_restages_remaining_calls() {
    let messages = vec![
        message(
            "assistant",
            "",
            "",
            vec![
                call("read-1", "read_file", r#"{"path":"missing.txt"}"#),
                call("write-1", "write_file", r#"{"path":"hello.txt","content":"approved"}"#),
            ],
        ),
        message("tool", "missing", "read-1", vec![]),
    ];
    let turn = staged_model_turn(true, &messages, 1).unwrap();
    assert_eq!(turn.tool_calls.len(), 2);
    assert_eq!(turn.tool_calls[1].id, "write-1");
}

#[test]
fn last_assistant_without_tools_is_restaged() {
    let messages = vec![message("assistant", "done", "", vec![])];
    let turn = staged_model_turn(true, &messages, 1).unwrap();
    assert_eq!(turn.content, "done");
    assert!(turn.tool_calls.is_empty());
}

#[test]
fn post_tool_checkpoint_continues_with_a_fresh_model_turn() {
    let messages = vec![message("tool", "result", "call-1", vec![])];

    assert!(staged_model_turn(true, &messages, 1).is_none());
}

fn descriptor(part_id: &str, kind: ContentPartKind, payload: &[u8]) -> ContentPartDescriptor {
    ContentPartDescriptor {
        part_id: part_id.into(),
        kind,
        media_type: if kind == ContentPartKind::Text { "text/plain" } else { "image/png" }.into(),
        byte_length: payload.len() as u64,
        sha256_digest: digest_label(payload),
        reference: format!("memory:{part_id}"),
        provenance: ContentProvenanceV1 {
            source: "test".into(),
            source_id: part_id.into(),
            source_version: "1".into(),
            observed_at_ms: 1,
        },
        disclosure_state: ContentDisclosureState::Accepted,
        disclosure_reason: String::new(),
    }
}

#[test]
fn terminal_summary_selects_matching_text_before_later_output_parts() {
    let messages = vec![ContentMessageV1 {
        role: "assistant".into(),
        parts: vec![
            descriptor("summary", ContentPartKind::Text, b"finished"),
            descriptor("image", ContentPartKind::Image, b"png"),
        ],
        tool_call_id: String::new(),
        tool_calls: Vec::new(),
    }];

    let binding = terminal_summary_binding(&messages, "finished").unwrap();

    assert_eq!(binding.0, "summary");
    assert_eq!(binding.1, digest_label(b"finished"));
    assert!(terminal_summary_binding(&messages, "unfinished").is_none());
}

#[test]
fn a_content_turn_is_told_with_kinds_and_digests() {
    let message = ContentMessageV1 {
        role: "assistant".into(),
        parts: vec![
            descriptor("a", ContentPartKind::Text, b"finished"),
            descriptor("b", ContentPartKind::Image, b"png"),
            descriptor("c", ContentPartKind::Audio, b"wav"),
            descriptor("d", ContentPartKind::Document, b"pdf"),
        ],
        tool_call_id: String::new(),
        tool_calls: Vec::new(),
    };
    match content_turn_event(5, &message) {
        HarnessEvent::ContentTurn { turn, part_count, kinds, digests } => {
            assert_eq!(turn, 5);
            assert_eq!(part_count, 4);
            assert_eq!(kinds, vec!["text", "image", "audio", "document"]);
            assert_eq!(digests[0], digest_label(b"finished"));
            assert_eq!(digests[3], digest_label(b"pdf"));
        }
        _ => panic!("a content turn is told"),
    }
}

#[test]
fn reference_disclosure_check_uses_complete_json_string_tokens() {
    assert!(!tool_arguments_disclose_reference(
        r#"{"path":"result.txt"}"#,
        &vec!["memory:a".to_string()]
    ));
    assert!(tool_arguments_disclose_reference(
        r#"{"reference":"memory:part-1"}"#,
        &vec!["memory:part-1".to_string()]
    ));
    assert!(tool_arguments_disclose_reference(
        r#"{"command":"open memory:part-1"}"#,
        &vec!["memory:part-1".to_string()]
    ));
    assert!(tool_arguments_disclose_reference(
        r#"{"command":"open(memory:part-1)"}"#,
        &vec!["memory:part-1".to_string()]
    ));
    assert!(tool_arguments_disclose_reference(
        r#"{"value":"prefix-memory:part-1"}"#,
        &vec!["memory:part-1".to_string()]
    ));
}

#[test]
fn references_hidden_by_json_escapes_are_found() {
    assert!(tool_arguments_disclose_reference(
        "{\"path\":\"\\u006demory:part-1\"}",
        &vec!["memory:part-1".to_string()]
    ));
    assert!(tool_arguments_disclose_reference(
        r#"{"list":[{"deep":"memory:part-1"}]}"#,
        &vec!["memory:part-1".to_string()]
    ));
}

#[test]
fn initial_assistant_message_is_not_a_staged_model_turn() {
    let assistant = ContentMessageV1 {
        role: "assistant".into(),
        parts: Vec::new(),
        tool_call_id: String::new(),
        tool_calls: Vec::new(),
    };
    assert!(!has_staged_content_model_turn(0, 1, &vec![assistant.clone()]));
    assert!(!has_staged_content_model_turn(1, 1, &vec![assistant.clone()]));
    assert!(has_staged_content_model_turn(1, 1, &vec![assistant.clone(), assistant]));
}

#[test]
fn reserved_part_ids_are_fresh() {
    let mut used = vec!["summary".to_string(), "summary-1".to_string()];
    let id = reserve_part_id(&mut used, "summary");
    assert!(id != "summary" && id != "summary-1");
    assert!(used.contains(&id));
    let other = reserve_part_id(&mut used, "other");
    assert_eq!(other, "other");
}

fn open_bounds() -> Bounds {
    Bounds { heartbeat_failure: None, cancelled: false, elapsed_ms: 0, timeout_ms: None }
}

#[test]
fn a_turn_begins_within_its_limits() {
    let limits =
        PlanLimits { max_turns: 2, compact_after_messages: Some(10), compact_keep_tail: 4 };
    let mut messages = twenty_messages();
    let mut plan = DurableModelTurn::new(false, &messages, 0, None, TokenUsage {
        input_tokens: 0,
        output_tokens: 0,
    });
    let start = plan.begin(&mut messages, 0, false, &limits, &open_bounds()).unwrap();
    assert_eq!(start.compaction, Some((20, 6)));
    assert!(matches!(start.action, PlanAction::Plan));
    let turn = ModelTurn {
        content: "hello".into(),
        tool_calls: vec![],
        usage: Some(TokenUsage { input_tokens: 3, output_tokens: 4 }),
    };
    let (turns, _event) = plan.accept(&mut messages, 0, &turn);
    assert_eq!(turns, 1);
    assert_eq!(plan.usage.input_tokens, 3);
    assert_eq!(messages.last().unwrap().content, "hello");
    let over = plan.begin(&mut messages, 2, false, &limits, &open_bounds());
    assert!(matches!(over, Err(RunError::MaxTurns(2))));
    let cancelled = Bounds { cancelled: true, ..open_bounds() };
    assert!(matches!(
        plan.begin(&mut messages, 1, false, &limits, &cancelled),
        Err(RunError::Cancelled)
    ));
    let late = Bounds { elapsed_ms: 5, timeout_ms: Some(5), ..open_bounds() };
    assert!(matches!(
        plan.begin(&mut messages, 1, false, &limits, &late),
        Err(RunError::TimedOut(_))
    ));
}

#[test]
fn a_fresh_turn_is_saved_before_it_is_done() {
    let mut stage = TurnStage::Begin;
    let mut seen = vec![stage];
    while stage != TurnStage::Done && stage != TurnStage::Failed {
        stage = advance_turn(stage, false, true);
        seen.push(stage);
    }
    assert_eq!(stage, TurnStage::Done);
    assert!(seen.contains(&TurnStage::Save));
    assert_eq!(advance_turn(TurnStage::Save, false, false), TurnStage::Failed);
}

#[test]
fn a_content_turn_counts_before_it_is_kept() {
    let start = TokenUsage { input_tokens: 1, output_tokens: 2 };
    let mut planner = DurableModelTurn::new(false, &vec![], 0, None, start);
    let used = TokenUsage { input_tokens: 10, output_tokens: 20 };
    assert_eq!(planner.count_content(4, Some(used)), 5);
    assert_eq!(planner.usage, TokenUsage { input_tokens: 11, output_tokens: 22 });
    let mut messages = vec![];
    planner.accept_content(&mut messages, &vec![call("a", "open", "{}")]);
    assert_eq!(messages.len(), 1);
    assert_eq!(messages[0].role, "assistant");
    assert_eq!(messages[0].content, "");
    assert_eq!(messages[0].tool_calls[0].name, "open");
}
