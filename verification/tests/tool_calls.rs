use shikigami::config::{Config, HookSettings};
use shikigami::events::HarnessEvent;
use shikigami::model::{ChatMessage, ToolCall};
use shikigami::run::tool_batch::{
    advance, already_answered, batch_outcome, hooks_need_serial, park_for_approval, plan_batch,
    stage_results, staged_reports, tool_result_answers_call, BatchContext, BatchItem, BatchPlan,
    CallSignal, CallStage, CallTraits, ToolBatchOutcome, ToolOutput,
};
use shikigami::run::tool_reports::{
    advance_park, advance_settle, begin_park, order_outcomes, parked_call, refused_concurrently,
    report_of_prefix, started_calls, ParkPlan, ParkStage, ReportHook, SettleStage,
};
use shikigami::run::{
    conversation_tool_call_id, stable_tool_call_id, GovernanceError, ParkKind, RunError,
};

fn call(id: &str, name: &str) -> ToolCall {
    ToolCall { id: id.into(), name: name.into(), args_json: "{}".into() }
}

fn ids(v: &[&str]) -> Vec<String> {
    v.iter().map(|s| s.to_string()).collect()
}

#[test]
fn stable_ids_qualify_model_ids_and_synthesize_missing_ones() {
    let named = call("call-1", "read_file");
    let anonymous = call("", "read_file");
    assert_eq!(stable_tool_call_id(&named, 2, 3), "tool-2-3-call-1");
    assert_eq!(stable_tool_call_id(&anonymous, 2, 3), "tool-2-3");
    assert_eq!(conversation_tool_call_id(&named, 2, 3), "call-1");
    assert_eq!(conversation_tool_call_id(&anonymous, 2, 3), "tool-2-3");
}

#[test]
fn tool_result_match_accepts_synthesized_and_legacy_empty_ids() {
    let first = call("", "read_file");
    let second = call("", "write_file");
    let batch = vec![first.clone(), second.clone()];
    assert!(tool_result_answers_call(&ids(&[""]), &first, 1, 0, &batch));
    assert!(!tool_result_answers_call(&ids(&[""]), &second, 1, 1, &batch));
    assert!(tool_result_answers_call(&ids(&["tool-1-1"]), &second, 1, 1, &batch));
    assert!(tool_result_answers_call(
        &ids(&["read-1"]),
        &call("read-1", "read_file"),
        1,
        0,
        &vec![]
    ));
    let reused = call("write-1", "write_file");
    let reused_batch = vec![reused.clone(), reused.clone()];
    assert!(tool_result_answers_call(&ids(&["write-1"]), &reused, 1, 0, &reused_batch));
    assert!(!tool_result_answers_call(&ids(&["write-1"]), &reused, 1, 1, &reused_batch));
    assert!(tool_result_answers_call(
        &ids(&["write-1", "write-1"]),
        &reused,
        1,
        1,
        &reused_batch
    ));
}

fn context() -> BatchContext {
    BatchContext { turn: 1, content: false, replay: false, concurrency: 4, serial_hooks: false }
}

fn reads() -> CallTraits {
    CallTraits { parallel_safe: true, replay_denied: false, checkpointed: false }
}

#[test]
fn only_reads_without_serial_hooks_run_in_parallel() {
    let calls = vec![call("a", "read_file"), call("b", "read_file")];
    let traits = vec![reads(), reads()];
    assert!(matches!(plan_batch(&calls, &traits, &context()), BatchPlan::Parallel));
    let serial = BatchContext { serial_hooks: true, ..context() };
    assert!(matches!(plan_batch(&calls, &traits, &serial), BatchPlan::Serial));
    let single = BatchContext { concurrency: 1, ..context() };
    assert!(matches!(plan_batch(&calls, &traits, &single), BatchPlan::Serial));
    let one = vec![call("a", "read_file")];
    assert!(matches!(plan_batch(&one, &vec![reads()], &context()), BatchPlan::Serial));
    let checkpointed = CallTraits { checkpointed: true, ..reads() };
    assert!(matches!(
        plan_batch(&calls, &vec![reads(), checkpointed], &context()),
        BatchPlan::Serial
    ));
}

#[test]
fn report_and_escalate_stand_alone() {
    let calls = vec![call("a", "read_file"), call("", "report")];
    let traits = vec![reads(), reads()];
    match plan_batch(&calls, &traits, &context()) {
        BatchPlan::Rejected(messages) => {
            assert_eq!(messages.len(), 2);
            assert_eq!(messages[0].tool_call_id, "a");
            assert_eq!(messages[1].tool_call_id, "");
            assert_eq!(
                messages[1].content,
                "tool batch rejected: report/escalate must be the only call"
            );
        }
        _ => panic!("the batch is rejected"),
    }
    let content = BatchContext { content: true, ..context() };
    match plan_batch(&calls, &traits, &content) {
        BatchPlan::Rejected(messages) => {
            assert_eq!(messages[1].tool_call_id, "tool-1-1");
            assert_eq!(messages[1].content, "");
        }
        _ => panic!("the batch is rejected"),
    }
}

#[test]
fn content_runs_and_replays_refuse_what_they_cannot_do() {
    let content = BatchContext { content: true, ..context() };
    match plan_batch(&vec![call("a", "escalate")], &vec![reads()], &content) {
        BatchPlan::Denied(m) => assert_eq!(m, "bounded content runs do not support parking"),
        _ => panic!("parking is refused"),
    }
    let replay = BatchContext { replay: true, ..context() };
    let denied = CallTraits { replay_denied: true, ..reads() };
    match plan_batch(
        &vec![call("a", "read_file"), call("b", "bash")],
        &vec![reads(), denied],
        &replay,
    ) {
        BatchPlan::Denied(m) => {
            assert_eq!(m, "replay forbids effect-capable or unknown tool `bash`")
        }
        _ => panic!("the tool is refused"),
    }
}

#[test]
fn a_tool_runs_only_once_it_was_authorized() {
    let mut stage = CallStage::Bounds;
    let steps = vec![
        (CallSignal::WithinBounds, CallStage::Hook),
        (CallSignal::HookPassed, CallStage::Stage),
        (CallSignal::Staged, CallStage::Authorize),
        (CallSignal::Authorized { parked: false }, CallStage::Start),
        (CallSignal::Started, CallStage::Execute),
        (CallSignal::Executed, CallStage::Record),
    ];
    for (signal, expected) in steps {
        stage = advance(stage, true, signal);
        assert_eq!(stage, expected);
    }
    assert_eq!(
        advance(CallStage::Authorize, false, CallSignal::NeedsApproval),
        CallStage::Park
    );
    assert_eq!(
        advance(CallStage::Authorize, false, CallSignal::Denied { parked: true }),
        CallStage::ClearThenFail
    );
    assert_eq!(
        advance(CallStage::Authorize, false, CallSignal::AuthorizationFailed { parked: true }),
        CallStage::Abort
    );
    assert_eq!(
        advance(CallStage::Hook, false, CallSignal::HookFailed { parked: false }),
        CallStage::Fail
    );
}

fn item(index: usize, id: &str, name: &str, outcome: Result<ToolOutput, String>) -> BatchItem {
    BatchItem { index, call: call(id, name), outcome, projected: "sha256:projected".into() }
}

fn mixed_batch() -> Vec<BatchItem> {
    vec![
        item(0, "a", "read_file", Ok(ToolOutput::Text("hello".into()))),
        item(1, "", "bash", Err("permission denied".into())),
        item(2, "c", "report", Ok(ToolOutput::Report { summary: "all done".into(), success: true })),
    ]
}

#[test]
fn results_are_staged_in_order() {
    let mut messages: Vec<ChatMessage> = Vec::new();
    stage_results(&mut messages, &mixed_batch(), 2, false);
    assert_eq!(messages.len(), 3);
    assert_eq!(messages[0].content, "hello");
    assert_eq!(messages[0].tool_call_id, "a");
    assert_eq!(messages[1].content, "permission denied");
    assert_eq!(messages[1].tool_call_id, "tool-2-1");
    assert_eq!(messages[2].content, "report: all done");
    let mut hidden: Vec<ChatMessage> = Vec::new();
    stage_results(&mut hidden, &mixed_batch(), 2, true);
    assert!(hidden.iter().all(|m| m.content.is_empty()));
}

#[test]
fn report_intents_carry_stable_ids() {
    let reports = staged_reports(&mixed_batch(), 2, false, true);
    assert_eq!(reports.len(), 3);
    assert_eq!(reports[0].call_id, "tool-2-0-a");
    assert!(reports[0].ok);
    assert_eq!(reports[1].call_id, "tool-2-1");
    assert!(!reports[1].ok);
    assert_eq!(reports[2].detail, "all done");
    let content = staged_reports(&mixed_batch(), 2, true, true);
    assert_eq!(content[0].detail, "sha256:projected");
}

#[test]
fn the_last_report_completes_and_the_first_park_parks() {
    match batch_outcome(&mixed_batch(), 2) {
        ToolBatchOutcome::Completed { summary, success } => {
            assert_eq!(summary, "all done");
            assert!(success);
        }
        _ => panic!("the run is complete"),
    }
    let parked = vec![item(
        0,
        "",
        "escalate",
        Ok(ToolOutput::Park { reason: "unsure".into(), question: "which one?".into() }),
    )];
    match batch_outcome(&parked, 3) {
        ToolBatchOutcome::Parked { info, summary } => {
            assert_eq!(summary, "unsure");
            assert_eq!(info.question, "which one?");
            assert_eq!(info.tool_call_id, "tool-3-0");
            assert_eq!(info.kind, ParkKind::Escalate);
        }
        _ => panic!("the run is parked"),
    }
    assert!(matches!(batch_outcome(&vec![], 1), ToolBatchOutcome::Continue));
}

#[test]
fn an_approval_needs_an_id() {
    match park_for_approval(&call("a", "bash"), 1, 0, "appr-1", "needs a look") {
        Ok(ToolBatchOutcome::Parked { info, summary }) => {
            assert_eq!(summary, "needs a look");
            assert_eq!(info.question, "approval appr-1 is pending");
            assert_eq!(info.kind, ParkKind::Approval);
            assert_eq!(info.approval_id, Some("appr-1".to_string()));
        }
        _ => panic!("the run is parked"),
    }
    match park_for_approval(&call("a", "bash"), 1, 0, "  ", "needs a look") {
        Err(RunError::Governance(GovernanceError::Message(m))) => {
            assert_eq!(m, "require_approval is missing approval_id")
        }
        _ => panic!("an approval without an id is refused"),
    }
}

#[test]
fn only_unanswered_calls_are_started() {
    let calls = vec![call("a", "read_file"), call("b", "bash")];
    let messages = vec![
        ChatMessage {
            role: "assistant".into(),
            content: String::new(),
            tool_call_id: String::new(),
            tool_calls: calls.clone(),
        },
        ChatMessage {
            role: "tool".into(),
            content: "x".into(),
            tool_call_id: "a".into(),
            tool_calls: vec![],
        },
    ];
    assert!(already_answered(&messages, 1, &calls[0], 0));
    let shown = vec!["{}".to_string(), "{\"command\":\"ls\"}".to_string()];
    let started = started_calls(&messages, &calls, &shown, 1);
    assert_eq!(started.len(), 1);
    assert_eq!(started[0].index, 1);
    assert_eq!(started[0].call_id, "tool-1-1-b");
    assert!(matches!(
        &started[0].event,
        HarnessEvent::ToolStart { name, args_json }
            if name == "bash" && args_json == "{\"command\":\"ls\"}"
    ));
}

#[test]
fn concurrent_outcomes_return_to_call_order() {
    let mut batch = mixed_batch();
    batch.swap(0, 2);
    batch.swap(0, 1);
    order_outcomes(&mut batch);
    let order: Vec<usize> = batch.iter().map(|b| b.index).collect();
    assert_eq!(order, vec![0, 1, 2]);
    assert_eq!(batch[0].call.name, "read_file");
    assert_eq!(refused_concurrently(true, "wait"), "parallel batch cannot park: wait");
    assert_eq!(refused_concurrently(false, "no"), "no");
}

#[test]
fn reported_calls_tell_their_end() {
    let long = "x".repeat(600);
    let todo = item(0, "t", "todo_write", Ok(ToolOutput::Text(long.clone())));
    let r = todo.report(4, false, 7);
    assert_eq!(r.call_id, "tool-4-0-t");
    assert_eq!(r.detail, long);
    assert_eq!(r.hook, ReportHook::PostTool);
    assert_eq!(r.events.len(), 2);
    assert!(matches!(
        &r.events[0],
        HarnessEvent::TodosUpdated { summary, item_count }
            if summary.len() == 500 && *item_count == 7
    ));
    assert!(matches!(
        &r.events[1],
        HarnessEvent::ToolEnd { name, ok, detail }
            if name == "todo_write" && *ok && detail.len() == 500
    ));
    let batch = mixed_batch();
    let report = batch[2].report(4, false, 0);
    assert_eq!(report.name, "report");
    assert_eq!(report.hook, ReportHook::Skip);
    let failed = item(0, "f", "bash", Err(long.clone())).report(4, false, 0);
    assert!(matches!(
        &failed.events[0],
        HarnessEvent::ToolEnd { ok, detail, .. } if !*ok && detail.len() == 600
    ));
    let intents = staged_reports(&batch, 4, false, false);
    let prefix = report_of_prefix(&intents[0], 0);
    assert_eq!(prefix.name, "read_file");
    assert_eq!(prefix.events.len(), 1);
}

fn settle(batch: &Vec<BatchItem>, content: bool) -> Vec<SettleStage> {
    let mut stage = SettleStage::Append;
    let mut seen = vec![stage];
    while !matches!(stage, SettleStage::Settled | SettleStage::Parked | SettleStage::Broken) {
        stage = advance_settle(stage, batch, content, true);
        seen.push(stage);
    }
    seen
}

#[test]
fn a_batch_is_saved_before_it_is_reported() {
    let seen = settle(&mixed_batch(), true);
    assert_eq!(
        seen,
        vec![
            SettleStage::Append,
            SettleStage::Complete,
            SettleStage::StageReports,
            SettleStage::ClearExecutions,
            SettleStage::MarkTerminal,
            SettleStage::Save,
            SettleStage::Report { index: 0 },
            SettleStage::SaveReported { index: 0 },
            SettleStage::Report { index: 1 },
            SettleStage::SaveReported { index: 1 },
            SettleStage::Report { index: 2 },
            SettleStage::SaveReported { index: 2 },
            SettleStage::SaveLast,
            SettleStage::Settled,
        ]
    );
    assert!(!settle(&mixed_batch(), false).contains(&SettleStage::MarkTerminal));
    assert_eq!(
        advance_settle(SettleStage::Save, &mixed_batch(), false, false),
        SettleStage::Broken
    );
}

#[test]
fn a_park_is_saved_even_if_it_was_not_reported() {
    let parked = vec![item(
        0,
        "p",
        "escalate",
        Ok(ToolOutput::Park { reason: "unsure".into(), question: "?".into() }),
    )];
    assert_eq!(parked[0].report(1, false, 0).detail, "parked: unsure");
    assert_eq!(parked[0].report(1, false, 0).hook, ReportHook::OnPark);
    let saved = advance_settle(SettleStage::Report { index: 0 }, &parked, false, false);
    assert_eq!(saved, SettleStage::SavePark { index: 0, reported: false });
    assert_eq!(advance_settle(saved, &parked, false, true), SettleStage::Broken);
    let seen = settle(&parked, false);
    assert_eq!(seen.last(), Some(&SettleStage::Parked));
}

fn park_stages(plan: ParkPlan) -> Vec<ParkStage> {
    let mut stage = begin_park(&plan);
    let mut seen = vec![stage];
    while !matches!(stage, ParkStage::Parked | ParkStage::Broken) {
        stage = advance_park(&plan, stage, true);
        seen.push(stage);
    }
    seen
}

#[test]
fn a_park_for_approval_is_saved_before_anything_is_reported() {
    assert_eq!(
        park_stages(ParkPlan { done: 3, reports: 2 }),
        vec![
            ParkStage::Append,
            ParkStage::Complete,
            ParkStage::StageReports,
            ParkStage::ClearExecutions,
            ParkStage::Restage,
            ParkStage::Form,
            ParkStage::Record,
            ParkStage::Save,
            ParkStage::Report { index: 0 },
            ParkStage::Report { index: 1 },
            ParkStage::Announce,
            ParkStage::Parked,
        ]
    );
    assert_eq!(
        park_stages(ParkPlan { done: 0, reports: 0 }),
        vec![
            ParkStage::Form,
            ParkStage::Record,
            ParkStage::Save,
            ParkStage::Announce,
            ParkStage::Parked,
        ]
    );
    let silent = park_stages(ParkPlan { done: 1, reports: 0 });
    assert_eq!(silent[0], ParkStage::Append);
    assert!(!silent.contains(&ParkStage::Restage));
    let plan = ParkPlan { done: 1, reports: 1 };
    for stage in [
        ParkStage::Append,
        ParkStage::Form,
        ParkStage::Record,
        ParkStage::Save,
        ParkStage::Report { index: 0 },
    ] {
        assert_eq!(advance_park(&plan, stage, false), ParkStage::Broken);
    }
    assert_eq!(advance_park(&plan, ParkStage::Announce, false), ParkStage::Parked);
}

#[test]
fn a_park_for_approval_is_announced_under_the_name_of_its_call() {
    let told = parked_call(&call("w", "write_file"), 4, 1, "needs a human");
    assert_eq!(told.call_id, "tool-4-1-w");
    assert_eq!(told.name, "write_file");
    assert!(!told.ok);
    assert_eq!(told.detail, "parked: needs a human");
    assert_eq!(told.hook, ReportHook::OnPark);
    assert_eq!(told.events.len(), 1);
    assert!(matches!(
        &told.events[0],
        HarnessEvent::ToolEnd { name, ok, detail }
            if name == "write_file" && !*ok && detail == "parked: needs a human"
    ));
}

#[test]
fn hooks_on_single_calls_make_a_batch_serial() {
    let with = |events: &[&str]| {
        let mut config = Config::default();
        for event in events {
            config
                .hooks
                .push(HookSettings { event: event.to_string(), command: "true".into() });
        }
        hooks_need_serial(&config)
    };
    assert!(!with(&[]));
    assert!(!with(&["pre_run", "post_run"]));
    assert!(with(&["pre_run", "pre_tool"]));
    assert!(with(&["post_tool"]));
    assert!(with(&["on_park", "pre_run"]));
}
