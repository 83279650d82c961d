//! Lifecycle events and what is kept of them.
use vstd::prelude::*;
use vstd::string::*;

use crate::text::decimal_text;
#[allow(unused_imports)]
use crate::text::decimal;

verus! {

/// What a run reports while it goes on.
#[derive(Debug, Clone)]
pub enum HarnessEvent {
    Status { status: String },
    ToolStart { name: String, args_json: String },
    ToolEnd { name: String, ok: bool, detail: String },
    ModelTurn { turn: u32, content_preview: String },
    Message { level: String, text: String },
    RunFinished { run_id: String, success: bool, summary: String },
    Prompt { prompt_id: String },
    ContextCompacted { before: usize, after: usize },
    TodosUpdated { summary: String, item_count: usize },
    /// A content turn: how many parts it has, and the kind and digest of each.
    ContentTurn { turn: u32, part_count: usize, kinds: Vec<String>, digests: Vec<String> },
}

/// `true` or `false`.
pub open spec fn bool_text(b: bool) -> Seq<char> {
    if b {
        "true"@
    } else {
        "false"@
    }
}

pub(crate) fn push_bool(s: &mut String, b: bool)
    ensures
        final(s)@ == old(s)@ + bool_text(b),
{
    if b {
        s.append("true");
    } else {
        s.append("false");
    }
}

pub(crate) fn push_number(s: &mut String, n: u64)
    ensures
        final(s)@ == old(s)@ + decimal(n as nat),
{
    let digits = decimal_text(n);
    s.append(digits.as_str());
}

impl HarnessEvent {
    /// The name of the event in a journal.
    pub open spec fn kind(self) -> Seq<char> {
        match self {
            HarnessEvent::Status { .. } => "status"@,
            HarnessEvent::ToolStart { .. } => "tool_start"@,
            HarnessEvent::ToolEnd { .. } => "tool_end"@,
            HarnessEvent::ModelTurn { .. } => "model_turn"@,
            HarnessEvent::Message { .. } => "message"@,
            HarnessEvent::RunFinished { .. } => "run_finished"@,
            HarnessEvent::Prompt { .. } => "prompt"@,
            HarnessEvent::ContextCompacted { .. } => "context_compacted"@,
            HarnessEvent::TodosUpdated { .. } => "todos_updated"@,
            HarnessEvent::ContentTurn { .. } => "content_turn"@,
        }
    }

    /// What a journal keeps of the event: names, numbers and outcomes, but no
    /// tool arguments, message texts or summaries.
    pub open spec fn kept(self) -> Seq<char> {
        match self {
            HarnessEvent::Status { status } => status@,
            HarnessEvent::ToolStart { name, .. } => name@,
            HarnessEvent::ToolEnd { name, ok, .. } => name@ + " ok="@ + bool_text(ok),
            HarnessEvent::ModelTurn { turn, .. } => "turn="@ + decimal(turn as nat),
            HarnessEvent::Message { level, .. } => "["@ + level@ + "]"@,
            HarnessEvent::RunFinished { run_id, success, .. } => "run="@ + run_id@ + " success="@
                + bool_text(success),
            HarnessEvent::Prompt { prompt_id } => prompt_id@,
            HarnessEvent::ContextCompacted { before, after } => "before="@ + decimal(before as nat)
                + " after="@ + decimal(after as nat),
            HarnessEvent::TodosUpdated { item_count, .. } => "items="@ + decimal(item_count as nat),
            HarnessEvent::ContentTurn { turn, part_count, .. } => "turn="@ + decimal(turn as nat)
                + " parts="@ + decimal(part_count as nat),
        }
    }

    /// The line that a live status shows of the event.
    pub open spec fn line(self) -> Seq<char> {
        match self {
            HarnessEvent::Status { status } => "status="@ + status@,
            HarnessEvent::ToolStart { name, .. } => "tool_start="@ + name@,
            HarnessEvent::ToolEnd { name, ok, .. } => "tool_end="@ + name@ + " ok="@ + bool_text(
                ok,
            ),
            HarnessEvent::ModelTurn { turn, .. } => "model_turn="@ + decimal(turn as nat),
            HarnessEvent::RunFinished { run_id, success, summary } => "run_finished id="@ + run_id@
                + " success="@ + bool_text(success) + " summary="@ + summary@,
            HarnessEvent::Prompt { prompt_id } => "prompt="@ + prompt_id@,
            HarnessEvent::ContextCompacted { before, after } => "compacted before="@ + decimal(
                before as nat,
            ) + " after="@ + decimal(after as nat),
            HarnessEvent::TodosUpdated { item_count, .. } => "todos item_count="@ + decimal(
                item_count as nat,
            ),
            HarnessEvent::Message { level, text } => "message["@ + level@ + "]="@ + text@,
            HarnessEvent::ContentTurn { turn, part_count, .. } => "content_turn="@ + decimal(
                turn as nat,
            ) + " parts="@ + decimal(part_count as nat),
        }
    }
}

/// The name of an event in a journal.
pub fn event_name(event: &HarnessEvent) -> (s: &'static str)
    ensures
        s@ == event.kind(),
{
    match event {
        HarnessEvent::Status { .. } => "status",
        HarnessEvent::ToolStart { .. } => "tool_start",
        HarnessEvent::ToolEnd { .. } => "tool_end",
        HarnessEvent::ModelTurn { .. } => "model_turn",
        HarnessEvent::Message { .. } => "message",
        HarnessEvent::RunFinished { .. } => "run_finished",
        HarnessEvent::Prompt { .. } => "prompt",
        HarnessEvent::ContextCompacted { .. } => "context_compacted",
        HarnessEvent::TodosUpdated { .. } => "todos_updated",
        HarnessEvent::ContentTurn { .. } => "content_turn",
    }
}

/// What a journal keeps of an event.
pub fn event_detail(event: &HarnessEvent) -> (r: Option<String>)
    ensures
        r is Some && r->0@ == event.kept(),
{
    let detail = match event {
        HarnessEvent::Status { status } => status.clone(),
        HarnessEvent::ToolStart { name, .. } => name.clone(),
        HarnessEvent::ToolEnd { name, ok, .. } => {
            let mut s = name.clone();
            s.append(" ok=");
            push_bool(&mut s, *ok);
            s
        },
        HarnessEvent::ModelTurn { turn, .. } => {
            let mut s = "turn=".to_owned();
            push_number(&mut s, *turn as u64);
            s
        },
        HarnessEvent::Message { level, .. } => {
            let mut s = "[".to_owned();
            s.append(level.as_str());
            s.append("]");
            s
        },
        HarnessEvent::RunFinished { run_id, success, .. } => {
            let mut s = "run=".to_owned();
            s.append(run_id.as_str());
            s.append(" success=");
            push_bool(&mut s, *success);
            s
        },
        HarnessEvent::Prompt { prompt_id } => prompt_id.clone(),
        HarnessEvent::ContextCompacted { before, after } => {
            let mut s = "before=".to_owned();
            push_number(&mut s, *before as u64);
            s.append(" after=");
            push_number(&mut s, *after as u64);
            s
        },
        HarnessEvent::TodosUpdated { item_count, .. } => {
            let mut s = "items=".to_owned();
            push_number(&mut s, *item_count as u64);
            s
        },
        HarnessEvent::ContentTurn { turn, part_count, .. } => {
            let mut s = "turn=".to_owned();
            push_number(&mut s, *turn as u64);
            s.append(" parts=");
            push_number(&mut s, *part_count as u64);
            s
        },
    };
    Some(detail)
}

/// The line that a live status shows of an event.
pub fn format_event(event: &HarnessEvent) -> (s: String)
    ensures
        s@ == event.line(),
{
    match event {
        HarnessEvent::Status { status } => {
            let mut s = "status=".to_owned();
            s.append(status.as_str());
            s
        },
        HarnessEvent::ToolStart { name, .. } => {
            let mut s = "tool_start=".to_owned();
            s.append(name.as_str());
            s
        },
        HarnessEvent::ToolEnd { name, ok, .. } => {
            let mut s = "tool_end=".to_owned();
            s.append(name.as_str());
            s.append(" ok=");
            push_bool(&mut s, *ok);
            s
        },
        HarnessEvent::ModelTurn { turn, .. } => {
            let mut s = "model_turn=".to_owned();
            push_number(&mut s, *turn as u64);
            s
        },
        HarnessEvent::RunFinished { run_id, success, summary } => {
            let mut s = "run_finished id=".to_owned();
            s.append(run_id.as_str());
            s.append(" success=");
            push_bool(&mut s, *success);
            s.append(" summary=");
            s.append(summary.as_str());
            s
        },
        HarnessEvent::Prompt { prompt_id } => {
            let mut s = "prompt=".to_owned();
            s.append(prompt_id.as_str());
            s
        },
        HarnessEvent::ContextCompacted { before, after } => {
            let mut s = "compacted before=".to_owned();
            push_number(&mut s, *before as u64);
            s.append(" after=");
            push_number(&mut s, *after as u64);
            s
        },
        HarnessEvent::TodosUpdated { item_count, .. } => {
            let mut s = "todos item_count=".to_owned();
            push_number(&mut s, *item_count as u64);
            s
        },
        HarnessEvent::Message { level, text } => {
            let mut s = "message[".to_owned();
            s.append(level.as_str());
            s.append("]=");
            s.append(text.as_str());
            s
        },
        HarnessEvent::ContentTurn { turn, part_count, .. } => {
            let mut s = "content_turn=".to_owned();
            push_number(&mut s, *turn as u64);
            s.append(" parts=");
            push_number(&mut s, *part_count as u64);
            s
        },
    }
}

/// What the journal keeps of a tool start does not depend on its arguments, of a
/// tool end not on its detail, of a message not on its text, and of a finished
/// run not on its summary.
pub proof fn journal_discloses_no_payload(
    name: String,
    args_a: String,
    args_b: String,
    ok: bool,
    run_id: String,
)
    ensures
        (HarnessEvent::ToolStart { name, args_json: args_a }).kept() == (HarnessEvent::ToolStart {
            name,
            args_json: args_b,
        }).kept(),
        (HarnessEvent::ToolEnd { name, ok, detail: args_a }).kept() == (HarnessEvent::ToolEnd {
            name,
            ok,
            detail: args_b,
        }).kept(),
        (HarnessEvent::Message { level: name, text: args_a }).kept() == (HarnessEvent::Message {
            level: name,
            text: args_b,
        }).kept(),
        (HarnessEvent::RunFinished { run_id, success: ok, summary: args_a }).kept() == (
        HarnessEvent::RunFinished { run_id, success: ok, summary: args_b }).kept(),
{
}

/// Events of different kinds have different names.
pub proof fn event_kinds_differ(a: HarnessEvent, b: HarnessEvent)
    requires
        a.kind() == b.kind(),
    ensures
        a is Status <==> b is Status,
        a is ToolStart <==> b is ToolStart,
        a is ToolEnd <==> b is ToolEnd,
        a is ModelTurn <==> b is ModelTurn,
        a is Message <==> b is Message,
        a is RunFinished <==> b is RunFinished,
        a is Prompt <==> b is Prompt,
        a is ContextCompacted <==> b is ContextCompacted,
        a is TodosUpdated <==> b is TodosUpdated,
        a is ContentTurn <==> b is ContentTurn,
{
    reveal_strlit("status");
    reveal_strlit("tool_start");
    reveal_strlit("tool_end");
    reveal_strlit("model_turn");
    reveal_strlit("message");
    reveal_strlit("run_finished");
    reveal_strlit("prompt");
    reveal_strlit("context_compacted");
    reveal_strlit("todos_updated");
    reveal_strlit("content_turn");
    assert("status"@.len() == 6
        && "tool_start"@.len() == 10
        && "tool_end"@.len() == 8
        && "model_turn"@.len() == 10
        && "message"@.len() == 7
        && "run_finished"@.len() == 12
        && "prompt"@.len() == 6
        && "context_compacted"@.len() == 17
        && "todos_updated"@.len() == 13
        && "content_turn"@.len() == 12);
    assert("status"@[0] != "prompt"@[0]);
    assert("tool_start"@[0] != "model_turn"@[0]);
    assert("run_finished"@[0] != "content_turn"@[0]);
}

/// The truth values have different texts.
pub proof fn truth_is_told_apart(a: bool, b: bool)
    ensures
        bool_text(a) == bool_text(b) ==> a == b,
{
    reveal_strlit("true");
    reveal_strlit("false");
    assert("true"@.len() != "false"@.len());
}

/// A journal keeps what an event is about: the name of a tool and whether it went well, and
/// the run that ended and how.
pub proof fn journal_keeps_what_happened(
    name: String,
    payload: String,
    ok: bool,
)
    ensures
        (HarnessEvent::Status { status: name }).kept() == name@,
        (HarnessEvent::ToolStart { name, args_json: payload }).kept() == name@,
        (HarnessEvent::ToolEnd { name, ok, detail: payload }).kept() == name@ + " ok="@ + bool_text(
            ok,
        ),
        (HarnessEvent::Prompt { prompt_id: name }).kept() == name@,
        (HarnessEvent::RunFinished { run_id: name, success: ok, summary: payload }).kept()
            == "run="@ + name@ + " success="@ + bool_text(ok),
{
}

} // verus!
