//! Durable planning and reporting of one model-produced turn.
use vstd::prelude::*;
use vstd::string::*;

use crate::content::{
    duplicate_parts, ContentDisclosureState, ContentMessageV1, ContentModelTurnV1,
    ContentPartDescriptor, ContentPartKind,
};
#[allow(unused_imports)]
use crate::content::{content_views, part_views, ContentMessageView, PartView};
use crate::events::HarnessEvent;
use crate::model::{duplicate_calls, ChatMessage, ModelTurn, TokenUsage, ToolCall};
#[allow(unused_imports)]
use crate::model::{
    call_views, message_views, saturating_sum, ChatMessageView, ModelTurnView, ToolCallView,
};
use crate::text::{same, take_chars};
#[allow(unused_imports)]
use crate::text::{first_chars, texts};

use super::tool_batch::{collect_result_ids, find_last_of_role, tool_result_answers_call};
#[allow(unused_imports)]
use super::tool_batch::{
    answers, completed_batch_is_answered, ids_of_results, last_of_role, result_ids,
};
use super::{check_bounds, compact_messages, Bounds, RunError};
#[allow(unused_imports)]
use super::{compacted, conversation_id};

verus! {

// ---------------------------------------------------------------------------
// Staged turns
// ---------------------------------------------------------------------------

/// Whether some call from `i` on has no result yet.
pub open spec fn unanswered_from(
    results: Seq<Seq<char>>,
    calls: Seq<ToolCallView>,
    turn: u32,
    i: int,
) -> bool {
    exists|k: int|
        i <= k < calls.len() && !answers(results, #[trigger] calls[k], turn, k as nat, calls)
}

/// The index of the assistant message whose turn is still to be carried out: the
/// last message, or the last assistant message with a call that has no result.
pub open spec fn staged_index(m: Seq<ChatMessageView>, turn: u32) -> Option<int> {
    let a = last_of_role(m, "assistant"@, m.len() as int);
    if a < 0 {
        None
    } else if a == m.len() - 1 || unanswered_from(
        result_ids(m, a + 1),
        m[a].tool_calls,
        turn,
        0,
    ) {
        Some(a)
    } else {
        None
    }
}

/// The turn of an assistant message.
pub open spec fn turn_of(m: ChatMessageView) -> ModelTurnView {
    ModelTurnView { content: m.content, tool_calls: m.tool_calls, usage: None }
}

fn any_unanswered(results: &Vec<String>, calls: &Vec<ToolCall>, turn: u32) -> (r: bool)
    ensures
        r == unanswered_from(texts(results@), call_views(calls@), turn, 0),
{
    let ghost v = call_views(calls@);
    let mut i: usize = 0;
    while i < calls.len()
        invariant
            i <= calls@.len(),
            v == call_views(calls@),
            forall|k: int|
                0 <= k < i ==> answers(texts(results@), #[trigger] v[k], turn, k as nat, v),
        decreases calls@.len() - i,
    {
        if !tool_result_answers_call(results, &calls[i], turn, i, calls) {
            assert(!answers(texts(results@), v[i as int], turn, i as nat, v));
            return true;
        }
        i = i + 1;
    }
    false
}

/// The assistant turn that a resumed run carries on with instead of asking the
/// model again.
pub fn staged_model_turn(resumed: bool, messages: &Vec<ChatMessage>, turn: u32) -> (r: Option<
    ModelTurn,
>)
    ensures
        ({
            let m = message_views(messages@);
            match r {
                Some(t) => resumed && staged_index(m, turn) is Some && t@ == turn_of(
                    m[staged_index(m, turn)->0],
                ),
                None => !resumed || staged_index(m, turn) is None,
            }
        }),
{
    if !resumed {
        return None;
    }
    let count: usize = messages.len();
    match find_last_of_role(messages, "assistant") {
        None => None,
        Some(a) => {
            assert(a < count);
            let message = &messages[a];
            if a + 1 < count {
                let results = collect_result_ids(messages, a + 1);
                if !any_unanswered(&results, &message.tool_calls, turn) {
                    return None;
                }
            }
            Some(
                ModelTurn {
                    content: message.content.clone(),
                    tool_calls: duplicate_calls(&message.tool_calls),
                    usage: None,
                },
            )
        },
    }
}

/// The index of the last content message of a role, before `n`.
pub open spec fn last_content_of_role(m: Seq<ContentMessageView>, role: Seq<char>, n: int) -> int
    decreases n,
{
    if n <= 0 || n > m.len() {
        -1
    } else if m[n - 1].role == role {
        n - 1
    } else {
        last_content_of_role(m, role, n - 1)
    }
}

/// Whether a tool result with the id stands at or after `i`.
pub open spec fn content_answered(m: Seq<ContentMessageView>, i: int, id: Seq<char>) -> bool {
    exists|k: int|
        i <= k < m.len() && (#[trigger] m[k]).role == "tool"@ && m[k].tool_call_id == id
}

/// Whether some call has no result at or after `i`.
pub open spec fn content_unanswered(
    m: Seq<ContentMessageView>,
    i: int,
    calls: Seq<ToolCallView>,
) -> bool {
    exists|k: int| 0 <= k < calls.len() && !content_answered(m, i, (#[trigger] calls[k]).id)
}

/// The index of the content message whose turn is still to be carried out.
pub open spec fn staged_content_index(m: Seq<ContentMessageView>) -> Option<int> {
    let a = last_content_of_role(m, "assistant"@, m.len() as int);
    if a < 0 {
        None
    } else if a == m.len() - 1 || content_unanswered(m, a + 1, m[a].tool_calls) {
        Some(a)
    } else {
        None
    }
}

fn has_content_result(messages: &Vec<ContentMessageV1>, from: usize, id: &str) -> (r: bool)
    requires
        from <= messages@.len(),
    ensures
        r == content_answered(content_views(messages@), from as int, id@),
{
    let ghost m = content_views(messages@);
    let mut i: usize = from;
    while i < messages.len()
        invariant
            from <= i <= messages@.len(),
            m == content_views(messages@),
            forall|k: int|
                from <= k < i ==> !((#[trigger] m[k]).role == "tool"@ && m[k].tool_call_id == id@),
        decreases messages@.len() - i,
    {
        if same(messages[i].role.as_str(), "tool") && same(
            messages[i].tool_call_id.as_str(),
            id,
        ) {
            assert(m[i as int].role == "tool"@ && m[i as int].tool_call_id == id@);
            return true;
        }
        i = i + 1;
    }
    false
}

fn any_content_unanswered(
    messages: &Vec<ContentMessageV1>,
    from: usize,
    calls: &Vec<ToolCall>,
) -> (r: bool)
    requires
        from <= messages@.len(),
    ensures
        r == content_unanswered(content_views(messages@), from as int, call_views(calls@)),
{
    let ghost m = content_views(messages@);
    let ghost v = call_views(calls@);
    let mut i: usize = 0;
    while i < calls.len()
        invariant
            i <= calls@.len(),
            from <= messages@.len(),
            m == content_views(messages@),
            v == call_views(calls@),
            forall|k: int|
                0 <= k < i ==> content_answered(m, from as int, (#[trigger] v[k]).id),
        decreases calls@.len() - i,
    {
        if !has_content_result(messages, from, calls[i].id.as_str()) {
            assert(!content_answered(m, from as int, v[i as int].id));
            return true;
        }
        i = i + 1;
    }
    false
}

/// The content turn that a resumed run carries on with. `staged` tells whether
/// the run was resumed with a staged turn.
pub fn staged_content_model_turn(staged: bool, messages: &Vec<ContentMessageV1>) -> (r: Option<
    ContentModelTurnV1,
>)
    ensures
        ({
            let m = content_views(messages@);
            match r {
                Some(t) => staged && staged_content_index(m) is Some && t.text@.len() == 0
                    && part_views(t.output_parts@) == m[staged_content_index(m)->0].parts
                    && call_views(t.tool_calls@) == m[staged_content_index(m)->0].tool_calls
                    && t.usage is None,
                None => !staged || staged_content_index(m) is None,
            }
        }),
{
    if !staged {
        return None;
    }
    let ghost m = content_views(messages@);
    let count: usize = messages.len();
    let mut n: usize = count;
    while n > 0 && !same(messages[n - 1].role.as_str(), "assistant")
        invariant
            n <= count,
            count == messages@.len(),
            m == content_views(messages@),
            last_content_of_role(m, "assistant"@, count as int) == last_content_of_role(
                m,
                "assistant"@,
                n as int,
            ),
        decreases n,
    {
        n = n - 1;
    }
    if n == 0 {
        return None;
    }
    let message = &messages[n - 1];
    assert(last_content_of_role(m, "assistant"@, count as int) == n - 1);
    if n < count && !any_content_unanswered(messages, n, &message.tool_calls) {
        return None;
    }
    Some(
        ContentModelTurnV1 {
            text: String::new(),
            output_parts: duplicate_parts(&message.parts),
            tool_calls: duplicate_calls(&message.tool_calls),
            usage: None,
        },
    )
}

// ---------------------------------------------------------------------------
// Content turns as model turns
// ---------------------------------------------------------------------------

/// What the resolver gave for one part.
#[derive(Debug)]
pub enum ResolvedPart {
    /// The resolver failed.
    Failed,
    /// Text, and why it does not fit its descriptor, if it does not.
    Text { value: String, misfit: Option<String> },
    /// Bytes, and why they do not fit their descriptor, if they do not.
    Bytes { misfit: Option<String> },
}

/// Whether a part is accepted text that is no tool argument.
pub open spec fn spoken_part(p: PartView) -> bool {
    p.kind == ContentPartKind::Text && p.disclosure_state == ContentDisclosureState::Accepted
        && p.source != "model-tool-arguments"@
}

/// Whether a part holds the arguments with the id.
pub open spec fn argument_part(p: PartView, id: Seq<char>) -> bool {
    p.part_id == id && p.kind == ContentPartKind::Text && p.source == "model-tool-arguments"@
        && p.disclosure_state == ContentDisclosureState::Accepted
}

/// The first spoken part at or after `i`, or the number of parts.
pub open spec fn first_spoken(v: Seq<PartView>, i: int) -> int
    decreases v.len() - i,
{
    if 0 <= i < v.len() && !spoken_part(v[i]) {
        first_spoken(v, i + 1)
    } else {
        i
    }
}

/// The first argument part at or after `i`, or the number of parts.
pub open spec fn first_argument(v: Seq<PartView>, id: Seq<char>, i: int) -> int
    decreases v.len() - i,
{
    if 0 <= i < v.len() && !argument_part(v[i], id) {
        first_argument(v, id, i + 1)
    } else {
        i
    }
}

/// The refusal of a part that the resolver failed for.
pub open spec fn resolver_failure(id: Seq<char>) -> Seq<char> {
    "content resolver failed for staged part `"@ + id + "`"@
}

/// The text of a content turn: its own, or that of its first spoken part.
pub open spec fn spoken_text(t: ContentModelTurnV1, payloads: Seq<ResolvedPart>) -> Result<
    Seq<char>,
    Seq<char>,
> {
    let parts = part_views(t.output_parts@);
    let p = first_spoken(parts, 0);
    if t.text@.len() > 0 || p >= parts.len() {
        Ok(t.text@)
    } else {
        match payloads[p] {
            ResolvedPart::Failed => Err(resolver_failure(parts[p].part_id)),
            ResolvedPart::Text { value, .. } => Ok(value@),
            ResolvedPart::Bytes { .. } => Err("text descriptor resolved to bytes"@),
        }
    }
}

/// The arguments of a call whose part id is known.
pub open spec fn argument_text(
    t: ContentModelTurnV1,
    payloads: Seq<ResolvedPart>,
    id: Option<String>,
) -> Result<Seq<char>, Seq<char>> {
    let parts = part_views(t.output_parts@);
    match id {
        None => Err("content tool arguments are not externalized"@),
        Some(id) => {
            let p = first_argument(parts, id@, 0);
            if p >= parts.len() {
                Err("content tool argument descriptor is missing"@)
            } else {
                match payloads[p] {
                    ResolvedPart::Failed => Err(resolver_failure(parts[p].part_id)),
                    ResolvedPart::Text { value, misfit } => match misfit {
                        Some(m) => Err(m@),
                        None => Ok(value@),
                    },
                    ResolvedPart::Bytes { misfit } => match misfit {
                        Some(m) => Err(m@),
                        None => Err("content tool arguments resolved to bytes"@),
                    },
                }
            }
        },
    }
}

/// The first call, from `i` on, whose arguments cannot be had.
pub open spec fn argument_fault(
    t: ContentModelTurnV1,
    payloads: Seq<ResolvedPart>,
    ids: Seq<Option<String>>,
    i: int,
) -> Option<Seq<char>>
    decreases ids.len() - i,
{
    if i < 0 || i >= ids.len() {
        None
    } else {
        match argument_text(t, payloads, ids[i]) {
            Err(m) => Some(m),
            Ok(_) => argument_fault(t, payloads, ids, i + 1),
        }
    }
}

/// Whether an error is a run error with the given text.
pub open spec fn run_message(e: RunError, text: Seq<char>) -> bool {
    e matches RunError::Message(m) && m@ == text
}

fn staged_failure(id: &str) -> (e: RunError)
    ensures
        run_message(e, resolver_failure(id@)),
{
    let mut m = "content resolver failed for staged part `".to_owned();
    m.append(id);
    m.append("`");
    RunError::Message(m)
}

fn fault(text: &str) -> (e: RunError)
    ensures
        run_message(e, text@),
{
    RunError::Message(text.to_owned())
}

fn is_spoken(p: &ContentPartDescriptor) -> (r: bool)
    ensures
        r == spoken_part(p@),
{
    p.kind == ContentPartKind::Text && p.disclosure_state == ContentDisclosureState::Accepted
        && !same(p.provenance.source.as_str(), "model-tool-arguments")
}

fn is_argument(p: &ContentPartDescriptor, id: &str) -> (r: bool)
    ensures
        r == argument_part(p@, id@),
{
    same(p.part_id.as_str(), id) && p.kind == ContentPartKind::Text && same(
        p.provenance.source.as_str(),
        "model-tool-arguments",
    ) && p.disclosure_state == ContentDisclosureState::Accepted
}

fn find_spoken(turn: &ContentModelTurnV1, payloads: &Vec<ResolvedPart>) -> (r: Result<
    String,
    RunError,
>)
    requires
        payloads@.len() == turn.output_parts@.len(),
    ensures
        match spoken_text(*turn, payloads@) {
            Ok(s) => r matches Ok(t) && t@ == s,
            Err(m) => r matches Err(e) && run_message(e, m),
        },
{
    if !turn.text.as_str().is_empty() {
        return Ok(turn.text.clone());
    }
    let ghost parts = part_views(turn.output_parts@);
    let mut p: usize = 0;
    while p < turn.output_parts.len() && !is_spoken(&turn.output_parts[p])
        invariant
            p <= turn.output_parts@.len(),
            parts == part_views(turn.output_parts@),
            first_spoken(parts, 0) == first_spoken(parts, p as int),
        decreases turn.output_parts@.len() - p,
    {
        p = p + 1;
    }
    if p == turn.output_parts.len() {
        return Ok(turn.text.clone());
    }
    match &payloads[p] {
        ResolvedPart::Failed => Err(staged_failure(turn.output_parts[p].part_id.as_str())),
        ResolvedPart::Text { value, .. } => Ok(value.clone()),
        ResolvedPart::Bytes { .. } => Err(fault("text descriptor resolved to bytes")),
    }
}

fn find_arguments(
    turn: &ContentModelTurnV1,
    payloads: &Vec<ResolvedPart>,
    id: &Option<String>,
) -> (r: Result<String, RunError>)
    requires
        payloads@.len() == turn.output_parts@.len(),
    ensures
        match argument_text(*turn, payloads@, *id) {
            Ok(s) => r matches Ok(t) && t@ == s,
            Err(m) => r matches Err(e) && run_message(e, m),
        },
{
    let id = match id {
        None => return Err(fault("content tool arguments are not externalized")),
        Some(id) => id,
    };
    let ghost parts = part_views(turn.output_parts@);
    let mut p: usize = 0;
    while p < turn.output_parts.len() && !is_argument(&turn.output_parts[p], id.as_str())
        invariant
            p <= turn.output_parts@.len(),
            parts == part_views(turn.output_parts@),
            first_argument(parts, id@, 0) == first_argument(parts, id@, p as int),
        decreases turn.output_parts@.len() - p,
    {
        p = p + 1;
    }
    if p == turn.output_parts.len() {
        return Err(fault("content tool argument descriptor is missing"));
    }
    match &payloads[p] {
        ResolvedPart::Failed => Err(staged_failure(turn.output_parts[p].part_id.as_str())),
        ResolvedPart::Text { value, misfit } => match misfit {
            Some(m) => Err(fault(m.as_str())),
            None => Ok(value.clone()),
        },
        ResolvedPart::Bytes { misfit } => match misfit {
            Some(m) => Err(fault(m.as_str())),
            None => Err(fault("content tool arguments resolved to bytes")),
        },
    }
}

/// The model turn of a staged content turn. `part_ids` are the parts that the
/// calls' arguments point to, and `payloads` what the resolver gave for each
/// output part.
pub fn content_to_model_turn(
    turn: &ContentModelTurnV1,
    part_ids: &Vec<Option<String>>,
    payloads: &Vec<ResolvedPart>,
) -> (r: Result<ModelTurn, RunError>)
    requires
        payloads@.len() == turn.output_parts@.len(),
        part_ids@.len() == turn.tool_calls@.len(),
    ensures
        match spoken_text(*turn, payloads@) {
            Err(m) => r matches Err(e) && run_message(e, m),
            Ok(text) => match argument_fault(*turn, payloads@, part_ids@, 0) {
                Some(m) => r matches Err(e) && run_message(e, m),
                None => r matches Ok(t) && t.content@ == text && t.usage == turn.usage
                    && t.tool_calls@.len() == turn.tool_calls@.len() && forall|i: int|
                    0 <= i < t.tool_calls@.len() ==> (#[trigger] t.tool_calls@[i]).id
                        == turn.tool_calls@[i].id && t.tool_calls@[i].name
                        == turn.tool_calls@[i].name && argument_text(
                        *turn,
                        payloads@,
                        part_ids@[i],
                    ) == Ok::<Seq<char>, Seq<char>>(t.tool_calls@[i].args_json@),
            },
        },
{
    let content = match find_spoken(turn, payloads) {
        Err(e) => return Err(e),
        Ok(s) => s,
    };
    let mut calls: Vec<ToolCall> = Vec::new();
    let mut i: usize = 0;
    while i < turn.tool_calls.len()
        invariant
            i <= turn.tool_calls@.len(),
            payloads@.len() == turn.output_parts@.len(),
            part_ids@.len() == turn.tool_calls@.len(),
            spoken_text(*turn, payloads@) == Ok::<Seq<char>, Seq<char>>(content@),
            argument_fault(*turn, payloads@, part_ids@, 0) == argument_fault(
                *turn,
                payloads@,
                part_ids@,
                i as int,
            ),
            calls@.len() == i,
            forall|k: int|
                0 <= k < i ==> (#[trigger] calls@[k]).id == turn.tool_calls@[k].id
                    && calls@[k].name == turn.tool_calls@[k].name && argument_text(
                    *turn,
                    payloads@,
                    part_ids@[k],
                ) == Ok::<Seq<char>, Seq<char>>(calls@[k].args_json@),
        decreases turn.tool_calls@.len() - i,
    {
        let args_json = match find_arguments(turn, payloads, &part_ids[i]) {
            Err(e) => return Err(e),
            Ok(s) => s,
        };
        calls.push(
            ToolCall {
                id: turn.tool_calls[i].id.clone(),
                name: turn.tool_calls[i].name.clone(),
                args_json,
            },
        );
        i = i + 1;
    }
    Ok(ModelTurn { content, tool_calls: calls, usage: turn.usage })
}

// ---------------------------------------------------------------------------
// The durable protocol
// ---------------------------------------------------------------------------

/// The planning side of a run: a turn that is staged from a checkpoint, and the
/// tokens used so far.
pub struct DurableModelTurn {
    pub staged_turn: Option<ModelTurn>,
    pub staged_content_turn: Option<ContentModelTurnV1>,
    pub usage: TokenUsage,
}

/// What bounds planning.
pub struct PlanLimits {
    pub max_turns: u32,
    pub compact_after_messages: Option<u32>,
    pub compact_keep_tail: u32,
}

/// Where the next turn comes from.
#[derive(Debug)]
pub enum PlanAction {
    /// Carry on with a content turn of the checkpoint.
    StagedContent(ContentModelTurnV1),
    /// Ask for a content turn.
    PlanContent,
    /// Carry on with a turn of the checkpoint.
    Staged(ModelTurn),
    /// Ask for a turn.
    Plan,
}

/// What planning starts with.
#[derive(Debug)]
pub struct PlanStart {
    /// The sizes before and after, where the conversation was compacted.
    pub compaction: Option<(usize, usize)>,
    pub action: PlanAction,
}

/// The tail that compaction keeps: at least two messages.
pub open spec fn kept_tail(limits: PlanLimits) -> nat {
    if limits.compact_keep_tail < 2 {
        2
    } else {
        limits.compact_keep_tail as nat
    }
}

impl DurableModelTurn {
    /// Whether a turn is staged.
    pub open spec fn staged(self) -> bool {
        self.staged_turn is Some || self.staged_content_turn is Some
    }

    /// Whether the conversation is compacted before planning.
    pub open spec fn compacts(self, content: bool, limits: PlanLimits, n: nat) -> bool {
        &&& !self.staged()
        &&& !content
        &&& limits.compact_after_messages is Some
        &&& n > limits.compact_after_messages->0
        &&& n > kept_tail(limits) + 1
    }

    /// The planner of an attempt. A stopped run resumes from the durable
    /// assistant message, so that a paid or already planned turn is not repeated.
    pub fn new(
        resumed: bool,
        messages: &Vec<ChatMessage>,
        turns: u32,
        staged_content_turn: Option<ContentModelTurnV1>,
        usage: TokenUsage,
    ) -> (p: Self)
        ensures
            ({
                let m = message_views(messages@);
                match p.staged_turn {
                    Some(t) => resumed && staged_index(m, turns) is Some && t@ == turn_of(
                        m[staged_index(m, turns)->0],
                    ),
                    None => !resumed || staged_index(m, turns) is None,
                }
            }),
            p.staged_content_turn == staged_content_turn,
            p.usage == usage,
    {
        DurableModelTurn {
            staged_turn: staged_model_turn(resumed, messages, turns),
            staged_content_turn,
            usage,
        }
    }

    /// Starts planning a turn: the run has to be within its bounds and, unless a
    /// turn is staged, below its turn limit; a long conversation is compacted;
    /// and a staged turn is taken before the model is asked.
    pub fn begin(
        &mut self,
        messages: &mut Vec<ChatMessage>,
        turns: u32,
        content: bool,
        limits: &PlanLimits,
        bounds: &Bounds,
    ) -> (r: Result<PlanStart, RunError>)
        ensures
            final(self).usage == old(self).usage,
            if !bounds.within() {
                r matches Err(e) && bounds.stopped_by(e) && final(messages)@ == old(messages)@
                    && *final(self) == *old(self)
            } else if !old(self).staged() && turns >= limits.max_turns {
                r matches Err(e) && e == RunError::MaxTurns(limits.max_turns) && final(messages)@
                    == old(messages)@ && *final(self) == *old(self)
            } else {
                &&& r matches Ok(start)
                &&& if old(self).compacts(content, *limits, old(messages)@.len()) {
                    start.compaction == Some(
                        (old(messages)@.len() as usize, (kept_tail(*limits) + 2) as usize),
                    ) && message_views(final(messages)@) == compacted(
                        message_views(old(messages)@),
                        kept_tail(*limits),
                    )
                } else {
                    start.compaction is None && final(messages)@ == old(messages)@
                }
                &&& match old(self).staged_content_turn {
                    Some(t) => start.action == PlanAction::StagedContent(t)
                        && final(self).staged_content_turn is None && final(self).staged_turn
                        == old(self).staged_turn,
                    None => final(self).staged_content_turn is None && if content {
                        start.action is PlanContent && final(self).staged_turn == old(
                            self,
                        ).staged_turn
                    } else {
                        final(self).staged_turn is None && match old(self).staged_turn {
                            Some(t) => start.action == PlanAction::Staged(t),
                            None => start.action is Plan,
                        }
                    },
                }
            },
    {
        match check_bounds(bounds) {
            Err(e) => return Err(e),
            Ok(_) => {},
        }
        let staged = self.staged_turn.is_some() || self.staged_content_turn.is_some();
        if !staged && turns >= limits.max_turns {
            return Err(RunError::MaxTurns(limits.max_turns));
        }
        let mut compaction: Option<(usize, usize)> = None;
        if !staged && !content {
            if let Some(threshold) = limits.compact_after_messages {
                let keep: usize = if limits.compact_keep_tail < 2 {
                    2
                } else {
                    limits.compact_keep_tail as usize
                };
                compaction = compact_messages(messages, threshold as usize, keep);
            }
        }
        let action = match self.staged_content_turn.take() {
            Some(t) => PlanAction::StagedContent(t),
            None => if content {
                PlanAction::PlanContent
            } else {
                match self.staged_turn.take() {
                    Some(t) => PlanAction::Staged(t),
                    None => PlanAction::Plan,
                }
            },
        };
        Ok(PlanStart { compaction, action })
    }

    /// Takes a planned turn into the conversation: it counts, its tokens are
    /// added, and its message is appended. Returns the event to publish.
    pub fn accept(&mut self, messages: &mut Vec<ChatMessage>, turns: u32, turn: &ModelTurn) -> (r: (
        u32,
        HarnessEvent,
    ))
        requires
            turns < u32::MAX,
        ensures
            r.0 == turns + 1,
            r.1 matches HarnessEvent::ModelTurn { turn: n, content_preview } && n == turns + 1
                && content_preview@ == first_chars(turn.content@, 200),
            message_views(final(messages)@) == message_views(old(messages)@).push(
                assistant_message(turn.content@, call_views(turn.tool_calls@)),
            ),
            final(self).usage == added(old(self).usage, turn.usage),
            final(self).staged_turn == old(self).staged_turn,
            final(self).staged_content_turn == old(self).staged_content_turn,
    {
        self.usage.add_reported(turn.usage);
        let message = ChatMessage {
            role: "assistant".to_owned(),
            content: turn.content.clone(),
            tool_call_id: String::new(),
            tool_calls: duplicate_calls(&turn.tool_calls),
        };
        let ghost before = messages@;
        messages.push(message);
        assert(message@ =~= assistant_message(turn.content@, call_views(turn.tool_calls@)));
        assert(message_views(messages@) =~= message_views(before).push(message@));
        (
            turns + 1,
            HarnessEvent::ModelTurn {
                turn: turns + 1,
                content_preview: take_chars(turn.content.as_str(), 200),
            },
        )
    }

    /// Counts a content turn and its tokens. They count even if the turn is refused.
    pub fn count_content(&mut self, turns: u32, usage: Option<TokenUsage>) -> (r: u32)
        requires
            turns < u32::MAX,
        ensures
            r == turns + 1,
            final(self).usage == added(old(self).usage, usage),
            final(self).staged_turn == old(self).staged_turn,
            final(self).staged_content_turn == old(self).staged_content_turn,
    {
        self.usage.add_reported(usage);
        turns + 1
    }

    /// Keeps an appended content turn in the conversation that is sent on: no text, and
    /// the calls as they are stored.
    pub fn accept_content(&self, messages: &mut Vec<ChatMessage>, stored_calls: &Vec<ToolCall>)
        ensures
            message_views(final(messages)@) == message_views(old(messages)@).push(
                assistant_message(Seq::empty(), call_views(stored_calls@)),
            ),
    {
        let message = ChatMessage {
            role: "assistant".to_owned(),
            content: String::new(),
            tool_call_id: String::new(),
            tool_calls: duplicate_calls(stored_calls),
        };
        let ghost before = messages@;
        messages.push(message);
        assert(message@ =~= assistant_message(Seq::empty(), call_views(stored_calls@)));
        assert(message_views(messages@) =~= message_views(before).push(message@));
    }
}

/// Whether an event tells of a content turn: the number of its parts, and the kind and
/// the digest of each, in order.
pub open spec fn tells_content_turn(
    event: HarnessEvent,
    turn: u32,
    parts: Seq<ContentPartDescriptor>,
) -> bool {
    event matches HarnessEvent::ContentTurn { turn: t, part_count, kinds, digests } && t == turn
        && part_count == parts.len() && texts(kinds@) == parts.map(
        |i: int, p: ContentPartDescriptor| p.kind.name(),
    ) && texts(digests@) == parts.map(|i: int, p: ContentPartDescriptor| p.sha256_digest@)
}

/// What is told of a planned content turn once its message is stored.
pub fn content_turn_event(turn: u32, message: &ContentMessageV1) -> (event: HarnessEvent)
    ensures
        tells_content_turn(event, turn, message.parts@),
{
    let ghost names = message.parts@.map(|i: int, p: ContentPartDescriptor| p.kind.name());
    let ghost labels = message.parts@.map(|i: int, p: ContentPartDescriptor| p.sha256_digest@);
    let mut kinds: Vec<String> = Vec::new();
    let mut digests: Vec<String> = Vec::new();
    let mut i: usize = 0;
    while i < message.parts.len()
        invariant
            i <= message.parts@.len(),
            names == message.parts@.map(|i: int, p: ContentPartDescriptor| p.kind.name()),
            labels == message.parts@.map(|i: int, p: ContentPartDescriptor| p.sha256_digest@),
            texts(kinds@) =~= names.take(i as int),
            texts(digests@) =~= labels.take(i as int),
        decreases message.parts@.len() - i,
    {
        let ghost kinds_before = kinds@;
        let ghost digests_before = digests@;
        kinds.push(message.parts[i].kind.as_str().to_owned());
        digests.push(message.parts[i].sha256_digest.clone());
        assert(texts(kinds@) =~= texts(kinds_before).push(names[i as int]));
        assert(texts(digests@) =~= texts(digests_before).push(labels[i as int]));
        i = i + 1;
    }
    assert(names.take(i as int) =~= names);
    assert(labels.take(i as int) =~= labels);
    HarnessEvent::ContentTurn { turn, part_count: message.parts.len(), kinds, digests }
}

/// An assistant message.
pub open spec fn assistant_message(
    content: Seq<char>,
    calls: Seq<ToolCallView>,
) -> ChatMessageView {
    ChatMessageView {
        role: "assistant"@,
        content,
        tool_call_id: Seq::empty(),
        tool_calls: calls,
    }
}

/// The tokens used once a turn reported its own.
pub open spec fn added(u: TokenUsage, reported: Option<TokenUsage>) -> TokenUsage {
    match reported {
        Some(r) => TokenUsage {
            input_tokens: saturating_sum(u.input_tokens, r.input_tokens),
            output_tokens: saturating_sum(u.output_tokens, r.output_tokens),
        },
        None => u,
    }
}

/// A turn that was accepted and saved, but not carried out, is what a resumed
/// run carries on with: the same content and the same calls.
pub proof fn accepted_turn_is_staged(
    m: Seq<ChatMessageView>,
    content: Seq<char>,
    calls: Seq<ToolCallView>,
    turn: u32,
)
    ensures
        ({
            let saved = m.push(assistant_message(content, calls));
            &&& staged_index(saved, turn) == Some(m.len() as int)
            &&& turn_of(saved[m.len() as int]) == (ModelTurnView {
                content,
                tool_calls: calls,
                usage: None,
            })
        }),
{
    let saved = m.push(assistant_message(content, calls));
    assert(saved[saved.len() - 1].role == "assistant"@);
}

/// Where the host stands with one turn.
#[derive(Debug, Clone, Copy, PartialEq, Eq, Structural)]
pub enum TurnStage {
    /// Check the bounds and begin planning.
    Begin,
    /// Ask the model and accept its turn.
    Plan,
    /// Save the accepted turn.
    Stage,
    /// Report the turn to governance.
    Report,
    /// Save the report cursor.
    Save,
    /// Check the bounds again.
    Recheck,
    /// The turn may be carried out.
    Done,
    /// The turn ends with the error of the last step.
    Failed,
}

/// Where a turn goes once the step of its stage succeeded or failed. A staged
/// turn is reported again but not asked for again.
pub open spec fn turn_after(stage: TurnStage, staged: bool, ok: bool) -> TurnStage {
    if !ok {
        TurnStage::Failed
    } else {
        match stage {
            TurnStage::Begin => if staged {
                TurnStage::Report
            } else {
                TurnStage::Plan
            },
            TurnStage::Plan => TurnStage::Stage,
            TurnStage::Stage => TurnStage::Report,
            TurnStage::Report => TurnStage::Save,
            TurnStage::Save => TurnStage::Recheck,
            TurnStage::Recheck => TurnStage::Done,
            TurnStage::Done => TurnStage::Done,
            TurnStage::Failed => TurnStage::Failed,
        }
    }
}

/// Where a turn goes once the step of its stage succeeded or failed.
pub fn advance_turn(stage: TurnStage, staged: bool, ok: bool) -> (next: TurnStage)
    ensures
        next == turn_after(stage, staged, ok),
{
    if !ok {
        return TurnStage::Failed;
    }
    match stage {
        TurnStage::Begin => if staged {
            TurnStage::Report
        } else {
            TurnStage::Plan
        },
        TurnStage::Plan => TurnStage::Stage,
        TurnStage::Stage => TurnStage::Report,
        TurnStage::Report => TurnStage::Save,
        TurnStage::Save => TurnStage::Recheck,
        TurnStage::Recheck => TurnStage::Done,
        TurnStage::Done => TurnStage::Done,
        TurnStage::Failed => TurnStage::Failed,
    }
}

/// The stage that a sequence of outcomes leads to.
pub open spec fn turn_trace(staged: bool, oks: Seq<bool>) -> TurnStage
    decreases oks.len(),
{
    if oks.len() == 0 {
        TurnStage::Begin
    } else {
        turn_after(turn_trace(staged, oks.drop_last()), staged, oks.last())
    }
}

/// How many steps lead to a stage.
spec fn stage_depth(stage: TurnStage, staged: bool) -> int {
    let skipped = if staged {
        2int
    } else {
        0int
    };
    match stage {
        TurnStage::Begin => 0,
        TurnStage::Plan => 1,
        TurnStage::Stage => 2,
        TurnStage::Report => 3 - skipped,
        TurnStage::Save => 4 - skipped,
        TurnStage::Recheck => 5 - skipped,
        TurnStage::Done => 6 - skipped,
        TurnStage::Failed => -1,
    }
}

/// Whether a stage belongs to the path of a turn.
spec fn on_path(stage: TurnStage, staged: bool) -> bool {
    staged ==> stage != TurnStage::Plan && stage != TurnStage::Stage
}

/// A turn is carried out only once all its steps succeeded: begun, asked for and
/// saved (unless it was staged), reported, saved again, and within bounds.
pub proof fn turn_is_durable_before_it_is_used(staged: bool, oks: Seq<bool>)
    requires
        turn_trace(staged, oks) == TurnStage::Done,
    ensures
        oks.len() >= if staged {
            4int
        } else {
            6int
        },
        forall|i: int| 0 <= i < oks.len() ==> #[trigger] oks[i],
{
    trace_facts(staged, oks);
}

proof fn trace_facts(staged: bool, oks: Seq<bool>)
    ensures
        turn_trace(staged, oks) != TurnStage::Failed ==> (forall|i: int|
            0 <= i < oks.len() ==> #[trigger] oks[i]) && oks.len() >= stage_depth(
            turn_trace(staged, oks),
            staged,
        ) && on_path(turn_trace(staged, oks), staged),
    decreases oks.len(),
{
    if oks.len() > 0 {
        trace_facts(staged, oks.drop_last());
        if turn_trace(staged, oks) != TurnStage::Failed {
            assert forall|i: int| 0 <= i < oks.len() implies #[trigger] oks[i] by {
                if i < oks.len() - 1 {
                    assert(oks.drop_last()[i]);
                }
            }
        }
    }
}

/// The outcomes of steps that all succeed.
spec fn all_passed(n: nat) -> Seq<bool> {
    Seq::new(n, |i: int| true)
}

proof fn all_passed_grows(n: nat)
    ensures
        all_passed(n + 1).drop_last() == all_passed(n),
        all_passed(n + 1).last(),
{
    assert(all_passed(n + 1).drop_last() =~= all_passed(n));
}

/// A turn is planned, staged, reported, saved and checked against the bounds once more
/// before it is used, in this order; one that was staged before is not planned again.
pub proof fn turn_takes_every_step(oks: Seq<bool>)
    requires
        oks.len() == 6,
        forall|i: int| 0 <= i < oks.len() ==> #[trigger] oks[i],
    ensures
        turn_trace(false, oks.take(0)) == TurnStage::Begin,
        turn_trace(false, oks.take(1)) == TurnStage::Plan,
        turn_trace(false, oks.take(2)) == TurnStage::Stage,
        turn_trace(false, oks.take(3)) == TurnStage::Report,
        turn_trace(false, oks.take(4)) == TurnStage::Save,
        turn_trace(false, oks.take(5)) == TurnStage::Recheck,
        turn_trace(false, oks) == TurnStage::Done,
        turn_trace(true, oks.take(1)) == TurnStage::Report,
        turn_trace(true, oks.take(2)) == TurnStage::Save,
        turn_trace(true, oks.take(3)) == TurnStage::Recheck,
        turn_trace(true, oks.take(4)) == TurnStage::Done,
{
    assert forall|n: int| 0 <= n <= 6 implies #[trigger] oks.take(n) =~= all_passed(n as nat) by {}
    assert(oks =~= all_passed(6));
    all_passed_grows(0);
    all_passed_grows(1);
    all_passed_grows(2);
    all_passed_grows(3);
    all_passed_grows(4);
    all_passed_grows(5);
    assert(turn_trace(true, all_passed(0)) == TurnStage::Begin);
    assert(turn_trace(true, all_passed(1)) == TurnStage::Report);
    assert(turn_trace(true, all_passed(2)) == TurnStage::Save);
    assert(turn_trace(true, all_passed(3)) == TurnStage::Recheck);
}

/// A turn whose step fails is not used, whatever comes after.
pub proof fn failed_turn_is_never_used(staged: bool, oks: Seq<bool>, i: int)
    requires
        0 <= i < oks.len(),
        !oks[i],
    ensures
        turn_trace(staged, oks) == TurnStage::Failed,
    decreases oks.len(),
{
    if i < oks.len() - 1 {
        assert(oks.drop_last()[i] == oks[i]);
        failed_turn_is_never_used(staged, oks.drop_last(), i);
    }
}

proof fn last_of_role_is_last(m: Seq<ChatMessageView>, role: Seq<char>, n: int)
    requires
        0 <= n <= m.len(),
    ensures
        -1 <= last_of_role(m, role, n) < n,
        last_of_role(m, role, n) >= 0 ==> m[last_of_role(m, role, n)].role == role,
        forall|k: int| last_of_role(m, role, n) < k < n ==> (#[trigger] m[k]).role != role,
    decreases n,
{
    if n > 0 && m[n - 1].role != role {
        last_of_role_is_last(m, role, n - 1);
    }
}

/// What a resumed run takes up again is the last assistant message of its conversation,
/// and only where it stands last or a call of it has no result yet.
pub proof fn staged_turn_is_the_last_unfinished_one(m: Seq<ChatMessageView>, turn: u32)
    ensures
        staged_index(m, turn) matches Some(a) ==> 0 <= a < m.len() && m[a].role == "assistant"@
            && (forall|k: int| a < k < m.len() ==> (#[trigger] m[k]).role != "assistant"@) && (a
            == m.len() - 1 || exists|k: int|
            0 <= k < m[a].tool_calls.len() && !answers(
                result_ids(m, a + 1),
                #[trigger] m[a].tool_calls[k],
                turn,
                k as nat,
                m[a].tool_calls,
            )),
        (forall|k: int| 0 <= k < m.len() ==> (#[trigger] m[k]).role != "assistant"@)
            ==> staged_index(m, turn) is None,
        m.len() > 0 && m.last().role == "assistant"@ ==> staged_index(m, turn) == Some(
            m.len() - 1,
        ),
{
    last_of_role_is_last(m, "assistant"@, m.len() as int);
    let a = last_of_role(m, "assistant"@, m.len() as int);
    if a >= 0 {
        assert(m[a].role == "assistant"@);
        if m.last().role == "assistant"@ && a < m.len() - 1 {
            assert(m[m.len() - 1].role != "assistant"@);
        }
    }
}

/// The messages that answer the calls of a turn.
pub open spec fn results_of(calls: Seq<ToolCallView>, turn: u32, said: Seq<Seq<char>>) -> Seq<
    ChatMessageView,
> {
    Seq::new(
        calls.len(),
        |i: int|
            ChatMessageView {
                role: "tool"@,
                content: said[i],
                tool_call_id: conversation_id(calls[i], turn, i as nat),
                tool_calls: Seq::empty(),
            },
    )
}

proof fn result_ids_of_results(
    m: Seq<ChatMessageView>,
    calls: Seq<ToolCallView>,
    turn: u32,
    said: Seq<Seq<char>>,
    i: int,
)
    requires
        0 <= i <= calls.len(),
    ensures
        result_ids(m + results_of(calls, turn, said), m.len() + i) == ids_of_results(
            calls,
            turn,
            calls.len(),
        ).skip(i),
    decreases calls.len() - i,
{
    let all = m + results_of(calls, turn, said);
    let ids = ids_of_results(calls, turn, calls.len());
    if i < calls.len() {
        result_ids_of_results(m, calls, turn, said, i + 1);
        assert(all[m.len() + i] == results_of(calls, turn, said)[i]);
        assert(ids.skip(i) =~= seq![ids[i]] + ids.skip(i + 1));
    } else {
        assert(ids.skip(i) =~= Seq::<Seq<char>>::empty());
    }
}

/// A turn whose calls are all answered is not taken up again.
pub proof fn answered_turn_is_not_staged(
    m: Seq<ChatMessageView>,
    content: Seq<char>,
    calls: Seq<ToolCallView>,
    turn: u32,
    said: Seq<Seq<char>>,
)
    requires
        calls.len() > 0,
    ensures
        staged_index(m.push(assistant_message(content, calls)) + results_of(calls, turn, said), turn)
            is None,
{
    let asked = m.push(assistant_message(content, calls));
    let all = asked + results_of(calls, turn, said);
    let a = m.len() as int;
    last_of_role_is_last(all, "assistant"@, all.len() as int);
    assert(all[a] == assistant_message(content, calls));
    reveal_strlit("tool");
    reveal_strlit("assistant");
    assert("tool"@.len() != "assistant"@.len());
    assert forall|k: int| a < k < all.len() implies (#[trigger] all[k]).role == "tool"@ by {
        assert(all[k] == results_of(calls, turn, said)[k - a - 1]);
    }
    assert(last_of_role(all, "assistant"@, all.len() as int) == a);
    result_ids_of_results(asked, calls, turn, said, 0);
    let ids = ids_of_results(calls, turn, calls.len());
    assert(ids.skip(0) =~= ids);
    assert forall|k: int| 0 <= k < calls.len() implies answers(
        ids,
        #[trigger] calls[k],
        turn,
        k as nat,
        calls,
    ) by {
        completed_batch_is_answered(calls, turn, k as nat);
    }
}

/// Reported tokens are added each to its own total, up to the largest count; what is not
/// reported adds nothing.
pub proof fn usage_adds_up(u: TokenUsage, r: TokenUsage)
    ensures
        added(u, None) == u,
        u.input_tokens + r.input_tokens <= u64::MAX ==> added(u, Some(r)).input_tokens
            == u.input_tokens + r.input_tokens,
        u.input_tokens + r.input_tokens > u64::MAX ==> added(u, Some(r)).input_tokens == u64::MAX,
        u.output_tokens + r.output_tokens <= u64::MAX ==> added(u, Some(r)).output_tokens
            == u.output_tokens + r.output_tokens,
        u.output_tokens + r.output_tokens > u64::MAX ==> added(u, Some(r)).output_tokens
            == u64::MAX,
{
}

proof fn first_spoken_is_first(v: Seq<PartView>, i: int)
    requires
        0 <= i <= v.len(),
    ensures
        i <= first_spoken(v, i) <= v.len(),
        first_spoken(v, i) < v.len() ==> spoken_part(v[first_spoken(v, i)]),
        forall|k: int| i <= k < first_spoken(v, i) ==> !spoken_part(#[trigger] v[k]),
    decreases v.len() - i,
{
    if i < v.len() && !spoken_part(v[i]) {
        first_spoken_is_first(v, i + 1);
    }
}

proof fn first_argument_is_first(v: Seq<PartView>, id: Seq<char>, i: int)
    requires
        0 <= i <= v.len(),
    ensures
        i <= first_argument(v, id, i) <= v.len(),
        first_argument(v, id, i) < v.len() ==> argument_part(v[first_argument(v, id, i)], id),
        forall|k: int| i <= k < first_argument(v, id, i) ==> !argument_part(#[trigger] v[k], id),
    decreases v.len() - i,
{
    if i < v.len() && !argument_part(v[i], id) {
        first_argument_is_first(v, id, i + 1);
    }
}

/// The text of a stored turn is that of its first accepted text part that holds no
/// arguments; a turn that says something itself keeps that.
pub proof fn stored_turn_speaks_its_first_text(
    t: ContentModelTurnV1,
    payloads: Seq<ResolvedPart>,
    p: int,
)
    requires
        0 <= p < t.output_parts@.len(),
        payloads.len() == t.output_parts@.len(),
        ({
            let v = t.output_parts@;
            &&& v[p].kind == ContentPartKind::Text
            &&& v[p].disclosure_state == ContentDisclosureState::Accepted
            &&& v[p].provenance.source@ != "model-tool-arguments"@
            &&& forall|k: int|
                0 <= k < p ==> (#[trigger] v[k]).kind != ContentPartKind::Text
                    || v[k].disclosure_state != ContentDisclosureState::Accepted
                    || v[k].provenance.source@ == "model-tool-arguments"@
        }),
    ensures
        t.text@.len() > 0 ==> spoken_text(t, payloads) == Ok::<Seq<char>, Seq<char>>(t.text@),
        t.text@.len() == 0 ==> match payloads[p] {
            ResolvedPart::Text { value, .. } => spoken_text(t, payloads) == Ok::<
                Seq<char>,
                Seq<char>,
            >(value@),
            _ => spoken_text(t, payloads) is Err,
        },
{
    let parts = part_views(t.output_parts@);
    first_spoken_is_first(parts, 0);
    assert(parts[p] == t.output_parts@[p]@);
    assert(spoken_part(parts[p]));
    assert forall|k: int| 0 <= k < p implies !spoken_part(#[trigger] parts[k]) by {
        assert(parts[k] == t.output_parts@[k]@);
    }
    assert(first_spoken(parts, 0) == p);
}

/// The arguments of a stored call are those of the accepted part that its pointer names,
/// as they were resolved; a call without a pointer, a part that is missing, does not fit
/// or is no text has none.
pub proof fn stored_call_has_its_arguments(
    t: ContentModelTurnV1,
    payloads: Seq<ResolvedPart>,
    id: String,
    p: int,
)
    requires
        0 <= p < t.output_parts@.len(),
        payloads.len() == t.output_parts@.len(),
        ({
            let v = t.output_parts@;
            &&& v[p].part_id@ == id@
            &&& v[p].kind == ContentPartKind::Text
            &&& v[p].disclosure_state == ContentDisclosureState::Accepted
            &&& v[p].provenance.source@ == "model-tool-arguments"@
            &&& forall|k: int| 0 <= k < p ==> (#[trigger] v[k]).part_id@ != id@
        }),
    ensures
        argument_text(t, payloads, None) is Err,
        match payloads[p] {
            ResolvedPart::Text { value, misfit: None } => argument_text(t, payloads, Some(id))
                == Ok::<Seq<char>, Seq<char>>(value@),
            _ => argument_text(t, payloads, Some(id)) is Err,
        },
{
    let parts = part_views(t.output_parts@);
    first_argument_is_first(parts, id@, 0);
    assert(parts[p] == t.output_parts@[p]@);
    assert(argument_part(parts[p], id@));
    assert forall|k: int| 0 <= k < p implies !argument_part(#[trigger] parts[k], id@) by {
        assert(parts[k] == t.output_parts@[k]@);
    }
    assert(first_argument(parts, id@, 0) == p);
}

proof fn last_content_is_last(m: Seq<ContentMessageView>, role: Seq<char>, n: int)
    requires
        0 <= n <= m.len(),
    ensures
        -1 <= last_content_of_role(m, role, n) < n,
        last_content_of_role(m, role, n) >= 0 ==> m[last_content_of_role(m, role, n)].role == role,
        forall|k: int| last_content_of_role(m, role, n) < k < n ==> (#[trigger] m[k]).role != role,
    decreases n,
{
    if n > 0 && m[n - 1].role != role {
        last_content_is_last(m, role, n - 1);
    }
}

/// What a resumed content run takes up again is the last assistant message of its
/// conversation, and only where it stands last or a call of it has no result behind it.
pub proof fn staged_content_turn_is_the_last_unfinished_one(m: Seq<ContentMessageView>, a: int)
    ensures
        staged_content_index(m) == Some(a) <==> 0 <= a < m.len() && m[a].role == "assistant"@ && (
        forall|k: int| a < k < m.len() ==> (#[trigger] m[k]).role != "assistant"@) && (a == m.len()
            - 1 || exists|c: int|
            0 <= c < m[a].tool_calls.len() && forall|k: int|
                a < k < m.len() ==> !((#[trigger] m[k]).role == "tool"@ && m[k].tool_call_id == (
                #[trigger] m[a].tool_calls[c]).id)),
{
    let last = last_content_of_role(m, "assistant"@, m.len() as int);
    last_content_is_last(m, "assistant"@, m.len() as int);
    if 0 <= a < m.len() && m[a].role == "assistant"@ && forall|k: int|
        a < k < m.len() ==> (#[trigger] m[k]).role != "assistant"@ {
        assert(last == a) by {
            if last > a {
                assert(m[last].role != "assistant"@);
            }
            if last < a {
                assert(m[a].role != "assistant"@);
            }
        }
    }
    if last >= 0 {
        let calls = m[last].tool_calls;
        if content_unanswered(m, last + 1, calls) {
            let c = choose|c: int|
                0 <= c < calls.len() && !content_answered(m, last + 1, (#[trigger] calls[c]).id);
            assert forall|k: int| last < k < m.len() implies !((#[trigger] m[k]).role == "tool"@
                && m[k].tool_call_id == m[last].tool_calls[c].id) by {}
            assert(calls[c] == m[last].tool_calls[c]);
        } else {
            assert forall|c: int| 0 <= c < calls.len() implies exists|k: int|
                last < k < m.len() && (#[trigger] m[k]).role == "tool"@ && m[k].tool_call_id
                    == (#[trigger] m[last].tool_calls[c]).id by {
                assert(content_answered(m, last + 1, calls[c].id));
            }
        }
    }
}

/// The arguments of a stored turn can be read just where those of each call can.
pub proof fn every_stored_argument_is_read(
    t: ContentModelTurnV1,
    payloads: Seq<ResolvedPart>,
    ids: Seq<Option<String>>,
    i: int,
)
    requires
        0 <= i <= ids.len(),
    ensures
        argument_fault(t, payloads, ids, i) is None <==> forall|k: int|
            i <= k < ids.len() ==> argument_text(t, payloads, #[trigger] ids[k]) is Ok,
    decreases ids.len() - i,
{
    if i < ids.len() {
        every_stored_argument_is_read(t, payloads, ids, i + 1);
    }
}

/// A compaction keeps at least the last two messages, and as many as it is told to beyond
/// that.
pub proof fn compaction_keeps_a_tail(limits: PlanLimits)
    ensures
        kept_tail(limits) >= 2,
        limits.compact_keep_tail >= 2 ==> kept_tail(limits) == limits.compact_keep_tail,
        kept_tail(limits) == 2 || kept_tail(limits) == limits.compact_keep_tail,
{
}

/// A content turn is told with its number and, part by part, the kind and the digest of each.
pub proof fn content_turn_is_told_part_by_part(
    event: HarnessEvent,
    turn: u32,
    parts: Seq<ContentPartDescriptor>,
    i: int,
)
    requires
        tells_content_turn(event, turn, parts),
        0 <= i < parts.len(),
    ensures
        event is ContentTurn,
        event->ContentTurn_turn == turn,
        event->part_count == parts.len(),
        event->kinds@.len() == parts.len(),
        event->kinds@[i]@ == parts[i].kind.name(),
        event->digests@[i]@ == parts[i].sha256_digest@,
{
    let kinds = texts(event->kinds@);
    let digests = texts(event->digests@);
    assert(kinds.len() == parts.len());
    assert(kinds[i] == parts[i].kind.name());
    assert(digests.len() == parts.len());
    assert(digests[i] == parts[i].sha256_digest@);
}

} // verus!
