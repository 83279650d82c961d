//! Run lifecycle: requests, results, and the decisions of one run attempt.
use vstd::prelude::*;
use vstd::string::*;

#[allow(unused_imports)]
use crate::canonical::{bare_number_cancels, label_cancels, pieces_regroup};
use crate::events::push_number;
use crate::model::{labelled, ChatMessage, CostEstimate, ModelError, TokenUsage, ToolCall};
#[allow(unused_imports)]
use crate::model::{call_views, message_views, ChatMessageView, ToolCallView};
use crate::text::{decimal_text, padded_text};
use crate::tools::TodoItem;
#[allow(unused_imports)]
use crate::text::{decimal, digits_value, padded, padded_reads_back, pow10};

pub mod content_stages;
pub mod content_turn;
pub mod model_turn;
pub mod preparation;
pub mod resume;
pub mod session;
pub mod supervision;
pub mod tool_batch;
pub mod tool_reports;
pub mod transaction;

verus! {

/// The notice that stands for messages that were left out.
pub open spec fn compaction_notice(dropped: nat) -> ChatMessageView {
    ChatMessageView {
        role: "user"@,
        content: "[context compacted: "@ + decimal(dropped)
            + " earlier messages omitted; continue the original task]"@,
        tool_call_id: Seq::empty(),
        tool_calls: Seq::empty(),
    }
}

/// The conversation once its middle is left out.
pub open spec fn compacted(m: Seq<ChatMessageView>, keep_tail: nat) -> Seq<ChatMessageView> {
    seq![m[0], compaction_notice((m.len() - 1 - keep_tail) as nat)] + m.skip(m.len() - keep_tail)
}

/// Compact middle of the message list when over `threshold`.
/// Keeps the first message (task) and the last `keep_tail` messages.
/// Returns `(before, after)` when compaction ran.
pub fn compact_messages(
    messages: &mut Vec<ChatMessage>,
    threshold: usize,
    keep_tail: usize,
) -> (r: Option<(usize, usize)>)
    ensures
        if old(messages)@.len() <= threshold || old(messages)@.len() <= keep_tail + 1 {
            r is None && final(messages)@ == old(messages)@
        } else {
            r == Some((old(messages)@.len() as usize, (keep_tail + 2) as usize)) && message_views(
                final(messages)@,
            ) == compacted(message_views(old(messages)@), keep_tail as nat)
        },
{
    let before: usize = messages.len();
    if before <= threshold || before <= keep_tail || before - 1 <= keep_tail {
        return None;
    }
    let ghost all = messages@;
    let dropped: usize = before - 1 - keep_tail;
    let digits = decimal_text(dropped as u64);
    let mut content = "[context compacted: ".to_owned();
    content.append(digits.as_str());
    content.append(" earlier messages omitted; continue the original task]");
    let summary = ChatMessage {
        role: "user".to_owned(),
        content,
        tool_call_id: String::new(),
        tool_calls: Vec::new(),
    };
    assert(summary@ == compaction_notice(dropped as nat)) by {
        assert(call_views(summary.tool_calls@) =~= Seq::<ToolCallView>::empty());
    }
    let mut tail = messages.split_off(before - keep_tail);
    messages.truncate(1);
    messages.push(summary);
    messages.append(&mut tail);
    assert(messages@ =~= seq![all[0], summary] + all.skip(all.len() - keep_tail));
    assert(message_views(messages@) =~= compacted(message_views(all), keep_tail as nat));
    Some((before, messages.len()))
}

/// Compaction never lengthens a conversation, and keeps its first message and
/// its last `keep_tail` messages.
pub proof fn compaction_keeps_task_and_tail(m: Seq<ChatMessageView>, keep_tail: nat)
    requires
        m.len() > keep_tail + 1,
    ensures
        compacted(m, keep_tail).len() == keep_tail + 2,
        compacted(m, keep_tail).len() <= m.len(),
        compacted(m, keep_tail)[0] == m[0],
        forall|i: int|
            0 <= i < keep_tail ==> #[trigger] compacted(m, keep_tail)[2 + i] == m[m.len() - keep_tail
                + i],
{
}

/// How a run ended (success or not).
#[derive(Debug, Clone, Copy, PartialEq, Eq, Structural)]
pub enum RunTermination {
    Completed,
    Cancelled,
    TimedOut,
    MaxTurns,
    Failed,
    /// Awaiting an operator answer.
    Parked,
}

impl RunTermination {
    /// The name of the termination.
    pub open spec fn name(self) -> Seq<char> {
        match self {
            RunTermination::Completed => "completed"@,
            RunTermination::Cancelled => "cancelled"@,
            RunTermination::TimedOut => "timed_out"@,
            RunTermination::MaxTurns => "max_turns"@,
            RunTermination::Failed => "failed"@,
            RunTermination::Parked => "parked"@,
        }
    }

    /// The name of the termination.
    pub fn as_str(self) -> (s: &'static str)
        ensures
            s@ == self.name(),
    {
        match self {
            RunTermination::Completed => "completed",
            RunTermination::Cancelled => "cancelled",
            RunTermination::TimedOut => "timed_out",
            RunTermination::MaxTurns => "max_turns",
            RunTermination::Failed => "failed",
            RunTermination::Parked => "parked",
        }
    }
}

/// What a run is asked to do.
#[derive(Debug, Clone)]
pub struct RunRequest {
    pub task: String,
    pub keep_workspace: bool,
    pub timeout_ms: Option<u64>,
    /// When set, load the checkpoint of this run id and continue.
    pub resume_run_id: Option<String>,
    /// Optional logical operation id. When unset, the run id stands for it.
    pub logical_operation_id: Option<String>,
    /// Operator answer when resuming a parked run.
    pub resume_answer: Option<String>,
    /// Restore the workspace from this snapshot name before continuing.
    pub restore_snapshot: Option<String>,
}

impl RunRequest {
    /// A request for a task, with nothing else set.
    pub fn new(task: String) -> (r: Self)
        ensures
            r == (RunRequest {
                task,
                keep_workspace: false,
                timeout_ms: None,
                resume_run_id: None,
                logical_operation_id: None,
                resume_answer: None,
                restore_snapshot: None,
            }),
    {
        RunRequest {
            task,
            keep_workspace: false,
            timeout_ms: None,
            resume_run_id: None,
            logical_operation_id: None,
            resume_answer: None,
            restore_snapshot: None,
        }
    }
}

/// What a run came to.
#[derive(Debug, Clone)]
pub struct RunResult {
    pub run_id: String,
    pub success: bool,
    pub summary: String,
    pub turns: u32,
    pub workspace: String,
    /// Durable local artifact directory, retained after workspace cleanup.
    pub artifact_dir: Option<String>,
    pub termination: RunTermination,
    /// Set when the run is parked.
    pub park: Option<ParkInfo>,
    /// Versioned prompt id used for this run.
    pub prompt_id: String,
    pub usage: TokenUsage,
    pub cost: Option<CostEstimate>,
    /// Final run-scoped checklist.
    pub todos: Vec<TodoItem>,
}

/// Why a run is parked.
#[derive(Debug, Clone, Copy, PartialEq, Eq, Structural)]
pub enum ParkKind {
    Escalate,
    Approval,
}

/// Operator-visible park payload.
#[derive(Debug, Clone, PartialEq, Eq)]
pub struct ParkInfo {
    pub reason: String,
    pub question: String,
    pub tool_call_id: String,
    pub kind: ParkKind,
    pub approval_id: Option<String>,
}

/// Why governance stopped a step.
#[derive(Debug)]
pub enum GovernanceError {
    /// The plane refused.
    Denied(String),
    /// Anything else, such as an unreachable plane.
    Message(String),
}

/// Why a run ended without a result.
#[derive(Debug)]
pub enum RunError {
    Governance(GovernanceError),
    Workspace(String),
    Tool(String),
    Model(ModelError),
    Checkpoint(String),
    Message(String),
    MaxTurns(u32),
    Cancelled,
    /// The limit, in milliseconds.
    TimedOut(u64),
}

/// Where trailing zeros of a text begin.
pub open spec fn back_zero(s: Seq<char>, hi: int) -> int
    decreases hi,
{
    if hi > 0 && s[hi - 1] == '0' {
        back_zero(s, hi - 1)
    } else {
        hi
    }
}

/// A span of milliseconds in its largest unit: `0ns`, `250ms`, `2s`, `1.5s`.
pub open spec fn span_text(ms: u64) -> Seq<char> {
    if ms == 0 {
        "0ns"@
    } else if ms < 1000 {
        decimal(ms as nat) + "ms"@
    } else if ms % 1000 == 0 {
        decimal((ms / 1000) as nat) + "s"@
    } else {
        let frac = padded((ms % 1000) as nat, 3);
        decimal((ms / 1000) as nat) + "."@ + frac.subrange(0, back_zero(frac, 3)) + "s"@
    }
}

fn push_span(s: &mut String, ms: u64)
    ensures
        final(s)@ == old(s)@ + span_text(ms),
{
    let ghost start = s@;
    if ms == 0 {
        s.append("0ns");
    } else if ms < 1000 {
        push_number(s, ms);
        s.append("ms");
        assert(s@ =~= start + span_text(ms));
    } else if ms % 1000 == 0 {
        push_number(s, ms / 1000);
        s.append("s");
        assert(s@ =~= start + span_text(ms));
    } else {
        push_number(s, ms / 1000);
        s.append(".");
        let frac = padded_text(ms % 1000, 3);
        let v = crate::text::chars_of(frac.as_str());
        assert(v@ == padded((ms % 1000) as nat, 3));
        proof {
            reveal_with_fuel(crate::text::pow10, 4);
            crate::text::padded_reads_back((ms % 1000) as nat, 3);
        }
        let mut hi: usize = v.len();
        while hi > 0 && v[hi - 1] == '0'
            invariant
                hi <= v@.len(),
                back_zero(v@, v@.len() as int) == back_zero(v@, hi as int),
            decreases hi,
        {
            hi = hi - 1;
        }
        let shown = crate::text::text_of(&v, 0, hi);
        s.append(shown.as_str());
        s.append("s");
        assert(s@ =~= start + span_text(ms));
    }
}

impl RunError {
    /// How a run that failed this way ended.
    pub open spec fn ends_as(self) -> RunTermination {
        match self {
            RunError::Cancelled => RunTermination::Cancelled,
            RunError::TimedOut(_) => RunTermination::TimedOut,
            RunError::MaxTurns(_) => RunTermination::MaxTurns,
            _ => RunTermination::Failed,
        }
    }

    /// How a run that failed this way ended.
    pub fn termination(&self) -> (t: RunTermination)
        ensures
            t == self.ends_as(),
    {
        match self {
            RunError::Cancelled => RunTermination::Cancelled,
            RunError::TimedOut(_) => RunTermination::TimedOut,
            RunError::MaxTurns(_) => RunTermination::MaxTurns,
            _ => RunTermination::Failed,
        }
    }

    /// Whether the failure leaves the governed receipt open.
    pub open spec fn stays_open(self) -> bool {
        match self {
            RunError::Cancelled | RunError::TimedOut(_) | RunError::MaxTurns(_) => true,
            RunError::Governance(e) => !(e is Denied),
            _ => false,
        }
    }

    /// Whether the governed receipt stays open so that a resumed run can go on
    /// with its causal event sequence: the failures that leave a resumable local
    /// checkpoint, and governance failures other than a refusal.
    pub fn leaves_governance_open(&self) -> (r: bool)
        ensures
            r == self.stays_open(),
    {
        match self {
            RunError::Cancelled | RunError::TimedOut(_) | RunError::MaxTurns(_) => true,
            RunError::Governance(e) => match e {
                GovernanceError::Denied(_) => false,
                _ => true,
            },
            _ => false,
        }
    }

    /// The text of the error.
    pub open spec fn text(self) -> Seq<char> {
        match self {
            RunError::Governance(GovernanceError::Denied(m)) => m@,
            RunError::Governance(GovernanceError::Message(m)) => m@,
            RunError::Workspace(m) => m@,
            RunError::Tool(m) => m@,
            RunError::Model(e) => e.text(),
            RunError::Checkpoint(m) => m@,
            RunError::Message(m) => "run: "@ + m@,
            RunError::MaxTurns(n) => "max turns exceeded ("@ + decimal(n as nat) + ")"@,
            RunError::Cancelled => "run cancelled"@,
            RunError::TimedOut(ms) => "run timed out after "@ + span_text(ms),
        }
    }

    /// The text of the error.
    pub fn message(&self) -> (s: String)
        ensures
            s@ == self.text(),
    {
        match self {
            RunError::Governance(e) => match e {
                GovernanceError::Denied(m) => m.clone(),
                GovernanceError::Message(m) => m.clone(),
            },
            RunError::Workspace(m) => m.clone(),
            RunError::Tool(m) => m.clone(),
            RunError::Model(e) => e.message(),
            RunError::Checkpoint(m) => m.clone(),
            RunError::Message(m) => labelled("run: ", m),
            RunError::MaxTurns(n) => {
                let mut s = "max turns exceeded (".to_owned();
                push_number(&mut s, *n as u64);
                s.append(")");
                s
            },
            RunError::Cancelled => "run cancelled".to_owned(),
            RunError::TimedOut(ms) => {
                let mut s = "run timed out after ".to_owned();
                push_span(&mut s, *ms);
                s
            },
        }
    }
}

/// What bounds a run between two steps, as the host observed it.
pub struct Bounds {
    /// Why the ownership heartbeat failed, if it did.
    pub heartbeat_failure: Option<String>,
    /// The caller's cancel signal or a registry cancel marker is set.
    pub cancelled: bool,
    pub elapsed_ms: u64,
    pub timeout_ms: Option<u64>,
}

impl Bounds {
    /// Whether the run may go on.
    pub open spec fn within(self) -> bool {
        &&& self.heartbeat_failure is None
        &&& !self.cancelled
        &&& (self.timeout_ms is None || self.elapsed_ms < self.timeout_ms->0)
    }

    /// Whether the run is out of its bounds and the error tells why.
    pub open spec fn stopped_by(self, e: RunError) -> bool {
        if self.heartbeat_failure is Some {
            e matches RunError::Message(m) && m@ == "run registry heartbeat failed: "@
                + self.heartbeat_failure->0@
        } else if self.cancelled {
            e == RunError::Cancelled
        } else {
            !self.within() && e == RunError::TimedOut(self.timeout_ms->0)
        }
    }
}

/// Stops a run that lost its ownership lease, was cancelled or ran out of time,
/// in that order.
pub fn check_bounds(bounds: &Bounds) -> (r: Result<(), RunError>)
    ensures
        match r {
            Ok(_) => bounds.within(),
            Err(e) => bounds.stopped_by(e),
        },
{
    if let Some(failure) = &bounds.heartbeat_failure {
        return Err(RunError::Message(labelled("run registry heartbeat failed: ", failure)));
    }
    if bounds.cancelled {
        return Err(RunError::Cancelled);
    }
    if let Some(limit) = bounds.timeout_ms {
        if bounds.elapsed_ms >= limit {
            return Err(RunError::TimedOut(limit));
        }
    }
    Ok(())
}

/// The id of a call that the model left without one.
pub open spec fn synthesized_id(turn: u32, index: nat) -> Seq<char> {
    "tool-"@ + decimal(turn as nat) + "-"@ + decimal(index)
}

/// The id that reports and execution checkpoints use: unique within a run.
pub open spec fn stable_id(call: ToolCallView, turn: u32, index: nat) -> Seq<char> {
    if call.id.len() == 0 {
        synthesized_id(turn, index)
    } else {
        synthesized_id(turn, index) + "-"@ + call.id
    }
}

/// The id that the conversation uses: the model's own where it gave one.
pub open spec fn conversation_id(call: ToolCallView, turn: u32, index: nat) -> Seq<char> {
    if call.id.len() == 0 {
        synthesized_id(turn, index)
    } else {
        call.id
    }
}

fn synthesized(turn: u32, index: usize) -> (s: String)
    ensures
        s@ == synthesized_id(turn, index as nat),
{
    let mut s = "tool-".to_owned();
    push_number(&mut s, turn as u64);
    s.append("-");
    push_number(&mut s, index as u64);
    s
}

/// The id that reports and execution checkpoints use.
pub fn stable_tool_call_id(call: &ToolCall, turn: u32, index: usize) -> (s: String)
    ensures
        s@ == stable_id(call@, turn, index as nat),
{
    let mut s = synthesized(turn, index);
    if !call.id.as_str().is_empty() {
        s.append("-");
        s.append(call.id.as_str());
    }
    s
}

/// The id that the conversation uses.
pub fn conversation_tool_call_id(call: &ToolCall, turn: u32, index: usize) -> (s: String)
    ensures
        s@ == conversation_id(call@, turn, index as nat),
{
    if call.id.as_str().is_empty() {
        synthesized(turn, index)
    } else {
        call.id.clone()
    }
}

/// Every way to end has a name of its own.
pub proof fn termination_names_differ(a: RunTermination, b: RunTermination)
    ensures
        a.name() == b.name() <==> a == b,
{
    reveal_strlit("completed");
    reveal_strlit("cancelled");
    reveal_strlit("timed_out");
    reveal_strlit("max_turns");
    reveal_strlit("failed");
    reveal_strlit("parked");
    assert("completed"@[1] == 'o' && "cancelled"@[1] == 'a' && "timed_out"@[1] == 'i');
    assert("max_turns"@[0] == 'm' && "completed"@[0] == 'c' && "cancelled"@[0] == 'c');
    assert("timed_out"@[0] == 't' && "failed"@[0] == 'f' && "parked"@[0] == 'p');
}

/// Calls of a run are reported under different ids wherever their turn or their place in
/// it differs, whatever ids the model gave them.
pub proof fn stable_ids_differ(
    a: ToolCallView,
    turn: u32,
    i: nat,
    b: ToolCallView,
    other_turn: u32,
    j: nat,
)
    requires
        stable_id(a, turn, i) == stable_id(b, other_turn, j),
    ensures
        turn == other_turn,
        i == j,
        a.id == b.id,
{
    reveal_strlit("-");
    let x = if a.id.len() == 0 {
        Seq::<char>::empty()
    } else {
        "-"@ + a.id
    };
    let y = if b.id.len() == 0 {
        Seq::<char>::empty()
    } else {
        "-"@ + b.id
    };
    stable_id_by_front(a, turn, i, x);
    stable_id_by_front(b, other_turn, j, y);
    let ra = decimal(i) + x;
    let rb = decimal(j) + y;
    label_cancels("tool-"@, decimal(turn as nat) + ("-"@ + ra), decimal(other_turn as nat) + ("-"@
        + rb));
    bare_number_cancels(turn as nat, "-"@ + ra, other_turn as nat, "-"@ + rb);
    label_cancels("-"@, ra, rb);
    bare_number_cancels(i, x, j, y);
    if a.id.len() > 0 {
        label_cancels("-"@, a.id, b.id);
    }
    assert(a.id =~= b.id);
}

proof fn stable_id_by_front(a: ToolCallView, turn: u32, i: nat, x: Seq<char>)
    requires
        x == if a.id.len() == 0 {
            Seq::<char>::empty()
        } else {
            "-"@ + a.id
        },
    ensures
        stable_id(a, turn, i) == "tool-"@ + (decimal(turn as nat) + ("-"@ + (decimal(i) + x))),
{
    let t = decimal(turn as nat);
    let s = synthesized_id(turn, i);
    assert(stable_id(a, turn, i) =~= s + x) by {
        if a.id.len() > 0 {
            pieces_regroup(s, "-"@, a.id);
        } else {
            assert(s + x =~= s);
        }
    }
    pieces_regroup("tool-"@ + t + "-"@, decimal(i), x);
    pieces_regroup("tool-"@ + t, "-"@, decimal(i) + x);
    pieces_regroup("tool-"@, t, "-"@ + (decimal(i) + x));
}

/// The conversation uses the id that the model gave a call, and else one of its turn and
/// place.
pub proof fn conversation_uses_the_models_id(call: ToolCallView, turn: u32, index: nat)
    ensures
        call.id.len() > 0 ==> conversation_id(call, turn, index) == call.id,
        call.id.len() == 0 ==> conversation_id(call, turn, index) == "tool-"@ + decimal(
            turn as nat,
        ) + "-"@ + decimal(index) && stable_id(call, turn, index) == conversation_id(
            call,
            turn,
            index,
        ),
{
}

/// A run goes on as long as its heartbeat is written, nobody cancelled it and its time is
/// not over; what stops it is told in this order.
pub proof fn bounds_stop_a_run(b: Bounds, e: RunError)
    ensures
        b.within() <==> b.heartbeat_failure is None && !b.cancelled && (b.timeout_ms is Some
            ==> b.elapsed_ms < b.timeout_ms->0),
        b.heartbeat_failure is Some && b.stopped_by(e) ==> e is Message,
        b.heartbeat_failure is None && b.cancelled ==> (b.stopped_by(e) <==> e
            == RunError::Cancelled),
        b.heartbeat_failure is None && !b.cancelled && b.timeout_ms is Some && b.elapsed_ms
            >= b.timeout_ms->0 ==> (b.stopped_by(e) <==> e == RunError::TimedOut(b.timeout_ms->0)),
        b.within() ==> !b.stopped_by(e),
{
}

/// A run that failed ends as cancelled, timed out or out of turns just where that is its
/// error, and else as failed; it never ends as completed or parked.
pub proof fn failures_end_as_what_they_are(e: RunError)
    ensures
        e.ends_as() == RunTermination::Cancelled <==> e is Cancelled,
        e.ends_as() == RunTermination::TimedOut <==> e is TimedOut,
        e.ends_as() == RunTermination::MaxTurns <==> e is MaxTurns,
        e.ends_as() != RunTermination::Completed,
        e.ends_as() != RunTermination::Parked,
{
}

/// A compacted conversation says behind the task how many messages are left out: just
/// those between the task and the tail.
pub proof fn compaction_tells_what_it_left_out(m: Seq<ChatMessageView>, keep_tail: nat)
    requires
        m.len() > keep_tail + 1,
    ensures
        compacted(m, keep_tail)[1].role == "user"@,
        compacted(m, keep_tail)[1].tool_calls.len() == 0,
        exists|dropped: nat|
            dropped + 1 + keep_tail == m.len() && compacted(m, keep_tail)[1].content
                == "[context compacted: "@ + #[trigger] decimal(dropped)
                + " earlier messages omitted; continue the original task]"@,
{
    let dropped = (m.len() - 1 - keep_tail) as nat;
    assert(compacted(m, keep_tail)[1].content == "[context compacted: "@ + decimal(dropped)
        + " earlier messages omitted; continue the original task]"@);
}

/// A run that was cancelled, ran out of time or of turns, or lost its governance can be
/// resumed; one that was denied, or failed otherwise, cannot.
pub proof fn failures_that_can_be_resumed(e: RunError)
    ensures
        e.stays_open() <==> e is Cancelled || e is TimedOut || e is MaxTurns || (e is Governance
            && !(e->Governance_0 is Denied)),
{
}

proof fn zeros_are_at_the_end(s: Seq<char>, hi: int)
    requires
        0 <= hi <= s.len(),
    ensures
        0 <= back_zero(s, hi) <= hi,
        forall|j: int| back_zero(s, hi) <= j < hi ==> #[trigger] s[j] == '0',
        back_zero(s, hi) > 0 ==> s[back_zero(s, hi) - 1] != '0',
    decreases hi,
{
    if hi > 0 && s[hi - 1] == '0' {
        zeros_are_at_the_end(s, hi - 1);
    }
}

/// A time below a second is told in milliseconds, whole seconds in seconds.
pub proof fn span_tells_the_time(ms: u64)
    ensures
        0 < ms < 1000 ==> span_text(ms) == decimal(ms as nat) + "ms"@,
        ms >= 1000 && ms % 1000 == 0 ==> span_text(ms) == decimal((ms / 1000) as nat) + "s"@,
{
}

/// Any other time is told in seconds with the thousandths behind a point, without the zeros at
/// their end.
pub proof fn span_tells_the_thousandths(ms: u64) -> (frac: Seq<char>)
    requires
        ms >= 1000,
        ms % 1000 != 0,
    ensures
        span_text(ms) == decimal((ms / 1000) as nat) + "."@ + frac + "s"@,
        frac.len() <= 3,
        frac.len() > 0 ==> frac.last() != '0',
        digits_value(frac + Seq::new((3 - frac.len()) as nat, |i: int| '0')) == ms % 1000,
{
    let n = (ms % 1000) as nat;
    let p = padded(n, 3);
    assert(pow10(3) == 1000) by {
        reveal_with_fuel(pow10, 4);
    }
    padded_reads_back(n, 3);
    zeros_are_at_the_end(p, 3);
    let k = back_zero(p, 3);
    let frac = p.subrange(0, k);
    assert(p =~= frac + Seq::new((3 - frac.len()) as nat, |i: int| '0'));
    frac
}

} // verus!
