//! Settling an executed tool batch: what is staged, made durable and reported.
use vstd::prelude::*;
use vstd::string::*;

use crate::events::HarnessEvent;
use crate::model::{ChatMessage, ToolCall};
#[allow(unused_imports)]
use crate::model::message_views;
use crate::run::stable_tool_call_id;
#[allow(unused_imports)]
use crate::run::stable_id;
use crate::run::tool_batch::{already_answered, BatchItem, StagedToolReport, ToolOutput};
#[allow(unused_imports)]
use crate::run::tool_batch::answered;
use crate::text::{same, take_chars};
#[allow(unused_imports)]
use crate::text::first_chars;

verus! {

/// How many characters of a detail an event carries.
pub const EVENT_DETAIL_CHARS: usize = 500;

// ---------------------------------------------------------------------------
// Announcing the calls
// ---------------------------------------------------------------------------

/// A call that is about to be carried out.
#[derive(Debug)]
pub struct StartedCall {
    pub index: usize,
    pub call_id: String,
    pub event: HarnessEvent,
}

/// Whether a started call is the one at an index of the batch.
pub open spec fn starts(
    started: StartedCall,
    calls: Seq<ToolCall>,
    shown: Seq<String>,
    turn: u32,
    index: int,
) -> bool {
    &&& started.index == index
    &&& started.call_id@ == stable_id(calls[index]@, turn, index as nat)
    &&& started.event matches HarnessEvent::ToolStart { name, args_json } && name@
        == calls[index].name@ && args_json@ == shown[index]@
}

/// The indices of the first `n` calls that have no result yet, in order.
pub open spec fn unanswered(
    messages: Seq<ChatMessage>,
    calls: Seq<ToolCall>,
    turn: u32,
    n: int,
) -> Seq<int>
    decreases n,
{
    if n <= 0 || n > calls.len() {
        Seq::empty()
    } else if answered(message_views(messages), turn, calls[n - 1]@, (n - 1) as nat) {
        unanswered(messages, calls, turn, n - 1)
    } else {
        unanswered(messages, calls, turn, n - 1).push(n - 1)
    }
}

/// The calls that are started: those without a result, in order. `shown` holds what
/// may be told of the arguments of each.
pub fn started_calls(
    messages: &Vec<ChatMessage>,
    calls: &Vec<ToolCall>,
    shown: &Vec<String>,
    turn: u32,
) -> (v: Vec<StartedCall>)
    requires
        shown@.len() == calls@.len(),
    ensures
        ({
            let open = unanswered(messages@, calls@, turn, calls@.len() as int);
            v@.len() == open.len() && forall|k: int|
                0 <= k < v@.len() ==> starts(#[trigger] v@[k], calls@, shown@, turn, open[k])
        }),
{
    let mut v: Vec<StartedCall> = Vec::new();
    let mut i: usize = 0;
    while i < calls.len()
        invariant
            i <= calls@.len(),
            shown@.len() == calls@.len(),
            v@.len() == unanswered(messages@, calls@, turn, i as int).len(),
            forall|k: int|
                0 <= k < v@.len() ==> starts(
                    #[trigger] v@[k],
                    calls@,
                    shown@,
                    turn,
                    unanswered(messages@, calls@, turn, i as int)[k],
                ),
        decreases calls@.len() - i,
    {
        if !already_answered(messages, turn, &calls[i], i) {
            v.push(
                StartedCall {
                    index: i,
                    call_id: stable_tool_call_id(&calls[i], turn, i),
                    event: HarnessEvent::ToolStart {
                        name: calls[i].name.clone(),
                        args_json: shown[i].clone(),
                    },
                },
            );
        }
        i = i + 1;
    }
    v
}

// ---------------------------------------------------------------------------
// Concurrent calls
// ---------------------------------------------------------------------------

/// What a concurrent call that was not authorized came to. Where governance asks
/// for an approval the call fails: a batch under way cannot park.
pub fn refused_concurrently(needs_approval: bool, error: &str) -> (s: String)
    ensures
        s@ == if needs_approval {
            "parallel batch cannot park: "@ + error@
        } else {
            error@
        },
{
    if needs_approval {
        let mut s = "parallel batch cannot park: ".to_owned();
        s.append(error);
        s
    } else {
        error.to_owned()
    }
}

/// Whether the outcomes stand in the order of their calls.
pub open spec fn in_order(batch: Seq<BatchItem>) -> bool {
    forall|i: int, j: int|
        0 <= i < j < batch.len() ==> (#[trigger] batch[i]).index <= (#[trigger] batch[j]).index
}

/// The outcomes of the call at an index, in the order in which they stand.
pub open spec fn outcomes_at(batch: Seq<BatchItem>, index: usize) -> Seq<BatchItem> {
    batch.filter(|item: BatchItem| item.index == index)
}

proof fn moved_forward_stays_stable(
    head: Seq<BatchItem>,
    passed: Seq<BatchItem>,
    item: BatchItem,
    tail: Seq<BatchItem>,
    index: usize,
)
    requires
        forall|k: int| 0 <= k < passed.len() ==> (#[trigger] passed[k]).index > item.index,
    ensures
        outcomes_at(head + seq![item] + passed + tail, index) == outcomes_at(
            head + passed + seq![item] + tail,
            index,
        ),
{
    let p = |i: BatchItem| i.index == index;
    let one = seq![item];
    Seq::filter_distributes_over_add(head + one + passed, tail, p);
    Seq::filter_distributes_over_add(head + one, passed, p);
    Seq::filter_distributes_over_add(head, one, p);
    Seq::filter_distributes_over_add(head + passed + one, tail, p);
    Seq::filter_distributes_over_add(head + passed, one, p);
    Seq::filter_distributes_over_add(head, passed, p);
    if item.index == index {
        none_at(passed, index);
    } else {
        none_at(one, index);
    }
    assert(head.filter(p) + one.filter(p) + passed.filter(p) =~= head.filter(p) + passed.filter(p)
        + one.filter(p));
}

proof fn none_at(batch: Seq<BatchItem>, index: usize)
    requires
        forall|k: int| 0 <= k < batch.len() ==> (#[trigger] batch[k]).index != index,
    ensures
        outcomes_at(batch, index).len() == 0,
    decreases batch.len(),
{
    reveal(Seq::filter);
    if batch.len() > 0 {
        none_at(batch.drop_last(), index);
    }
}

/// Puts the outcomes of concurrent calls, which come as they end, in the order of
/// the calls.
pub fn order_outcomes(batch: &mut Vec<BatchItem>)
    ensures
        in_order(final(batch)@),
        final(batch)@.to_multiset() == old(batch)@.to_multiset(),
        forall|index: usize|
            #[trigger] outcomes_at(final(batch)@, index) == outcomes_at(old(batch)@, index),
{
    let ghost start = batch@;
    let mut done: usize = 0;
    while done < batch.len()
        invariant
            done <= batch@.len(),
            in_order(batch@.take(done as int)),
            batch@.to_multiset() == start.to_multiset(),
            forall|index: usize|
                #[trigger] outcomes_at(batch@, index) == outcomes_at(start, index),
        decreases batch@.len() - done,
    {
        let ghost before = batch@;
        let mut at: usize = done;
        while at > 0 && batch[at - 1].index > batch[done].index
            invariant
                at <= done < batch@.len(),
                batch@ == before,
                forall|k: int|
                    at <= k < done ==> (#[trigger] batch@[k]).index > batch@[done as int].index,
            decreases at,
        {
            at = at - 1;
        }
        let item = batch.remove(done);
        batch.insert(at, item);
        proof {
            broadcast use vstd::seq_lib::group_to_multiset_ensures;

            let after = batch@;
            let prefix = before.take(done as int);
            assert(before.remove(done as int).to_multiset() == before.to_multiset().remove(
                before[done as int],
            ));
            assert(after == before.remove(done as int).insert(at as int, before[done as int]));
            assert(after.to_multiset() =~= before.to_multiset());
            let head = before.take(at as int);
            let passed = before.subrange(at as int, done as int);
            let tail = before.skip(done + 1);
            let one = seq![before[done as int]];
            assert(before =~= head + passed + one + tail);
            assert(after =~= head + one + passed + tail);
            assert forall|index: usize| #[trigger]
                outcomes_at(after, index) == outcomes_at(start, index) by {
                moved_forward_stays_stable(head, passed, before[done as int], tail, index);
                assert(outcomes_at(before, index) == outcomes_at(start, index));
            }
            let sorted = after.take(done + 1);
            assert forall|i: int, j: int| 0 <= i < j < sorted.len() implies (
            #[trigger] sorted[i]).index <= (#[trigger] sorted[j]).index by {
                let from_i = if i < at {
                    i
                } else {
                    i - 1
                };
                let from_j = if j < at {
                    j
                } else {
                    j - 1
                };
                if i != at {
                    assert(sorted[i] == prefix[from_i]);
                }
                if j != at {
                    assert(sorted[j] == prefix[from_j]);
                } else {
                    assert(prefix[i].index <= prefix[at - 1].index);
                }
                if i == at {
                    assert(before[from_j].index > before[done as int].index);
                }
            }
        }
        done = done + 1;
    }
    assert(batch@.take(done as int) =~= batch@);
}

// ---------------------------------------------------------------------------
// Reporting an outcome
// ---------------------------------------------------------------------------

/// Which hooks run once a call was reported.
#[derive(Debug, Clone, Copy, PartialEq, Eq, Structural)]
pub enum ReportHook {
    PostTool,
    OnPark,
    Skip,
}

/// What governance and the host's listeners are told of a call.
#[derive(Debug)]
pub struct ReportedCall {
    pub call_id: String,
    pub name: String,
    pub ok: bool,
    pub detail: String,
    pub events: Vec<HarnessEvent>,
    pub hook: ReportHook,
}

/// Whether an event tells the end of a call.
pub open spec fn ends_tool(
    event: HarnessEvent,
    name: Seq<char>,
    ok: bool,
    detail: Seq<char>,
) -> bool {
    event matches HarnessEvent::ToolEnd { name: n, ok: o, detail: d } && n@ == name && o == ok && d@
        == detail
}

/// Whether an event tells of the to-do list.
pub open spec fn tells_todos(event: HarnessEvent, detail: Seq<char>, count: usize) -> bool {
    event matches HarnessEvent::TodosUpdated { summary, item_count } && summary@ == first_chars(
        detail,
        EVENT_DETAIL_CHARS as int,
    ) && item_count == count
}

/// The events of a call: its end, after the to-do list where the call wrote it.
pub open spec fn events_of(
    events: Seq<HarnessEvent>,
    name: Seq<char>,
    ok: bool,
    detail: Seq<char>,
    shown: Seq<char>,
    todos: Option<usize>,
) -> bool {
    match todos {
        Some(count) => events.len() == 2 && tells_todos(events[0], detail, count) && ends_tool(
            events[1],
            name,
            ok,
            shown,
        ),
        None => events.len() == 1 && ends_tool(events[0], name, ok, shown),
    }
}

impl BatchItem {
    /// The name under which the call is reported.
    pub open spec fn reported_name(self) -> Seq<char> {
        match self.outcome {
            Ok(ToolOutput::Report { .. }) => "report"@,
            Ok(ToolOutput::Park { .. }) => "escalate"@,
            _ => self.call.name@,
        }
    }

    /// Whether the call's outcome is a text.
    pub open spec fn is_text(self) -> bool {
        self.outcome matches Ok(ToolOutput::Text(_))
    }

    /// Whether the call parks the run.
    pub open spec fn is_park(self) -> bool {
        self.outcome matches Ok(ToolOutput::Park { .. })
    }

    /// The hooks that run once the call was reported.
    pub open spec fn hook(self) -> ReportHook {
        match self.outcome {
            Ok(ToolOutput::Report { .. }) => ReportHook::Skip,
            Ok(ToolOutput::Park { .. }) => ReportHook::OnPark,
            _ => ReportHook::PostTool,
        }
    }

    /// Whether a report is the one of this call.
    pub open spec fn reported_as(
        self,
        turn: u32,
        content: bool,
        todo_count: usize,
        r: ReportedCall,
    ) -> bool {
        &&& r.call_id@ == stable_id(self.call@, turn, self.index as nat)
        &&& r.name@ == self.reported_name()
        &&& r.ok == self.ok()
        &&& r.detail@ == self.detail(content)
        &&& r.hook == self.hook()
        &&& events_of(
            r.events@,
            self.reported_name(),
            self.ok(),
            self.detail(content),
            if self.is_text() {
                first_chars(self.detail(content), EVENT_DETAIL_CHARS as int)
            } else {
                self.detail(content)
            },
            if self.is_text() && self.call.name@ == "todo_write"@ {
                Some(todo_count)
            } else {
                None
            },
        )
    }

    /// What is told of the call once the whole batch is staged.
    pub fn report(&self, turn: u32, content: bool, todo_count: usize) -> (r: ReportedCall)
        ensures
            self.reported_as(turn, content, todo_count, r),
    {
        let detail = self.reported_detail(content);
        let ok = self.succeeded();
        let mut events: Vec<HarnessEvent> = Vec::new();
        let (name, shown, hook) = match &self.outcome {
            Ok(ToolOutput::Text(_)) => {
                let short = take_chars(detail.as_str(), EVENT_DETAIL_CHARS);
                if same(self.call.name.as_str(), "todo_write") {
                    events.push(
                        HarnessEvent::TodosUpdated {
                            summary: short.clone(),
                            item_count: todo_count,
                        },
                    );
                }
                (self.call.name.clone(), short, ReportHook::PostTool)
            },
            Ok(ToolOutput::Report { .. }) => {
                ("report".to_owned(), detail.clone(), ReportHook::Skip)
            },
            Ok(ToolOutput::Park { .. }) => {
                ("escalate".to_owned(), detail.clone(), ReportHook::OnPark)
            },
            Err(_) => (self.call.name.clone(), detail.clone(), ReportHook::PostTool),
        };
        events.push(HarnessEvent::ToolEnd { name: name.clone(), ok, detail: shown });
        ReportedCall {
            call_id: stable_tool_call_id(&self.call, turn, self.index),
            name,
            ok,
            detail,
            events,
            hook,
        }
    }
}

/// What is told of a call that was done before a later one parked the run.
pub fn report_of_prefix(intent: &StagedToolReport, todo_count: usize) -> (r: ReportedCall)
    ensures
        r.call_id@ == intent.call_id@,
        r.name@ == intent.name@,
        r.ok == intent.ok,
        r.detail@ == intent.detail@,
        r.hook == ReportHook::PostTool,
        events_of(
            r.events@,
            intent.name@,
            intent.ok,
            intent.detail@,
            intent.detail@,
            if intent.name@ == "todo_write"@ {
                Some(todo_count)
            } else {
                None
            },
        ),
{
    let mut events: Vec<HarnessEvent> = Vec::new();
    if same(intent.name.as_str(), "todo_write") {
        events.push(
            HarnessEvent::TodosUpdated {
                summary: take_chars(intent.detail.as_str(), EVENT_DETAIL_CHARS),
                item_count: todo_count,
            },
        );
    }
    events.push(
        HarnessEvent::ToolEnd {
            name: intent.name.clone(),
            ok: intent.ok,
            detail: intent.detail.clone(),
        },
    );
    ReportedCall {
        call_id: intent.call_id.clone(),
        name: intent.name.clone(),
        ok: intent.ok,
        detail: intent.detail.clone(),
        events,
        hook: ReportHook::PostTool,
    }
}

/// What is told of a call that waits for an approval. Governance knows of it already.
pub fn parked_call(call: &ToolCall, turn: u32, index: usize, reason: &str) -> (r: ReportedCall)
    ensures
        r.call_id@ == stable_id(call@, turn, index as nat),
        r.name@ == call.name@,
        !r.ok,
        r.detail@ == "parked: "@ + reason@,
        r.hook == ReportHook::OnPark,
        events_of(r.events@, call.name@, false, r.detail@, r.detail@, None),
{
    let mut detail = "parked: ".to_owned();
    detail.append(reason);
    let mut events: Vec<HarnessEvent> = Vec::new();
    events.push(
        HarnessEvent::ToolEnd { name: call.name.clone(), ok: false, detail: detail.clone() },
    );
    ReportedCall {
        call_id: stable_tool_call_id(call, turn, index),
        name: call.name.clone(),
        ok: false,
        detail,
        events,
        hook: ReportHook::OnPark,
    }
}

// ---------------------------------------------------------------------------
// The order of parking for an approval
// ---------------------------------------------------------------------------

/// What stands before a call that waits for an approval: how many calls of the batch
/// were done, and how many of them are reported.
#[derive(Debug, Clone, Copy, PartialEq, Eq, Structural)]
pub struct ParkPlan {
    pub done: usize,
    pub reports: usize,
}

/// What the host does next to park a run for an approval.
#[derive(Debug, Clone, Copy, PartialEq, Eq, Structural)]
pub enum ParkStage {
    /// Append the results of the calls before to the conversation.
    Append,
    /// Mark their checkpointed executions complete.
    Complete,
    /// Stage their report intents.
    StageReports,
    /// Clear the staged executions.
    ClearExecutions,
    /// Stage the execution of the call again.
    Restage,
    /// Form the park; one without an approval id is refused.
    Form,
    /// Record the park with governance.
    Record,
    /// Save the checkpoint with the park.
    Save,
    /// Report a call before to governance, and announce it.
    Report { index: usize },
    /// Announce the call and run the hooks of a park.
    Announce,
    /// The run is parked.
    Parked,
    /// The batch ends with the error.
    Broken,
}

/// Where parking starts.
pub open spec fn park_start(plan: ParkPlan) -> ParkStage {
    if plan.done > 0 {
        ParkStage::Append
    } else {
        ParkStage::Form
    }
}

/// The report after the first `n`, or the announcement of the park.
pub open spec fn park_report_from(plan: ParkPlan, n: int) -> ParkStage {
    if n < plan.reports {
        ParkStage::Report { index: n as usize }
    } else {
        ParkStage::Announce
    }
}

/// Where parking goes from a stage, by whether its step succeeded.
pub open spec fn park_after(plan: ParkPlan, stage: ParkStage, ok: bool) -> ParkStage {
    match stage {
        ParkStage::Announce => ParkStage::Parked,
        ParkStage::Parked => ParkStage::Parked,
        _ => if !ok {
            ParkStage::Broken
        } else {
            match stage {
                ParkStage::Append => ParkStage::Complete,
                ParkStage::Complete => ParkStage::StageReports,
                ParkStage::StageReports => ParkStage::ClearExecutions,
                ParkStage::ClearExecutions => if plan.reports > 0 {
                    ParkStage::Restage
                } else {
                    ParkStage::Form
                },
                ParkStage::Restage => ParkStage::Form,
                ParkStage::Form => ParkStage::Record,
                ParkStage::Record => ParkStage::Save,
                ParkStage::Save => park_report_from(plan, 0),
                ParkStage::Report { index } => park_report_from(plan, index + 1),
                other => other,
            }
        },
    }
}

/// Where parking starts: with the calls before, where there are any.
pub fn begin_park(plan: &ParkPlan) -> (stage: ParkStage)
    ensures
        stage == park_start(*plan),
{
    if plan.done > 0 {
        ParkStage::Append
    } else {
        ParkStage::Form
    }
}

/// Where parking goes from a stage, by whether its step succeeded. The announcement
/// cannot fail; everything else stops at a failure.
pub fn advance_park(plan: &ParkPlan, stage: ParkStage, ok: bool) -> (next: ParkStage)
    ensures
        next == park_after(*plan, stage, ok),
{
    match stage {
        ParkStage::Announce => ParkStage::Parked,
        ParkStage::Parked => ParkStage::Parked,
        _ => if !ok {
            ParkStage::Broken
        } else {
            match stage {
                ParkStage::Append => ParkStage::Complete,
                ParkStage::Complete => ParkStage::StageReports,
                ParkStage::StageReports => ParkStage::ClearExecutions,
                ParkStage::ClearExecutions => if plan.reports > 0 {
                    ParkStage::Restage
                } else {
                    ParkStage::Form
                },
                ParkStage::Restage => ParkStage::Form,
                ParkStage::Form => ParkStage::Record,
                ParkStage::Record => ParkStage::Save,
                ParkStage::Save => if plan.reports > 0 {
                    ParkStage::Report { index: 0 }
                } else {
                    ParkStage::Announce
                },
                ParkStage::Report { index } => if index < plan.reports && index + 1
                    < plan.reports {
                    ParkStage::Report { index: index + 1 }
                } else {
                    ParkStage::Announce
                },
                other => other,
            }
        },
    }
}

/// Where parking stands after steps that succeeded or failed as given.
pub open spec fn park_trace(plan: ParkPlan, oks: Seq<bool>) -> ParkStage
    decreases oks.len(),
{
    if oks.len() == 0 {
        park_start(plan)
    } else {
        park_after(plan, park_trace(plan, oks.drop_last()), oks.last())
    }
}

/// The steps that make a park and the calls before it durable, in order.
pub open spec fn park_steps(plan: ParkPlan) -> Seq<ParkStage> {
    (if plan.done == 0 {
        Seq::<ParkStage>::empty()
    } else {
        seq![
            ParkStage::Append,
            ParkStage::Complete,
            ParkStage::StageReports,
            ParkStage::ClearExecutions,
        ] + (if plan.reports > 0 {
            seq![ParkStage::Restage]
        } else {
            Seq::<ParkStage>::empty()
        })
    }) + seq![ParkStage::Form, ParkStage::Record, ParkStage::Save]
}

/// Whether every step that makes a park durable was taken, in order, and succeeded.
pub open spec fn park_is_durable(plan: ParkPlan, oks: Seq<bool>) -> bool {
    let steps = park_steps(plan);
    &&& oks.len() >= steps.len()
    &&& forall|k: int|
        0 <= k < steps.len() ==> #[trigger] oks[k] && park_trace(plan, oks.take(k)) == steps[k]
}

/// Whether the steps so far were those that make a park durable, each of which succeeded.
spec fn park_prefix(plan: ParkPlan, oks: Seq<bool>, n: int) -> bool {
    &&& n <= oks.len()
    &&& forall|k: int|
        0 <= k < n ==> #[trigger] oks[k] && park_trace(plan, oks.take(k)) == park_steps(plan)[k]
}

spec fn is_park_durable_stage(stage: ParkStage) -> bool {
    stage is Report || stage is Announce || stage is Parked
}

/// One step leads from a place in the list of steps to the next, or to a failure.
proof fn park_next(plan: ParkPlan, n: int, ok: bool)
    requires
        0 <= n < park_steps(plan).len(),
    ensures
        ({
            let steps = park_steps(plan);
            let next = park_after(plan, steps[n], ok);
            if !ok {
                next is Broken
            } else if n + 1 < steps.len() {
                next == steps[n + 1] && !is_park_durable_stage(next) && !(next is Broken)
            } else {
                is_park_durable_stage(next)
            }
        }),
{
}

proof fn park_prefix_extends(plan: ParkPlan, oks: Seq<bool>, n: int)
    requires
        oks.len() > 0,
        0 <= n,
        park_prefix(plan, oks.drop_last(), n),
    ensures
        park_prefix(plan, oks, n),
{
    let before = oks.drop_last();
    assert forall|k: int| 0 <= k < n implies #[trigger] oks[k] && park_trace(plan, oks.take(k))
        == park_steps(plan)[k] by {
        assert(before[k]);
        assert(before.take(k) =~= oks.take(k));
    }
}

proof fn park_facts(plan: ParkPlan, oks: Seq<bool>)
    ensures
        ({
            let n = oks.len() as int;
            let stage = park_trace(plan, oks);
            if stage is Broken {
                true
            } else if is_park_durable_stage(stage) {
                park_prefix(plan, oks, park_steps(plan).len() as int)
            } else {
                n < park_steps(plan).len() && stage == park_steps(plan)[n] && park_prefix(
                    plan,
                    oks,
                    n,
                )
            }
        }),
    decreases oks.len(),
{
    if oks.len() > 0 {
        let before = oks.drop_last();
        let n = before.len() as int;
        let stage = park_trace(plan, before);
        park_facts(plan, before);
        if stage is Broken {
        } else if is_park_durable_stage(stage) {
            park_prefix_extends(plan, oks, park_steps(plan).len() as int);
        } else {
            park_next(plan, n, oks.last());
            park_prefix_extends(plan, oks, n);
            assert(oks.take(n) =~= before);
            if oks.last() {
                assert(park_prefix(plan, oks, n + 1));
            }
        }
    } else {
        assert(!is_park_durable_stage(park_start(plan)));
        assert(park_steps(plan)[0] == park_start(plan));
    }
}

/// Nothing is reported or announced before the park, the results of the calls before it
/// and their report intents were saved, each step in its place.
pub proof fn park_is_durable_before_it_is_reported(plan: ParkPlan, oks: Seq<bool>)
    requires
        park_trace(plan, oks) is Report || park_trace(plan, oks) is Announce || park_trace(
            plan,
            oks,
        ) is Parked,
    ensures
        park_is_durable(plan, oks),
{
    park_facts(plan, oks);
}

// ---------------------------------------------------------------------------
// The order of settling
// ---------------------------------------------------------------------------

/// What the host does next to settle an executed batch.
#[derive(Debug, Clone, Copy, PartialEq, Eq, Structural)]
pub enum SettleStage {
    /// Append the results to the conversation.
    Append,
    /// Mark the checkpointed executions complete.
    Complete,
    /// Stage the report intents.
    StageReports,
    /// Clear the staged executions.
    ClearExecutions,
    /// Mark a content run terminal.
    MarkTerminal,
    /// Save the checkpoint that makes the intents durable.
    Save,
    /// Report the call to governance.
    Report { index: usize },
    /// Save the checkpoint with the park.
    SavePark { index: usize, reported: bool },
    /// Save the checkpoint after a reported call.
    SaveReported { index: usize },
    /// Save the checkpoint once more.
    SaveLast,
    /// Every call was reported.
    Settled,
    /// The run is parked.
    Parked,
    /// The batch ends with the error.
    Broken,
}

/// Whether a batch holds the final report of a content run.
pub open spec fn ends_content(batch: Seq<BatchItem>, content: bool) -> bool {
    content && exists|i: int|
        0 <= i < batch.len() && (#[trigger] batch[i]).outcome matches Ok(
            ToolOutput::Report { .. },
        )
}

/// The report after the first `n`, or the last save.
pub open spec fn report_from(batch: Seq<BatchItem>, n: int) -> SettleStage {
    if n < batch.len() {
        SettleStage::Report { index: n as usize }
    } else {
        SettleStage::SaveLast
    }
}

/// Where settling goes from a stage, by whether its step succeeded.
pub open spec fn settle_after(
    stage: SettleStage,
    batch: Seq<BatchItem>,
    content: bool,
    ok: bool,
) -> SettleStage {
    match stage {
        SettleStage::Report { index } if index < batch.len() && batch[index as int].is_park() => {
            SettleStage::SavePark { index, reported: ok }
        },
        SettleStage::Settled => stage,
        SettleStage::Parked => stage,
        _ => if !ok {
            SettleStage::Broken
        } else {
            match stage {
                SettleStage::Append => SettleStage::Complete,
                SettleStage::Complete => SettleStage::StageReports,
                SettleStage::StageReports => SettleStage::ClearExecutions,
                SettleStage::ClearExecutions => if ends_content(batch, content) {
                    SettleStage::MarkTerminal
                } else {
                    SettleStage::Save
                },
                SettleStage::MarkTerminal => SettleStage::Save,
                SettleStage::Save => report_from(batch, 0),
                SettleStage::Report { index } => SettleStage::SaveReported { index },
                SettleStage::SavePark { reported, .. } => if reported {
                    SettleStage::Parked
                } else {
                    SettleStage::Broken
                },
                SettleStage::SaveReported { index } => report_from(batch, index + 1),
                SettleStage::SaveLast => SettleStage::Settled,
                _ => stage,
            }
        },
    }
}

fn holds_report(batch: &Vec<BatchItem>) -> (r: bool)
    ensures
        r == ends_content(batch@, true),
{
    let mut i: usize = 0;
    while i < batch.len()
        invariant
            i <= batch@.len(),
            forall|j: int|
                0 <= j < i ==> !((#[trigger] batch@[j]).outcome matches Ok(
                    ToolOutput::Report { .. },
                )),
        decreases batch@.len() - i,
    {
        if let Ok(ToolOutput::Report { .. }) = &batch[i].outcome {
            assert(batch@[i as int].outcome matches Ok(ToolOutput::Report { .. }));
            return true;
        }
        i = i + 1;
    }
    false
}

fn parks(batch: &Vec<BatchItem>, index: usize) -> (r: bool)
    ensures
        r == (index < batch@.len() && batch@[index as int].is_park()),
{
    if index < batch.len() {
        match &batch[index].outcome {
            Ok(ToolOutput::Park { .. }) => true,
            _ => false,
        }
    } else {
        false
    }
}

/// Where settling goes from a stage, by whether its step succeeded. A park is saved
/// whether or not its report was taken; everything else stops at a failure.
pub fn advance_settle(
    stage: SettleStage,
    batch: &Vec<BatchItem>,
    content: bool,
    ok: bool,
) -> (next: SettleStage)
    ensures
        next == settle_after(stage, batch@, content, ok),
{
    let count: usize = batch.len();
    match stage {
        SettleStage::Settled => stage,
        SettleStage::Parked => stage,
        SettleStage::Report { index } => if parks(batch, index) {
            SettleStage::SavePark { index, reported: ok }
        } else if ok {
            SettleStage::SaveReported { index }
        } else {
            SettleStage::Broken
        },
        SettleStage::Append => if ok {
            SettleStage::Complete
        } else {
            SettleStage::Broken
        },
        SettleStage::Complete => if ok {
            SettleStage::StageReports
        } else {
            SettleStage::Broken
        },
        SettleStage::StageReports => if ok {
            SettleStage::ClearExecutions
        } else {
            SettleStage::Broken
        },
        SettleStage::ClearExecutions => if !ok {
            SettleStage::Broken
        } else if content && holds_report(batch) {
            SettleStage::MarkTerminal
        } else {
            SettleStage::Save
        },
        SettleStage::MarkTerminal => if ok {
            SettleStage::Save
        } else {
            SettleStage::Broken
        },
        SettleStage::Save => if !ok {
            SettleStage::Broken
        } else if count > 0 {
            SettleStage::Report { index: 0 }
        } else {
            SettleStage::SaveLast
        },
        SettleStage::SavePark { reported, .. } => if ok && reported {
            SettleStage::Parked
        } else {
            SettleStage::Broken
        },
        SettleStage::SaveReported { index } => if !ok {
            SettleStage::Broken
        } else if index < count && index + 1 < count {
            SettleStage::Report { index: index + 1 }
        } else {
            SettleStage::SaveLast
        },
        SettleStage::SaveLast => if ok {
            SettleStage::Settled
        } else {
            SettleStage::Broken
        },
        SettleStage::Broken => SettleStage::Broken,
    }
}

/// Where settling stands after steps that succeeded or failed as given.
pub open spec fn settle_trace(batch: Seq<BatchItem>, content: bool, oks: Seq<bool>) -> SettleStage
    decreases oks.len(),
{
    if oks.len() == 0 {
        SettleStage::Append
    } else {
        settle_after(
            settle_trace(batch, content, oks.drop_last()),
            batch,
            content,
            oks.last(),
        )
    }
}

/// How many steps make a batch durable.
pub open spec fn durable_steps(batch: Seq<BatchItem>, content: bool) -> int {
    if ends_content(batch, content) {
        6
    } else {
        5
    }
}

/// Whether the first steps of a settlement all succeeded.
pub open spec fn made_durable(batch: Seq<BatchItem>, content: bool, oks: Seq<bool>) -> bool {
    oks.len() >= durable_steps(batch, content) && forall|k: int|
        0 <= k < durable_steps(batch, content) ==> #[trigger] oks[k]
}

proof fn settle_facts(batch: Seq<BatchItem>, content: bool, oks: Seq<bool>)
    requires
        batch.len() <= usize::MAX,
    ensures
        ({
            let n = oks.len();
            let good = forall|k: int| 0 <= k < n ==> #[trigger] oks[k];
            match settle_trace(batch, content, oks) {
                SettleStage::Append => n == 0,
                SettleStage::Complete => n == 1 && good,
                SettleStage::StageReports => n == 2 && good,
                SettleStage::ClearExecutions => n == 3 && good,
                SettleStage::MarkTerminal => n == 4 && good && ends_content(batch, content),
                SettleStage::Save => n == durable_steps(batch, content) - 1 && good,
                SettleStage::Report { index } => made_durable(batch, content, oks) && index
                    < batch.len() && (forall|j: int|
                    0 <= j < index ==> !(#[trigger] batch[j]).is_park()),
                SettleStage::SavePark { index, .. } => made_durable(batch, content, oks) && index
                    < batch.len() && batch[index as int].is_park() && (forall|j: int|
                    0 <= j < index ==> !(#[trigger] batch[j]).is_park()),
                SettleStage::SaveReported { index } => made_durable(batch, content, oks) && index
                    < batch.len() && (forall|j: int|
                    0 <= j <= index ==> !(#[trigger] batch[j]).is_park()),
                SettleStage::SaveLast => made_durable(batch, content, oks) && (forall|j: int|
                    0 <= j < batch.len() ==> !(#[trigger] batch[j]).is_park()),
                SettleStage::Settled => made_durable(batch, content, oks) && (forall|j: int|
                    0 <= j < batch.len() ==> !(#[trigger] batch[j]).is_park()),
                SettleStage::Parked => made_durable(batch, content, oks) && (exists|j: int|
                    0 <= j < batch.len() && (#[trigger] batch[j]).is_park()),
                SettleStage::Broken => true,
            }
        }),
    decreases oks.len(),
{
    if oks.len() > 0 {
        let before = oks.drop_last();
        settle_facts(batch, content, before);
        assert(forall|k: int| 0 <= k < before.len() ==> before[k] == oks[k]);
        assert(made_durable(batch, content, before) ==> made_durable(batch, content, oks));
    }
}

/// A call is reported to governance only once the results and report intents of the
/// whole batch were staged and saved.
pub proof fn batch_is_durable_before_it_is_reported(
    batch: Seq<BatchItem>,
    content: bool,
    oks: Seq<bool>,
)
    requires
        batch.len() <= usize::MAX,
        settle_trace(batch, content, oks) is Report,
    ensures
        made_durable(batch, content, oks),
{
    settle_facts(batch, content, oks);
}

/// A park is saved whether or not governance took its report, so that a resumed run
/// can report it again; the run counts as parked only if governance took it.
pub proof fn park_outlives_its_report(
    batch: Seq<BatchItem>,
    content: bool,
    oks: Seq<bool>,
    index: usize,
    reported: bool,
)
    requires
        index < batch.len(),
        batch[index as int].is_park(),
        settle_trace(batch, content, oks) == (SettleStage::Report { index }),
    ensures
        settle_trace(batch, content, oks.push(reported)) == (SettleStage::SavePark {
            index,
            reported,
        }),
        settle_trace(batch, content, oks.push(reported).push(true)) == if reported {
            SettleStage::Parked
        } else {
            SettleStage::Broken
        },
{
    assert(oks.push(reported).drop_last() =~= oks);
    assert(oks.push(reported).push(true).drop_last() =~= oks.push(reported));
}

/// Nothing behind a park is reported.
pub proof fn nothing_is_reported_behind_a_park(
    batch: Seq<BatchItem>,
    content: bool,
    oks: Seq<bool>,
    index: usize,
    park: int,
)
    requires
        batch.len() <= usize::MAX,
        settle_trace(batch, content, oks) == (SettleStage::Report { index }),
        0 <= park < batch.len(),
        batch[park].is_park(),
    ensures
        index <= park,
{
    settle_facts(batch, content, oks);
}

/// A batch settles without a park, or parks with one.
pub proof fn settled_batch_has_no_park(batch: Seq<BatchItem>, content: bool, oks: Seq<bool>)
    requires
        batch.len() <= usize::MAX,
    ensures
        settle_trace(batch, content, oks) == SettleStage::Settled ==> forall|j: int|
            0 <= j < batch.len() ==> !(#[trigger] batch[j]).is_park(),
        settle_trace(batch, content, oks) == SettleStage::Parked ==> exists|j: int|
            0 <= j < batch.len() && (#[trigger] batch[j]).is_park(),
{
    settle_facts(batch, content, oks);
}

// ---------------------------------------------------------------------------
// Laws of progress
// ---------------------------------------------------------------------------

/// The outcomes of steps that all succeed.
pub open spec fn all_well(n: nat) -> Seq<bool> {
    Seq::new(n, |i: int| true)
}

proof fn all_well_grows(n: nat)
    ensures
        all_well(n + 1).drop_last() == all_well(n),
        all_well(n + 1).last(),
{
    assert(all_well(n + 1).drop_last() =~= all_well(n));
}

/// A batch in which everything succeeds is appended, marked complete, staged for its
/// reports, cleared of its executions, marked terminal where a content run reports, and
/// saved, in this order; the first call is reported next.
pub proof fn batch_is_made_durable_step_by_step(batch: Seq<BatchItem>, content: bool)
    requires
        0 < batch.len() <= usize::MAX,
    ensures
        settle_trace(batch, content, all_well(0)) == SettleStage::Append,
        settle_trace(batch, content, all_well(1)) == SettleStage::Complete,
        settle_trace(batch, content, all_well(2)) == SettleStage::StageReports,
        settle_trace(batch, content, all_well(3)) == SettleStage::ClearExecutions,
        ({
            let reports = exists|i: int|
                0 <= i < batch.len() && ((#[trigger] batch[i]).outcome matches Ok(
                    ToolOutput::Report { .. },
                ));
            if content && reports {
                &&& settle_trace(batch, content, all_well(4)) == SettleStage::MarkTerminal
                &&& settle_trace(batch, content, all_well(5)) == SettleStage::Save
                &&& settle_trace(batch, content, all_well(6)) == (SettleStage::Report { index: 0 })
            } else {
                &&& settle_trace(batch, content, all_well(4)) == SettleStage::Save
                &&& settle_trace(batch, content, all_well(5)) == (SettleStage::Report { index: 0 })
            }
        }),
{
    all_well_grows(0);
    all_well_grows(1);
    all_well_grows(2);
    all_well_grows(3);
    all_well_grows(4);
    all_well_grows(5);
}

/// Each call of a batch is reported in its turn and the run is saved behind each report;
/// behind the last one it is saved once more and the batch is settled.
pub proof fn calls_are_reported_one_by_one(
    batch: Seq<BatchItem>,
    content: bool,
    oks: Seq<bool>,
    index: usize,
)
    requires
        batch.len() <= usize::MAX,
        index < batch.len(),
        !(batch[index as int].outcome matches Ok(ToolOutput::Park { .. })),
        settle_trace(batch, content, oks) == (SettleStage::Report { index }),
    ensures
        settle_trace(batch, content, oks.push(true)) == (SettleStage::SaveReported { index }),
        settle_trace(batch, content, oks.push(false)) == SettleStage::Broken,
        settle_trace(batch, content, oks.push(true).push(false)) == SettleStage::Broken,
        index + 1 < batch.len() ==> settle_trace(batch, content, oks.push(true).push(true)) == (
        SettleStage::Report { index: (index + 1) as usize }),
        index + 1 == batch.len() ==> settle_trace(batch, content, oks.push(true).push(true))
            == SettleStage::SaveLast && settle_trace(
            batch,
            content,
            oks.push(true).push(true).push(true),
        ) == SettleStage::Settled,
{
    let a = oks.push(true);
    let b = a.push(true);
    assert(a.drop_last() =~= oks);
    assert(oks.push(false).drop_last() =~= oks);
    assert(a.push(false).drop_last() =~= a);
    assert(b.drop_last() =~= a);
    assert(b.push(true).drop_last() =~= b);
}

/// A step before the reports that fails ends the batch with its error.
pub proof fn failure_before_the_reports_breaks_the_batch(
    batch: Seq<BatchItem>,
    content: bool,
    oks: Seq<bool>,
)
    requires
        ({
            let stage = settle_trace(batch, content, oks);
            stage == SettleStage::Append || stage == SettleStage::Complete || stage
                == SettleStage::StageReports || stage == SettleStage::ClearExecutions || stage
                == SettleStage::MarkTerminal || stage == SettleStage::Save || stage
                == SettleStage::SaveLast
        }),
    ensures
        settle_trace(batch, content, oks.push(false)) == SettleStage::Broken,
{
    assert(oks.push(false).drop_last() =~= oks);
}

/// A park for an approval behind calls that were done appends their results, marks them
/// complete, stages their reports, clears the staged executions, stages the waiting call
/// again where there is something to report, forms and records the park, and saves it.
pub proof fn park_is_made_durable_step_by_step(plan: ParkPlan)
    requires
        plan.done > 0,
    ensures
        park_trace(plan, all_well(0)) == ParkStage::Append,
        park_trace(plan, all_well(1)) == ParkStage::Complete,
        park_trace(plan, all_well(2)) == ParkStage::StageReports,
        park_trace(plan, all_well(3)) == ParkStage::ClearExecutions,
        plan.reports > 0 ==> {
            &&& park_trace(plan, all_well(4)) == ParkStage::Restage
            &&& park_trace(plan, all_well(5)) == ParkStage::Form
            &&& park_trace(plan, all_well(6)) == ParkStage::Record
            &&& park_trace(plan, all_well(7)) == ParkStage::Save
            &&& park_trace(plan, all_well(8)) == (ParkStage::Report { index: 0 })
        },
        plan.reports == 0 ==> {
            &&& park_trace(plan, all_well(4)) == ParkStage::Form
            &&& park_trace(plan, all_well(5)) == ParkStage::Record
            &&& park_trace(plan, all_well(6)) == ParkStage::Save
            &&& park_trace(plan, all_well(7)) == ParkStage::Announce
            &&& park_trace(plan, all_well(8)) == ParkStage::Parked
        },
{
    all_well_grows(0);
    all_well_grows(1);
    all_well_grows(2);
    all_well_grows(3);
    all_well_grows(4);
    all_well_grows(5);
    all_well_grows(6);
    all_well_grows(7);
}

/// A park with nothing before it is formed, recorded, saved and announced.
pub proof fn first_call_parks_at_once(plan: ParkPlan)
    requires
        plan.done == 0,
        plan.reports == 0,
    ensures
        park_trace(plan, all_well(0)) == ParkStage::Form,
        park_trace(plan, all_well(1)) == ParkStage::Record,
        park_trace(plan, all_well(2)) == ParkStage::Save,
        park_trace(plan, all_well(3)) == ParkStage::Announce,
        park_trace(plan, all_well(4)) == ParkStage::Parked,
{
    all_well_grows(0);
    all_well_grows(1);
    all_well_grows(2);
    all_well_grows(3);
}

/// The calls before a park are reported one by one, and the park is announced behind the
/// last of them; a report that fails ends the batch.
pub proof fn calls_before_a_park_are_reported_one_by_one(
    plan: ParkPlan,
    oks: Seq<bool>,
    index: usize,
)
    requires
        index < plan.reports,
        park_trace(plan, oks) == (ParkStage::Report { index }),
    ensures
        index + 1 < plan.reports ==> park_trace(plan, oks.push(true)) == (ParkStage::Report {
            index: (index + 1) as usize,
        }),
        index + 1 == plan.reports ==> park_trace(plan, oks.push(true)) == ParkStage::Announce
            && park_trace(plan, oks.push(true).push(true)) == ParkStage::Parked,
        park_trace(plan, oks.push(false)) == ParkStage::Broken,
{
    assert(oks.push(true).drop_last() =~= oks);
    assert(oks.push(false).drop_last() =~= oks);
    assert(oks.push(true).push(true).drop_last() =~= oks.push(true));
}

/// What is told of a call is its end, last of all, under the name it is reported by: as a
/// success or a failure as the tool gave it, with the first characters of a text and the
/// whole of anything else; and before that the list of todos where it wrote one.
pub proof fn report_tells_the_outcome(
    item: BatchItem,
    turn: u32,
    content: bool,
    todos: usize,
    r: ReportedCall,
)
    requires
        item.reported_as(turn, content, todos, r),
    ensures
        r.events@.len() > 0,
        r.call_id@ == stable_id(item.call@, turn, item.index as nat),
        ({
            let last = r.events@[r.events@.len() - 1];
            &&& last is ToolEnd
            &&& last->ToolEnd_name@ == r.name@
            &&& last->ok == r.ok
            &&& match item.outcome {
                Ok(ToolOutput::Text(t)) => {
                    &&& r.ok
                    &&& r.name@ == item.call.name@
                    &&& r.hook == ReportHook::PostTool
                    &&& !content ==> r.detail@ == t@
                    &&& last->detail@ == r.detail@.take(
                        if r.detail@.len() <= 500 {
                            r.detail@.len() as int
                        } else {
                            500
                        },
                    )
                    &&& r.events@.len() == 2 <==> item.call.name@ == "todo_write"@
                    &&& item.call.name@ == "todo_write"@ ==> r.events@[0] is TodosUpdated
                        && r.events@[0]->item_count == todos
                },
                Ok(ToolOutput::Report { summary, success }) => {
                    &&& r.ok == success
                    &&& r.name@ == "report"@
                    &&& r.hook == ReportHook::Skip
                    &&& !content ==> r.detail@ == summary@
                    &&& last->detail@ == r.detail@
                    &&& r.events@.len() == 1
                },
                Ok(ToolOutput::Park { reason, .. }) => {
                    &&& !r.ok
                    &&& r.name@ == "escalate"@
                    &&& r.hook == ReportHook::OnPark
                    &&& r.detail@ == "parked: "@ + reason@
                    &&& last->detail@ == r.detail@
                },
                Err(d) => {
                    &&& !r.ok
                    &&& r.name@ == item.call.name@
                    &&& r.hook == ReportHook::PostTool
                    &&& !content ==> r.detail@ == d@
                    &&& last->detail@ == r.detail@
                },
            }
            &&& content && !(item.outcome matches Ok(ToolOutput::Park { .. })) ==> r.detail@
                == item.projected@
        }),
{
    let d = r.detail@;
    if d.len() <= 500 {
        assert(d.take(d.len() as int) =~= d);
    }
    if d.len() >= 500 {
        assert(d.take(500) =~= d.subrange(0, 500));
    }
}

/// A call is started just where it was not answered before, each once and in order.
pub proof fn unanswered_calls_are_started_in_order(
    messages: Seq<ChatMessage>,
    calls: Seq<ToolCall>,
    turn: u32,
    n: int,
)
    requires
        0 <= n <= calls.len(),
    ensures
        forall|k: int|
            0 <= k < unanswered(messages, calls, turn, n).len() ==> 0 <= #[trigger] unanswered(
                messages,
                calls,
                turn,
                n,
            )[k] < n,
        forall|j: int, k: int|
            0 <= j < k < unanswered(messages, calls, turn, n).len() ==> #[trigger] unanswered(
                messages,
                calls,
                turn,
                n,
            )[j] < #[trigger] unanswered(messages, calls, turn, n)[k],
        forall|i: int|
            0 <= i < n ==> (#[trigger] unanswered(messages, calls, turn, n).contains(i) <==> !answered(
                message_views(messages),
                turn,
                calls[i]@,
                i as nat,
            )),
    decreases n,
{
    if n > 0 {
        unanswered_calls_are_started_in_order(messages, calls, turn, n - 1);
        let before = unanswered(messages, calls, turn, n - 1);
        let after = unanswered(messages, calls, turn, n);
        assert forall|i: int| 0 <= i < n implies (#[trigger] after.contains(i) <==> !answered(
            message_views(messages),
            turn,
            calls[i]@,
            i as nat,
        )) by {
            if after != before {
                assert(after == before.push(n - 1));
                assert(after[before.len() as int] == n - 1);
                if i < n - 1 && before.contains(i) {
                    let k = choose|k: int| 0 <= k < before.len() && before[k] == i;
                    assert(after[k] == i);
                }
                if after.contains(i) && i < n - 1 {
                    let k = choose|k: int| 0 <= k < after.len() && after[k] == i;
                    assert(before[k] == i);
                }
            } else if i == n - 1 {
                if after.contains(i) {
                    let k = choose|k: int| 0 <= k < before.len() && before[k] == i;
                    assert(before[k] < n - 1);
                }
            }
        }
    }
}

} // verus!
