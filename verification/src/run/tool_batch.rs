//! Durable execution and reporting of one model-produced tool batch.
use vstd::prelude::*;
use vstd::string::*;

use crate::config::Config;
use crate::model::{ChatMessage, ToolCall};
#[allow(unused_imports)]
use crate::model::{call_views, message_views, ChatMessageView, ToolCallView};
use crate::run::{
    conversation_tool_call_id, stable_tool_call_id, GovernanceError, ParkInfo, ParkKind, RunError,
};
#[allow(unused_imports)]
use crate::run::{conversation_id, stable_id, synthesized_id};
use crate::text::{is_blank, same};
#[allow(unused_imports)]
use crate::text::{blank, decimal, decimal_reads_back, opt_view, texts};

verus! {

/// How many of the first `n` entries equal `id`.
pub open spec fn count_equal(ids: Seq<Seq<char>>, id: Seq<char>, n: int) -> nat
    decreases n,
{
    if n <= 0 || n > ids.len() {
        0
    } else {
        count_equal(ids, id, n - 1) + (if ids[n - 1] == id {
            1nat
        } else {
            0nat
        })
    }
}

/// The ids of a batch of calls.
pub open spec fn call_ids(batch: Seq<ToolCallView>) -> Seq<Seq<char>> {
    Seq::new(batch.len(), |i: int| batch[i].id)
}

/// How many calls before `index` carry the id.
pub open spec fn earlier_same(batch: Seq<ToolCallView>, index: nat, id: Seq<char>) -> nat {
    if index <= batch.len() {
        count_equal(call_ids(batch), id, index as int)
    } else {
        0
    }
}

/// Whether the results answer the call: either its conversation id is among
/// them and no earlier call shares it, or more results carry its id than there
/// are earlier calls with it.
pub open spec fn answers(
    results: Seq<Seq<char>>,
    call: ToolCallView,
    turn: u32,
    index: nat,
    batch: Seq<ToolCallView>,
) -> bool {
    ||| results.contains(conversation_id(call, turn, index)) && (call.id.len() == 0 || earlier_same(
        batch,
        index,
        call.id,
    ) == 0)
    ||| count_equal(results, call.id, results.len() as int) > earlier_same(batch, index, call.id)
}

fn count_ids(ids: &Vec<String>, id: &str) -> (n: usize)
    ensures
        n == count_equal(texts(ids@), id@, ids@.len() as int),
{
    let mut n: usize = 0;
    let mut i: usize = 0;
    while i < ids.len()
        invariant
            i <= ids@.len(),
            n <= i,
            n == count_equal(texts(ids@), id@, i as int),
        decreases ids@.len() - i,
    {
        if same(ids[i].as_str(), id) {
            n = n + 1;
        }
        i = i + 1;
    }
    n
}

fn holds_id(ids: &Vec<String>, id: &str) -> (r: bool)
    ensures
        r == texts(ids@).contains(id@),
{
    let mut i: usize = 0;
    while i < ids.len()
        invariant
            i <= ids@.len(),
            forall|j: int| 0 <= j < i ==> texts(ids@)[j] != id@,
        decreases ids@.len() - i,
    {
        if same(ids[i].as_str(), id) {
            assert(texts(ids@)[i as int] == id@);
            return true;
        }
        i = i + 1;
    }
    false
}

/// How many calls before `index` carry the id.
pub fn batch_occurrences_before(batch: &Vec<ToolCall>, index: usize, id: &str) -> (n: usize)
    ensures
        n == earlier_same(call_views(batch@), index as nat, id@),
{
    if index > batch.len() {
        return 0;
    }
    let mut n: usize = 0;
    let mut i: usize = 0;
    while i < index
        invariant
            i <= index <= batch@.len(),
            n <= i,
            n == count_equal(call_ids(call_views(batch@)), id@, i as int),
        decreases index - i,
    {
        if same(batch[i].id.as_str(), id) {
            n = n + 1;
        }
        i = i + 1;
    }
    n
}

/// Match persisted tool results to a batch call. Accepts the synthesized
/// conversation id and the empty ids of older checkpoints.
pub fn tool_result_answers_call(
    results: &Vec<String>,
    call: &ToolCall,
    turn: u32,
    index: usize,
    batch: &Vec<ToolCall>,
) -> (r: bool)
    ensures
        r == answers(texts(results@), call@, turn, index as nat, call_views(batch@)),
{
    let own = conversation_tool_call_id(call, turn, index);
    let earlier = batch_occurrences_before(batch, index, call.id.as_str());
    if holds_id(results, own.as_str()) && (call.id.as_str().is_empty() || earlier == 0) {
        return true;
    }
    let matching = count_ids(results, call.id.as_str());
    matching > earlier
}

/// The index of the last message of a role, before `n`.
pub open spec fn last_of_role(m: Seq<ChatMessageView>, role: Seq<char>, n: int) -> int
    decreases n,
{
    if n <= 0 || n > m.len() {
        -1
    } else if m[n - 1].role == role {
        n - 1
    } else {
        last_of_role(m, role, n - 1)
    }
}

/// The call ids of the tool results among the messages from `i` on.
pub open spec fn result_ids(m: Seq<ChatMessageView>, i: int) -> Seq<Seq<char>>
    decreases m.len() - i,
{
    if i < 0 || i >= m.len() {
        Seq::empty()
    } else if m[i].role == "tool"@ {
        seq![m[i].tool_call_id] + result_ids(m, i + 1)
    } else {
        result_ids(m, i + 1)
    }
}

/// Whether a call of the last assistant message has its result already.
pub open spec fn answered(
    m: Seq<ChatMessageView>,
    turn: u32,
    call: ToolCallView,
    index: nat,
) -> bool {
    let a = last_of_role(m, "assistant"@, m.len() as int);
    a >= 0 && answers(result_ids(m, a + 1), call, turn, index, m[a].tool_calls)
}

proof fn last_of_role_bounds(m: Seq<ChatMessageView>, role: Seq<char>, n: int)
    requires
        0 <= n <= m.len(),
    ensures
        -1 <= last_of_role(m, role, n) < n || (n == 0 && last_of_role(m, role, n) == -1),
        last_of_role(m, role, n) >= 0 ==> m[last_of_role(m, role, n)].role == role,
        forall|j: int| last_of_role(m, role, n) < j < n ==> (#[trigger] m[j]).role != role,
    decreases n,
{
    if n > 0 && m[n - 1].role != role {
        last_of_role_bounds(m, role, n - 1);
    }
}

/// The index of the last message of a role.
pub(crate) fn find_last_of_role(messages: &Vec<ChatMessage>, role: &str) -> (r: Option<usize>)
    ensures
        match r {
            Some(i) => i < messages@.len() && last_of_role(
                message_views(messages@),
                role@,
                messages@.len() as int,
            ) == i && messages@[i as int].role@ == role@,
            None => last_of_role(message_views(messages@), role@, messages@.len() as int) == -1,
        },
{
    let ghost m = message_views(messages@);
    let mut n: usize = messages.len();
    while n > 0
        invariant
            n <= messages@.len(),
            m == message_views(messages@),
            last_of_role(m, role@, messages@.len() as int) == last_of_role(m, role@, n as int),
        decreases n,
    {
        if same(messages[n - 1].role.as_str(), role) {
            return Some(n - 1);
        }
        n = n - 1;
    }
    None
}

/// The call ids of the tool results among the messages from `from` on.
pub(crate) fn collect_result_ids(messages: &Vec<ChatMessage>, from: usize) -> (r: Vec<String>)
    requires
        from <= messages@.len(),
    ensures
        texts(r@) == result_ids(message_views(messages@), from as int),
{
    let ghost m = message_views(messages@);
    let mut out: Vec<String> = Vec::new();
    let mut i: usize = from;
    assert(texts(out@) + result_ids(m, from as int) =~= result_ids(m, from as int));
    while i < messages.len()
        invariant
            from <= i <= messages@.len(),
            m == message_views(messages@),
            texts(out@) + result_ids(m, i as int) == result_ids(m, from as int),
        decreases messages@.len() - i,
    {
        let ghost before = out@;
        if same(messages[i].role.as_str(), "tool") {
            let id = messages[i].tool_call_id.clone();
            out.push(id);
            assert(texts(out@) =~= texts(before) + seq![m[i as int].tool_call_id]);
            assert(texts(out@) + result_ids(m, i + 1) =~= texts(before) + (seq![
                m[i as int].tool_call_id,
            ] + result_ids(m, i + 1)));
        }
        i = i + 1;
    }
    assert(texts(out@) =~= texts(out@) + result_ids(m, messages@.len() as int));
    out
}

/// Whether a call of the last assistant message has its result already.
pub fn already_answered(
    messages: &Vec<ChatMessage>,
    turn: u32,
    call: &ToolCall,
    index: usize,
) -> (r: bool)
    ensures
        r == answered(message_views(messages@), turn, call@, index as nat),
{
    let count: usize = messages.len();
    match find_last_of_role(messages, "assistant") {
        None => false,
        Some(a) => {
            assert(a < count);
            let results = collect_result_ids(messages, a + 1);
            tool_result_answers_call(&results, call, turn, index, &messages[a].tool_calls)
        },
    }
}

// ---------------------------------------------------------------------------
// Laws of answering
// ---------------------------------------------------------------------------

/// The result ids that a batch leaves behind once its first `n` calls are done.
pub open spec fn ids_of_results(batch: Seq<ToolCallView>, turn: u32, n: nat) -> Seq<Seq<char>> {
    Seq::new(n, |i: int| conversation_id(batch[i], turn, i as nat))
}

proof fn count_monotone(ids: Seq<Seq<char>>, id: Seq<char>, a: int, b: int)
    requires
        0 <= a <= b <= ids.len(),
    ensures
        count_equal(ids, id, a) <= count_equal(ids, id, b),
    decreases b,
{
    if a < b {
        count_monotone(ids, id, a, b - 1);
    }
}

/// As long as the ids agree wherever `from` carries the id, `to` carries it at
/// least as often.
proof fn count_dominates(from: Seq<Seq<char>>, to: Seq<Seq<char>>, id: Seq<char>, n: int)
    requires
        0 <= n <= from.len(),
        n <= to.len(),
        forall|i: int| 0 <= i < n && #[trigger] from[i] == id ==> to[i] == id,
    ensures
        count_equal(from, id, n) <= count_equal(to, id, n),
    decreases n,
{
    if n > 0 {
        count_dominates(from, to, id, n - 1);
    }
}

/// Once every call of a batch has left its result, every call is answered, also
/// where a provider reused an id or left ids empty.
pub proof fn completed_batch_is_answered(batch: Seq<ToolCallView>, turn: u32, index: nat)
    requires
        index < batch.len(),
    ensures
        answers(ids_of_results(batch, turn, batch.len()), batch[index as int], turn, index, batch),
{
    let results = ids_of_results(batch, turn, batch.len());
    let call = batch[index as int];
    assert(results[index as int] == conversation_id(call, turn, index));
    if call.id.len() > 0 {
        let ids = call_ids(batch);
        assert forall|i: int| 0 <= i < batch.len() && #[trigger] ids[i] == call.id implies results[i]
            == call.id by {
            assert(batch[i].id.len() > 0);
        }
        count_dominates(ids, results, call.id, batch.len() as int);
        count_monotone(ids, call.id, index as int + 1, batch.len() as int);
        assert(count_equal(ids, call.id, index as int + 1) == count_equal(ids, call.id, index as int) + 1);
    }
}

/// Synthesized ids of one turn differ from each other.
pub proof fn synthesized_ids_differ(turn: u32, i: nat, j: nat)
    requires
        synthesized_id(turn, i) == synthesized_id(turn, j),
    ensures
        i == j,
{
    let head = "tool-"@ + decimal(turn as nat) + "-"@;
    assert(synthesized_id(turn, i).skip(head.len() as int) =~= decimal(i));
    assert(synthesized_id(turn, j).skip(head.len() as int) =~= decimal(j));
    decimal_reads_back(i);
    decimal_reads_back(j);
}

proof fn synthesized_id_not_empty(turn: u32, i: nat)
    ensures
        synthesized_id(turn, i).len() > 0,
{
    reveal_strlit("tool-");
}

proof fn count_same(a: Seq<Seq<char>>, b: Seq<Seq<char>>, id: Seq<char>, n: int)
    requires
        0 <= n <= a.len(),
        n <= b.len(),
        forall|i: int| 0 <= i < n ==> (#[trigger] a[i] == id <==> b[i] == id),
    ensures
        count_equal(a, id, n) == count_equal(b, id, n),
    decreases n,
{
    if n > 0 {
        count_same(a, b, id, n - 1);
    }
}

proof fn count_none(a: Seq<Seq<char>>, id: Seq<char>, n: int)
    requires
        0 <= n <= a.len(),
        count_equal(a, id, n) == 0,
    ensures
        forall|i: int| 0 <= i < n ==> #[trigger] a[i] != id,
    decreases n,
{
    if n > 0 {
        count_none(a, id, n - 1);
    }
}

proof fn count_absent(a: Seq<Seq<char>>, id: Seq<char>, n: int)
    requires
        0 <= n <= a.len(),
        forall|i: int| 0 <= i < n ==> #[trigger] a[i] != id,
    ensures
        count_equal(a, id, n) == 0,
    decreases n,
{
    if n > 0 {
        count_absent(a, id, n - 1);
    }
}

/// While only the first `done` calls of a batch have left results, the next call
/// is not answered, as long as no provider id looks like a synthesized one.
pub proof fn unfinished_batch_is_not_answered(batch: Seq<ToolCallView>, turn: u32, done: nat)
    requires
        done < batch.len(),
        forall|i: int, j: nat|
            0 <= i < batch.len() && j < batch.len() ==> (#[trigger] batch[i]).id
                != #[trigger] synthesized_id(turn, j),
    ensures
        !answers(ids_of_results(batch, turn, done), batch[done as int], turn, done, batch),
{
    let results = ids_of_results(batch, turn, done);
    let call = batch[done as int];
    let ids = call_ids(batch);
    if call.id.len() > 0 {
        assert forall|i: int| 0 <= i < done implies (#[trigger] results[i] == call.id <==> ids[i]
            == call.id) by {
            if batch[i].id.len() == 0 {
                assert(results[i] == synthesized_id(turn, i as nat));
                assert(batch[done as int].id != synthesized_id(turn, i as nat));
            }
        }
        count_same(results, ids, call.id, done as int);
        if results.contains(call.id) && earlier_same(batch, done, call.id) == 0 {
            count_none(results, call.id, done as int);
            let i = choose|i: int| 0 <= i < results.len() && results[i] == call.id;
            assert(results[i] != call.id);
        }
    } else {
        let own = synthesized_id(turn, done);
        if results.contains(own) {
            let i = choose|i: int| 0 <= i < results.len() && results[i] == own;
            if batch[i].id.len() == 0 {
                synthesized_ids_differ(turn, i as nat, done);
            } else {
                assert(batch[i].id != synthesized_id(turn, done));
            }
        }
        assert forall|i: int| 0 <= i < done implies #[trigger] results[i] != call.id by {
            synthesized_id_not_empty(turn, i as nat);
        }
        count_absent(results, call.id, done as int);
    }
}

// ---------------------------------------------------------------------------
// Planning a batch
// ---------------------------------------------------------------------------

/// What the host knows of one call's tool.
#[derive(Debug, Clone, Copy, PartialEq, Eq, Structural)]
pub struct CallTraits {
    /// The tool only reads and may run beside others.
    pub parallel_safe: bool,
    /// A replay must not run the tool.
    pub replay_denied: bool,
    /// Governance wants the execution checkpointed.
    pub checkpointed: bool,
}

/// How a batch is carried out.
#[derive(Debug)]
pub enum BatchPlan {
    /// Governance forbids the batch.
    Denied(String),
    /// The batch is answered without running anything.
    Rejected(Vec<ChatMessage>),
    /// One call after the other.
    Serial,
    /// All calls at once, up to the concurrency limit.
    Parallel,
}

/// Whether a tool has to be the only call of its batch.
pub open spec fn exclusive(name: Seq<char>) -> bool {
    name == "report"@ || name == "escalate"@
}

/// What a rejected call is answered.
pub open spec fn rejection(
    call: ToolCallView,
    turn: u32,
    index: nat,
    content: bool,
) -> ChatMessageView {
    ChatMessageView {
        role: "tool"@,
        content: if content {
            Seq::empty()
        } else {
            "tool batch rejected: report/escalate must be the only call"@
        },
        tool_call_id: if content {
            conversation_id(call, turn, index)
        } else {
            call.id
        },
        tool_calls: Seq::empty(),
    }
}

/// The index of the first call that a replay must not run, from `i` on.
pub open spec fn first_denied(traits: Seq<CallTraits>, i: int) -> int
    decreases traits.len() - i,
{
    if 0 <= i < traits.len() && !traits[i].replay_denied {
        first_denied(traits, i + 1)
    } else {
        i
    }
}

/// What a batch is planned from.
pub struct BatchContext {
    pub turn: u32,
    /// A content run, whose conversation text is kept outside the messages.
    pub content: bool,
    pub replay: bool,
    pub concurrency: u32,
    /// Hooks on single calls or on parking are configured.
    pub serial_hooks: bool,
}

/// Whether all calls of a batch may run at once.
pub open spec fn parallel(
    calls: Seq<ToolCallView>,
    traits: Seq<CallTraits>,
    ctx: BatchContext,
) -> bool {
    &&& ctx.concurrency > 1
    &&& !ctx.serial_hooks
    &&& calls.len() > 1
    &&& forall|i: int|
        0 <= i < traits.len() ==> (#[trigger] traits[i]).parallel_safe && !traits[i].checkpointed
}

pub open spec fn names_any(calls: Seq<ToolCallView>, name: Seq<char>) -> bool {
    exists|i: int| 0 <= i < calls.len() && (#[trigger] calls[i]).name == name
}

pub open spec fn any_exclusive(calls: Seq<ToolCallView>) -> bool {
    exists|i: int| 0 <= i < calls.len() && exclusive((#[trigger] calls[i]).name)
}

/// Whether a plan is the one that the batch has: parking and replay rules deny
/// first, a mixed exclusive batch is rejected, and only read-only batches run in
/// parallel.
pub open spec fn plan_of(
    calls: Seq<ToolCallView>,
    traits: Seq<CallTraits>,
    ctx: BatchContext,
    plan: BatchPlan,
) -> bool {
    if ctx.content && names_any(calls, "escalate"@) {
        plan matches BatchPlan::Denied(m) && m@ == "bounded content runs do not support parking"@
    } else if ctx.replay && first_denied(traits, 0) < traits.len() {
        plan matches BatchPlan::Denied(m) && m@
            == "replay forbids effect-capable or unknown tool `"@ + calls[first_denied(
            traits,
            0,
        )].name + "`"@
    } else if any_exclusive(calls) && calls.len() != 1 {
        plan matches BatchPlan::Rejected(v) && message_views(v@) == Seq::new(
            calls.len(),
            |i: int| rejection(calls[i], ctx.turn, i as nat, ctx.content),
        )
    } else if parallel(calls, traits, ctx) {
        plan is Parallel
    } else {
        plan is Serial
    }
}

/// Whether hooks of a kind watch single calls, so that calls come one after the other.
pub open spec fn watches_calls(event: Seq<char>) -> bool {
    event == "pre_tool"@ || event == "post_tool"@ || event == "on_park"@
}

/// Whether a configuration has hooks that watch single calls.
pub fn hooks_need_serial(config: &Config) -> (r: bool)
    ensures
        r == (exists|i: int|
            0 <= i < config.hooks@.len() && watches_calls((#[trigger] config.hooks@[i]).event@)),
{
    let mut i: usize = 0;
    while i < config.hooks.len()
        invariant
            i <= config.hooks@.len(),
            forall|j: int|
                0 <= j < i ==> !watches_calls((#[trigger] config.hooks@[j]).event@),
        decreases config.hooks@.len() - i,
    {
        let event = config.hooks[i].event.as_str();
        if same(event, "pre_tool") || same(event, "post_tool") || same(event, "on_park") {
            assert(watches_calls(config.hooks@[i as int].event@));
            return true;
        }
        i = i + 1;
    }
    false
}

fn any_named(calls: &Vec<ToolCall>, name: &str) -> (r: bool)
    ensures
        r == names_any(call_views(calls@), name@),
{
    let mut i: usize = 0;
    while i < calls.len()
        invariant
            i <= calls@.len(),
            forall|j: int| 0 <= j < i ==> (#[trigger] call_views(calls@)[j]).name != name@,
        decreases calls@.len() - i,
    {
        if same(calls[i].name.as_str(), name) {
            assert(call_views(calls@)[i as int].name == name@);
            return true;
        }
        i = i + 1;
    }
    false
}

fn reject_all(calls: &Vec<ToolCall>, turn: u32, content: bool) -> (v: Vec<ChatMessage>)
    ensures
        message_views(v@) == Seq::new(
            calls@.len(),
            |i: int| rejection(call_views(calls@)[i], turn, i as nat, content),
        ),
{
    let ghost all = Seq::new(
        calls@.len(),
        |i: int| rejection(call_views(calls@)[i], turn, i as nat, content),
    );
    let mut v: Vec<ChatMessage> = Vec::new();
    let mut i: usize = 0;
    while i < calls.len()
        invariant
            i <= calls@.len(),
            all == Seq::new(
                calls@.len(),
                |i: int| rejection(call_views(calls@)[i], turn, i as nat, content),
            ),
            message_views(v@) =~= all.take(i as int),
        decreases calls@.len() - i,
    {
        let message = if content {
            tool_message(conversation_tool_call_id(&calls[i], turn, i), String::new())
        } else {
            tool_message(
                calls[i].id.clone(),
                "tool batch rejected: report/escalate must be the only call".to_owned(),
            )
        };
        let ghost before = v@;
        v.push(message);
        assert(message@ =~= all[i as int]);
        i = i + 1;
        assert(message_views(v@) =~= message_views(before).push(message@));
        assert(all.take(i as int) =~= all.take(i - 1).push(all[i - 1]));
    }
    assert(all.take(all.len() as int) =~= all);
    v
}

fn tool_message(tool_call_id: String, content: String) -> (m: ChatMessage)
    ensures
        m@ == (ChatMessageView {
            role: "tool"@,
            content: content@,
            tool_call_id: tool_call_id@,
            tool_calls: Seq::empty(),
        }),
{
    let m = ChatMessage { role: "tool".to_owned(), content, tool_call_id, tool_calls: Vec::new() };
    assert(call_views(m.tool_calls@) =~= Seq::<ToolCallView>::empty());
    m
}

/// How a batch is carried out.
pub fn plan_batch(calls: &Vec<ToolCall>, traits: &Vec<CallTraits>, ctx: &BatchContext) -> (plan:
    BatchPlan)
    requires
        traits@.len() == calls@.len(),
    ensures
        plan_of(call_views(calls@), traits@, *ctx, plan),
{
    let ghost views = call_views(calls@);
    if ctx.content && any_named(calls, "escalate") {
        return BatchPlan::Denied("bounded content runs do not support parking".to_owned());
    }
    if ctx.replay {
        let mut i: usize = 0;
        while i < traits.len() && !traits[i].replay_denied
            invariant
                i <= traits@.len(),
                first_denied(traits@, 0) == first_denied(traits@, i as int),
            decreases traits@.len() - i,
        {
            i = i + 1;
        }
        if i < traits.len() {
            let mut m = "replay forbids effect-capable or unknown tool `".to_owned();
            m.append(calls[i].name.as_str());
            m.append("`");
            return BatchPlan::Denied(m);
        }
    }
    let report = any_named(calls, "report");
    let escalate = any_named(calls, "escalate");
    proof {
        if names_any(views, "report"@) {
            let i = choose|i: int| 0 <= i < views.len() && (#[trigger] views[i]).name == "report"@;
            assert(exclusive(views[i].name));
        }
        if names_any(views, "escalate"@) {
            let i = choose|i: int|
                0 <= i < views.len() && (#[trigger] views[i]).name == "escalate"@;
            assert(exclusive(views[i].name));
        }
        if any_exclusive(views) {
            let i = choose|i: int| 0 <= i < views.len() && exclusive((#[trigger] views[i]).name);
            assert(views[i].name == "report"@ || views[i].name == "escalate"@);
        }
    }
    if (report || escalate) && calls.len() != 1 {
        return BatchPlan::Rejected(reject_all(calls, ctx.turn, ctx.content));
    }
    if ctx.concurrency > 1 && !ctx.serial_hooks && calls.len() > 1 && all_read_only(traits) {
        BatchPlan::Parallel
    } else {
        BatchPlan::Serial
    }
}

fn all_read_only(traits: &Vec<CallTraits>) -> (r: bool)
    ensures
        r == (forall|i: int|
            0 <= i < traits@.len() ==> (#[trigger] traits@[i]).parallel_safe
                && !traits@[i].checkpointed),
{
    let mut i: usize = 0;
    while i < traits.len()
        invariant
            i <= traits@.len(),
            forall|j: int|
                0 <= j < i ==> (#[trigger] traits@[j]).parallel_safe && !traits@[j].checkpointed,
        decreases traits@.len() - i,
    {
        if !traits[i].parallel_safe || traits[i].checkpointed {
            assert(!(traits@[i as int].parallel_safe && !traits@[i as int].checkpointed));
            return false;
        }
        i = i + 1;
    }
    true
}

// ---------------------------------------------------------------------------
// Carrying out one call
// ---------------------------------------------------------------------------

/// Where the host stands with one call of a serial batch.
#[derive(Debug, Clone, Copy, PartialEq, Eq, Structural)]
pub enum CallStage {
    /// Check the run's bounds.
    Bounds,
    /// Run the pre-tool hooks on the exact arguments.
    Hook,
    /// Stage the execution intent and save the checkpoint.
    Stage,
    /// Ask governance.
    Authorize,
    /// Clear the approval park of this call, then record the failure.
    ClearThenFail,
    /// Clear the approval park of this call, then go on.
    ClearThenGo,
    /// Mark the execution started and save the checkpoint.
    Start,
    /// Run the tool.
    Execute,
    /// Record the tool's own outcome.
    Record,
    /// Record a failure without running the tool.
    Fail,
    /// Persist what is done and park the run for approval.
    Park,
    /// End the batch with the error.
    Abort,
}

/// What the host learned by doing what the stage asks. `parked` tells whether an
/// approval park is recorded for this very call.
#[derive(Debug, Clone, Copy, PartialEq, Eq, Structural)]
pub enum CallSignal {
    WithinBounds,
    HookPassed,
    HookFailed { parked: bool },
    Staged,
    Authorized { parked: bool },
    NeedsApproval,
    Denied { parked: bool },
    AuthorizationFailed { parked: bool },
    ParkCleared,
    Started,
    Executed,
    /// An outside step failed in a way that ends the batch.
    Broken,
}

/// Where the call goes from a stage.
pub open spec fn next_stage(stage: CallStage, checkpointed: bool, signal: CallSignal) -> CallStage {
    match (stage, signal) {
        (CallStage::Bounds, CallSignal::WithinBounds) => CallStage::Hook,
        (CallStage::Hook, CallSignal::HookPassed) => if checkpointed {
            CallStage::Stage
        } else {
            CallStage::Authorize
        },
        (CallStage::Hook, CallSignal::HookFailed { parked }) => if parked {
            CallStage::ClearThenFail
        } else {
            CallStage::Fail
        },
        (CallStage::Stage, CallSignal::Staged) => CallStage::Authorize,
        (CallStage::Authorize, CallSignal::NeedsApproval) => CallStage::Park,
        (CallStage::Authorize, CallSignal::Denied { parked }) => if parked {
            CallStage::ClearThenFail
        } else {
            CallStage::Fail
        },
        (CallStage::Authorize, CallSignal::AuthorizationFailed { parked }) => if parked {
            CallStage::Abort
        } else {
            CallStage::Fail
        },
        (CallStage::Authorize, CallSignal::Authorized { parked }) => if parked {
            CallStage::ClearThenGo
        } else if checkpointed {
            CallStage::Start
        } else {
            CallStage::Execute
        },
        (CallStage::ClearThenFail, CallSignal::ParkCleared) => CallStage::Fail,
        (CallStage::ClearThenGo, CallSignal::ParkCleared) => if checkpointed {
            CallStage::Start
        } else {
            CallStage::Execute
        },
        (CallStage::Start, CallSignal::Started) => CallStage::Execute,
        (CallStage::Execute, CallSignal::Executed) => CallStage::Record,
        _ => CallStage::Abort,
    }
}

/// Where the call goes from a stage. A signal that does not belong to the stage
/// ends the batch.
pub fn advance(stage: CallStage, checkpointed: bool, signal: CallSignal) -> (next: CallStage)
    ensures
        next == next_stage(stage, checkpointed, signal),
{
    match (stage, signal) {
        (CallStage::Bounds, CallSignal::WithinBounds) => CallStage::Hook,
        (CallStage::Hook, CallSignal::HookPassed) => if checkpointed {
            CallStage::Stage
        } else {
            CallStage::Authorize
        },
        (CallStage::Hook, CallSignal::HookFailed { parked }) => if parked {
            CallStage::ClearThenFail
        } else {
            CallStage::Fail
        },
        (CallStage::Stage, CallSignal::Staged) => CallStage::Authorize,
        (CallStage::Authorize, CallSignal::NeedsApproval) => CallStage::Park,
        (CallStage::Authorize, CallSignal::Denied { parked }) => if parked {
            CallStage::ClearThenFail
        } else {
            CallStage::Fail
        },
        (CallStage::Authorize, CallSignal::AuthorizationFailed { parked }) => if parked {
            CallStage::Abort
        } else {
            CallStage::Fail
        },
        (CallStage::Authorize, CallSignal::Authorized { parked }) => if parked {
            CallStage::ClearThenGo
        } else if checkpointed {
            CallStage::Start
        } else {
            CallStage::Execute
        },
        (CallStage::ClearThenFail, CallSignal::ParkCleared) => CallStage::Fail,
        (CallStage::ClearThenGo, CallSignal::ParkCleared) => if checkpointed {
            CallStage::Start
        } else {
            CallStage::Execute
        },
        (CallStage::Start, CallSignal::Started) => CallStage::Execute,
        (CallStage::Execute, CallSignal::Executed) => CallStage::Record,
        _ => CallStage::Abort,
    }
}

/// The stage that a sequence of signals leads to.
pub open spec fn stage_after(checkpointed: bool, signals: Seq<CallSignal>) -> CallStage
    decreases signals.len(),
{
    if signals.len() == 0 {
        CallStage::Bounds
    } else {
        next_stage(stage_after(checkpointed, signals.drop_last()), checkpointed, signals.last())
    }
}

/// Whether governance authorized the call along the way.
pub open spec fn was_authorized(signals: Seq<CallSignal>) -> bool {
    exists|i: int| 0 <= i < signals.len() && (#[trigger] signals[i]) is Authorized
}

/// What has to have happened before a stage is reached.
spec fn history(stage: CallStage, checkpointed: bool, signals: Seq<CallSignal>) -> bool {
    match stage {
        CallStage::Bounds => true,
        CallStage::Hook => signals.contains(CallSignal::WithinBounds),
        CallStage::Stage => signals.contains(CallSignal::WithinBounds) && signals.contains(
            CallSignal::HookPassed,
        ) && checkpointed,
        CallStage::Authorize => signals.contains(CallSignal::WithinBounds) && signals.contains(
            CallSignal::HookPassed,
        ) && (checkpointed ==> signals.contains(CallSignal::Staged)),
        CallStage::ClearThenGo => signals.contains(CallSignal::WithinBounds) && signals.contains(
            CallSignal::HookPassed,
        ) && (checkpointed ==> signals.contains(CallSignal::Staged)) && was_authorized(signals),
        CallStage::Start => signals.contains(CallSignal::WithinBounds) && signals.contains(
            CallSignal::HookPassed,
        ) && checkpointed && signals.contains(CallSignal::Staged) && was_authorized(signals),
        CallStage::Execute | CallStage::Record => signals.contains(CallSignal::WithinBounds)
            && signals.contains(CallSignal::HookPassed) && was_authorized(signals) && (checkpointed
            ==> signals.contains(CallSignal::Staged) && signals.contains(CallSignal::Started)),
        _ => true,
    }
}

proof fn contains_grows(signals: Seq<CallSignal>, x: CallSignal)
    requires
        signals.len() > 0,
        signals.drop_last().contains(x),
    ensures
        signals.contains(x),
{
    let i = choose|i: int| 0 <= i < signals.drop_last().len() && signals.drop_last()[i] == x;
    assert(signals[i] == x);
}

proof fn history_holds(checkpointed: bool, signals: Seq<CallSignal>)
    ensures
        history(stage_after(checkpointed, signals), checkpointed, signals),
    decreases signals.len(),
{
    if signals.len() > 0 {
        let rest = signals.drop_last();
        history_holds(checkpointed, rest);
        assert(signals.contains(signals.last())) by {
            assert(signals[signals.len() - 1] == signals.last());
        }
        if rest.contains(CallSignal::WithinBounds) {
            contains_grows(signals, CallSignal::WithinBounds);
        }
        if rest.contains(CallSignal::HookPassed) {
            contains_grows(signals, CallSignal::HookPassed);
        }
        if rest.contains(CallSignal::Staged) {
            contains_grows(signals, CallSignal::Staged);
        }
        if rest.contains(CallSignal::Started) {
            contains_grows(signals, CallSignal::Started);
        }
        if was_authorized(rest) {
            let i = choose|i: int| 0 <= i < rest.len() && (#[trigger] rest[i]) is Authorized;
            assert(signals[i] is Authorized);
        }
        if signals.last() is Authorized {
            assert(signals[signals.len() - 1] is Authorized);
        }
    }
}

/// A tool runs only within the run's bounds, after its hooks passed and after
/// governance authorized it; where its execution is checkpointed, only once the
/// intent was staged and the start was marked.
pub proof fn tool_runs_only_when_authorized(checkpointed: bool, signals: Seq<CallSignal>)
    requires
        stage_after(checkpointed, signals) == CallStage::Execute,
    ensures
        signals.contains(CallSignal::WithinBounds),
        signals.contains(CallSignal::HookPassed),
        was_authorized(signals),
        checkpointed ==> signals.contains(CallSignal::Staged) && signals.contains(
            CallSignal::Started,
        ),
{
    history_holds(checkpointed, signals);
}

/// What happens to a call that is authorized, up to its execution: the bounds and the
/// hooks pass, its intent is staged where executions are checkpointed, governance
/// authorizes it, the park it waited in is cleared, and its start is marked.
pub open spec fn way_to_execution(checkpointed: bool, parked: bool) -> Seq<CallSignal> {
    seq![CallSignal::WithinBounds, CallSignal::HookPassed] + (if checkpointed {
        seq![CallSignal::Staged]
    } else {
        Seq::empty()
    }) + seq![CallSignal::Authorized { parked }] + (if parked {
        seq![CallSignal::ParkCleared]
    } else {
        Seq::empty()
    }) + (if checkpointed {
        seq![CallSignal::Started]
    } else {
        Seq::empty()
    })
}

/// What happens to a call up to its authorization.
pub open spec fn way_to_authorization(checkpointed: bool) -> Seq<CallSignal> {
    seq![CallSignal::WithinBounds, CallSignal::HookPassed] + (if checkpointed {
        seq![CallSignal::Staged]
    } else {
        Seq::empty()
    })
}

proof fn steps_of_signals(checkpointed: bool, signals: Seq<CallSignal>, last: CallSignal)
    ensures
        stage_after(checkpointed, signals.push(last)) == next_stage(
            stage_after(checkpointed, signals),
            checkpointed,
            last,
        ),
{
    assert(signals.push(last).drop_last() =~= signals);
}

proof fn authorization_is_reached(checkpointed: bool)
    ensures
        stage_after(checkpointed, way_to_authorization(checkpointed)) == CallStage::Authorize,
{
    let none = Seq::<CallSignal>::empty();
    let one = none.push(CallSignal::WithinBounds);
    let two = one.push(CallSignal::HookPassed);
    steps_of_signals(checkpointed, none, CallSignal::WithinBounds);
    steps_of_signals(checkpointed, one, CallSignal::HookPassed);
    if checkpointed {
        steps_of_signals(checkpointed, two, CallSignal::Staged);
        assert(way_to_authorization(checkpointed) =~= two.push(CallSignal::Staged));
    } else {
        assert(way_to_authorization(checkpointed) =~= two);
    }
}

/// An authorized call is run and its output recorded: nothing but bounds, hooks, staging,
/// authorization, the cleared park and the marked start stands before it.
pub proof fn authorized_call_is_run_and_recorded(checkpointed: bool, parked: bool)
    ensures
        stage_after(checkpointed, way_to_execution(checkpointed, parked)) == CallStage::Execute,
        stage_after(
            checkpointed,
            way_to_execution(checkpointed, parked).push(CallSignal::Executed),
        ) == CallStage::Record,
{
    authorization_is_reached(checkpointed);
    let at = way_to_authorization(checkpointed);
    let sent = at.push(CallSignal::Authorized { parked });
    steps_of_signals(checkpointed, at, CallSignal::Authorized { parked });
    let cleared = if parked {
        sent.push(CallSignal::ParkCleared)
    } else {
        sent
    };
    steps_of_signals(checkpointed, sent, CallSignal::ParkCleared);
    let started = if checkpointed {
        cleared.push(CallSignal::Started)
    } else {
        cleared
    };
    steps_of_signals(checkpointed, cleared, CallSignal::Started);
    assert(way_to_execution(checkpointed, parked) =~= started);
    steps_of_signals(checkpointed, started, CallSignal::Executed);
}

/// A call that the hooks or governance refuse fails, once the park it waited in is
/// cleared; one that needs an approval parks; an authorization that broke for a parked
/// call ends the batch.
pub proof fn refused_call_fails_or_parks(checkpointed: bool)
    ensures
        ({
            let hooked = seq![CallSignal::WithinBounds];
            let at = way_to_authorization(checkpointed);
            &&& stage_after(checkpointed, hooked.push(CallSignal::HookFailed { parked: false }))
                == CallStage::Fail
            &&& stage_after(
                checkpointed,
                hooked.push(CallSignal::HookFailed { parked: true }).push(CallSignal::ParkCleared),
            ) == CallStage::Fail
            &&& stage_after(checkpointed, hooked.push(CallSignal::HookFailed { parked: true }))
                == CallStage::ClearThenFail
            &&& stage_after(checkpointed, at.push(CallSignal::Denied { parked: false }))
                == CallStage::Fail
            &&& stage_after(
                checkpointed,
                at.push(CallSignal::Denied { parked: true }).push(CallSignal::ParkCleared),
            ) == CallStage::Fail
            &&& stage_after(checkpointed, at.push(CallSignal::Denied { parked: true }))
                == CallStage::ClearThenFail
            &&& stage_after(
                checkpointed,
                at.push(CallSignal::AuthorizationFailed { parked: false }),
            ) == CallStage::Fail
            &&& stage_after(
                checkpointed,
                at.push(CallSignal::AuthorizationFailed { parked: true }),
            ) == CallStage::Abort
            &&& stage_after(checkpointed, at.push(CallSignal::NeedsApproval)) == CallStage::Park
        }),
{
    authorization_is_reached(checkpointed);
    let at = way_to_authorization(checkpointed);
    let none = Seq::<CallSignal>::empty();
    let hooked = seq![CallSignal::WithinBounds];
    assert(hooked =~= none.push(CallSignal::WithinBounds));
    steps_of_signals(checkpointed, none, CallSignal::WithinBounds);
    steps_of_signals(checkpointed, hooked, CallSignal::HookFailed { parked: false });
    steps_of_signals(checkpointed, hooked, CallSignal::HookFailed { parked: true });
    steps_of_signals(
        checkpointed,
        hooked.push(CallSignal::HookFailed { parked: true }),
        CallSignal::ParkCleared,
    );
    steps_of_signals(checkpointed, at, CallSignal::Denied { parked: false });
    steps_of_signals(checkpointed, at, CallSignal::Denied { parked: true });
    steps_of_signals(
        checkpointed,
        at.push(CallSignal::Denied { parked: true }),
        CallSignal::ParkCleared,
    );
    steps_of_signals(checkpointed, at, CallSignal::AuthorizationFailed { parked: false });
    steps_of_signals(checkpointed, at, CallSignal::AuthorizationFailed { parked: true });
    steps_of_signals(checkpointed, at, CallSignal::NeedsApproval);
}

/// Whether a signal refuses a call.
pub open spec fn refuses(signal: CallSignal) -> bool {
    signal is HookFailed || signal is Denied || signal is AuthorizationFailed
}

/// A call fails only after a hook or governance refused it.
pub proof fn call_fails_only_when_refused(checkpointed: bool, signals: Seq<CallSignal>)
    requires
        stage_after(checkpointed, signals) == CallStage::Fail || stage_after(checkpointed, signals)
            == CallStage::ClearThenFail,
    ensures
        exists|i: int| 0 <= i < signals.len() && refuses(#[trigger] signals[i]),
    decreases signals.len(),
{
    let rest = signals.drop_last();
    if refuses(signals.last()) {
        assert(refuses(signals[signals.len() - 1]));
    } else {
        call_fails_only_when_refused(checkpointed, rest);
        let i = choose|i: int| 0 <= i < rest.len() && refuses(#[trigger] rest[i]);
        assert(signals[i] == rest[i]);
    }
}

/// A call parks only where governance asked for an approval just now, and its outcome is
/// recorded only where it was executed just now.
pub proof fn call_parks_only_for_an_approval(checkpointed: bool, signals: Seq<CallSignal>)
    ensures
        stage_after(checkpointed, signals) == CallStage::Park ==> signals.len() > 0
            && signals.last() == CallSignal::NeedsApproval,
        stage_after(checkpointed, signals) == CallStage::Record ==> signals.len() > 0
            && signals.last() == CallSignal::Executed && stage_after(
            checkpointed,
            signals.drop_last(),
        ) == CallStage::Execute,
{
}

/// A call is run on one way only.
pub proof fn call_is_run_on_one_way_only(checkpointed: bool, signals: Seq<CallSignal>)
    requires
        stage_after(checkpointed, signals) == CallStage::Execute,
    ensures
        signals == way_to_execution(checkpointed, true) || signals == way_to_execution(
            checkpointed,
            false,
        ),
{
    one_way(checkpointed, signals);
}

/// The signals that lead to each stage before a call is run.
spec fn way(checkpointed: bool, stage: CallStage, signals: Seq<CallSignal>) -> bool {
    match stage {
        CallStage::Bounds => signals == Seq::<CallSignal>::empty(),
        CallStage::Hook => signals == seq![CallSignal::WithinBounds],
        CallStage::Stage => checkpointed && signals == seq![
            CallSignal::WithinBounds,
            CallSignal::HookPassed,
        ],
        CallStage::Authorize => signals == way_to_authorization(checkpointed),
        CallStage::ClearThenGo => signals == way_to_authorization(checkpointed).push(
            CallSignal::Authorized { parked: true },
        ),
        CallStage::Start => checkpointed && (signals == way_to_authorization(checkpointed).push(
            CallSignal::Authorized { parked: false },
        ) || signals == way_to_authorization(checkpointed).push(
            CallSignal::Authorized { parked: true },
        ).push(CallSignal::ParkCleared)),
        CallStage::Execute => signals == way_to_execution(checkpointed, true) || signals
            == way_to_execution(checkpointed, false),
        _ => true,
    }
}

proof fn one_way(checkpointed: bool, signals: Seq<CallSignal>)
    ensures
        way(checkpointed, stage_after(checkpointed, signals), signals),
    decreases signals.len(),
{
    if signals.len() == 0 {
        assert(signals =~= Seq::<CallSignal>::empty());
    } else {
        let rest = signals.drop_last();
        let last = signals.last();
        one_way(checkpointed, rest);
        assert(signals =~= rest.push(last));
        let stage = stage_after(checkpointed, signals);
        match stage {
            CallStage::Hook => {
                assert(signals =~= seq![CallSignal::WithinBounds]);
            },
            CallStage::Stage => {
                assert(signals =~= seq![CallSignal::WithinBounds, CallSignal::HookPassed]);
            },
            CallStage::Authorize => {
                assert(signals =~= way_to_authorization(checkpointed));
            },
            CallStage::Execute => {
                assert(signals =~= way_to_execution(checkpointed, true)
                    || signals =~= way_to_execution(checkpointed, false));
            },
            _ => {},
        }
    }
}

// ---------------------------------------------------------------------------
// Staging and reporting outcomes
// ---------------------------------------------------------------------------

/// What a tool gave back.
#[derive(Debug)]
pub enum ToolOutput {
    Text(String),
    Report { summary: String, success: bool },
    Park { reason: String, question: String },
}

/// One call of a batch with its outcome.
#[derive(Debug)]
pub struct BatchItem {
    pub index: usize,
    pub call: ToolCall,
    pub outcome: Result<ToolOutput, String>,
    /// What a content run may report of the outcome's text.
    pub projected: String,
}

impl BatchItem {
    /// The text that the conversation gets, if the outcome has one.
    pub open spec fn conversation_text(self) -> Option<Seq<char>> {
        match self.outcome {
            Ok(ToolOutput::Text(t)) => Some(t@),
            Ok(ToolOutput::Report { summary, .. }) => Some("report: "@ + summary@),
            Ok(ToolOutput::Park { .. }) => None,
            Err(d) => Some(d@),
        }
    }

    /// The text that a content run stores, if the outcome has one.
    pub open spec fn content_text(self) -> Option<Seq<char>> {
        match self.outcome {
            Ok(ToolOutput::Text(t)) => Some(t@),
            Ok(ToolOutput::Report { summary, .. }) => Some(summary@),
            Ok(ToolOutput::Park { .. }) => None,
            Err(d) => Some(d@),
        }
    }

    /// Whether the call counts as a success.
    pub open spec fn ok(self) -> bool {
        match self.outcome {
            Ok(ToolOutput::Text(_)) => true,
            Ok(ToolOutput::Report { success, .. }) => success,
            _ => false,
        }
    }

    /// What is reported of the outcome.
    pub open spec fn detail(self, content: bool) -> Seq<char> {
        match self.outcome {
            Ok(ToolOutput::Park { reason, .. }) => "parked: "@ + reason@,
            _ => if content {
                self.projected@
            } else {
                self.content_text()->0
            },
        }
    }

    /// The conversation message of the outcome.
    pub open spec fn staged(self, turn: u32, content: bool) -> ChatMessageView {
        ChatMessageView {
            role: "tool"@,
            content: if content {
                Seq::empty()
            } else {
                self.conversation_text()->0
            },
            tool_call_id: conversation_id(self.call@, turn, self.index as nat),
            tool_calls: Seq::empty(),
        }
    }

    /// The report intent of the outcome.
    pub open spec fn intent(self, turn: u32, content: bool) -> ReportView {
        ReportView {
            call_id: stable_id(self.call@, turn, self.index as nat),
            name: self.call.name@,
            ok: self.ok(),
            detail: self.detail(content),
        }
    }

    /// The text that a content run stores, if the outcome has one.
    pub fn stored_text(&self) -> (r: Option<&str>)
        ensures
            match r {
                Some(t) => self.content_text() == Some(t@),
                None => self.content_text() is None,
            },
    {
        match &self.outcome {
            Ok(ToolOutput::Text(t)) => Some(t.as_str()),
            Ok(ToolOutput::Report { summary, .. }) => Some(summary.as_str()),
            Ok(ToolOutput::Park { .. }) => None,
            Err(d) => Some(d.as_str()),
        }
    }

    /// Whether the call counts as a success.
    pub fn succeeded(&self) -> (r: bool)
        ensures
            r == self.ok(),
    {
        match &self.outcome {
            Ok(ToolOutput::Text(_)) => true,
            Ok(ToolOutput::Report { success, .. }) => *success,
            _ => false,
        }
    }

    /// What is reported of the outcome.
    pub fn reported_detail(&self, content: bool) -> (s: String)
        ensures
            s@ == self.detail(content),
    {
        match &self.outcome {
            Ok(ToolOutput::Park { reason, .. }) => {
                let mut s = "parked: ".to_owned();
                s.append(reason.as_str());
                s
            },
            Ok(ToolOutput::Text(t)) => if content {
                self.projected.clone()
            } else {
                t.clone()
            },
            Ok(ToolOutput::Report { summary, .. }) => if content {
                self.projected.clone()
            } else {
                summary.clone()
            },
            Err(d) => if content {
                self.projected.clone()
            } else {
                d.clone()
            },
        }
    }
}

/// A report intent.
#[derive(Debug, Clone)]
pub struct StagedToolReport {
    pub call_id: String,
    pub name: String,
    pub ok: bool,
    pub detail: String,
}

/// What a report intent holds.
#[verifier::ext_equal]
pub struct ReportView {
    pub call_id: Seq<char>,
    pub name: Seq<char>,
    pub ok: bool,
    pub detail: Seq<char>,
}

impl View for StagedToolReport {
    type V = ReportView;

    open spec fn view(&self) -> ReportView {
        ReportView {
            call_id: self.call_id@,
            name: self.name@,
            ok: self.ok,
            detail: self.detail@,
        }
    }
}

pub open spec fn report_views(v: Seq<StagedToolReport>) -> Seq<ReportView> {
    Seq::new(v.len(), |i: int| v[i]@)
}

/// The conversation messages of the first `n` outcomes; a park leaves none.
pub open spec fn staged_messages(batch: Seq<BatchItem>, turn: u32, content: bool, n: int) -> Seq<
    ChatMessageView,
>
    decreases n,
{
    if n <= 0 || n > batch.len() {
        Seq::empty()
    } else if batch[n - 1].conversation_text() is Some {
        staged_messages(batch, turn, content, n - 1).push(batch[n - 1].staged(turn, content))
    } else {
        staged_messages(batch, turn, content, n - 1)
    }
}

/// The report intents of the first `n` outcomes; parks only where asked for.
pub open spec fn staged_intents(
    batch: Seq<BatchItem>,
    turn: u32,
    content: bool,
    parks: bool,
    n: int,
) -> Seq<ReportView>
    decreases n,
{
    if n <= 0 || n > batch.len() {
        Seq::empty()
    } else if parks || batch[n - 1].conversation_text() is Some {
        staged_intents(batch, turn, content, parks, n - 1).push(batch[n - 1].intent(turn, content))
    } else {
        staged_intents(batch, turn, content, parks, n - 1)
    }
}

/// Appends the results of the executed calls to the conversation, in order. The
/// whole batch is staged before anything is reported.
pub fn stage_results(
    messages: &mut Vec<ChatMessage>,
    batch: &Vec<BatchItem>,
    turn: u32,
    content: bool,
)
    ensures
        message_views(final(messages)@) == message_views(old(messages)@) + staged_messages(
            batch@,
            turn,
            content,
            batch@.len() as int,
        ),
{
    let ghost start = message_views(messages@);
    let mut i: usize = 0;
    assert(start =~= start + staged_messages(batch@, turn, content, 0));
    while i < batch.len()
        invariant
            i <= batch@.len(),
            message_views(messages@) == start + staged_messages(batch@, turn, content, i as int),
        decreases batch@.len() - i,
    {
        let item = &batch[i];
        let text: Option<String> = match &item.outcome {
            Ok(ToolOutput::Text(t)) => Some(t.clone()),
            Ok(ToolOutput::Report { summary, .. }) => {
                let mut s = "report: ".to_owned();
                s.append(summary.as_str());
                Some(s)
            },
            Ok(ToolOutput::Park { .. }) => None,
            Err(d) => Some(d.clone()),
        };
        match text {
            Some(t) => {
                let id = conversation_tool_call_id(&item.call, turn, item.index);
                let message = tool_message(
                    id,
                    if content {
                        String::new()
                    } else {
                        t
                    },
                );
                let ghost before = messages@;
                messages.push(message);
                assert(message@ =~= item.staged(turn, content));
                assert(message_views(messages@) =~= message_views(before).push(message@));
                assert(message_views(messages@) =~= start + staged_messages(
                    batch@,
                    turn,
                    content,
                    i + 1,
                ));
            },
            None => {
                assert(staged_messages(batch@, turn, content, i + 1) == staged_messages(
                    batch@,
                    turn,
                    content,
                    i as int,
                ));
            },
        }
        i = i + 1;
    }
}

/// The report intents of a batch.
pub fn staged_reports(batch: &Vec<BatchItem>, turn: u32, content: bool, parks: bool) -> (v: Vec<
    StagedToolReport,
>)
    ensures
        report_views(v@) == staged_intents(batch@, turn, content, parks, batch@.len() as int),
{
    let mut v: Vec<StagedToolReport> = Vec::new();
    let mut i: usize = 0;
    assert(report_views(v@) =~= staged_intents(batch@, turn, content, parks, 0));
    while i < batch.len()
        invariant
            i <= batch@.len(),
            report_views(v@) == staged_intents(batch@, turn, content, parks, i as int),
        decreases batch@.len() - i,
    {
        let item = &batch[i];
        let speaks = item.stored_text().is_some();
        if parks || speaks {
            let report = StagedToolReport {
                call_id: stable_tool_call_id(&item.call, turn, item.index),
                name: item.call.name.clone(),
                ok: item.succeeded(),
                detail: item.reported_detail(content),
            };
            let ghost before = v@;
            v.push(report);
            assert(report@ =~= item.intent(turn, content));
            assert(report_views(v@) =~= report_views(before).push(report@));
        }
        i = i + 1;
    }
    v
}

/// How a reported batch ends the turn.
#[derive(Debug)]
pub enum ToolBatchOutcome {
    Continue,
    Completed { summary: String, success: bool },
    Parked { info: ParkInfo, summary: String },
}

/// The index of the first park, from `i` on.
pub open spec fn first_park(batch: Seq<BatchItem>, i: int) -> int
    decreases batch.len() - i,
{
    if 0 <= i < batch.len() && batch[i].conversation_text() is Some {
        first_park(batch, i + 1)
    } else {
        i
    }
}

/// The index of the last report before `n`.
pub open spec fn last_report(batch: Seq<BatchItem>, n: int) -> int
    decreases n,
{
    if n <= 0 || n > batch.len() {
        -1
    } else if batch[n - 1].outcome matches Ok(ToolOutput::Report { .. }) {
        n - 1
    } else {
        last_report(batch, n - 1)
    }
}

/// Whether an outcome is the one of the batch: the first park ends it, else the
/// last report completes the run, else the run goes on.
pub open spec fn outcome_of(batch: Seq<BatchItem>, turn: u32, outcome: ToolBatchOutcome) -> bool {
    let p = first_park(batch, 0);
    let r = last_report(batch, batch.len() as int);
    if p < batch.len() {
        batch[p].outcome matches Ok(ToolOutput::Park { reason, question }) && outcome matches
            ToolBatchOutcome::Parked { info, summary } && summary@ == reason@ && info.reason@
            == reason@ && info.question@ == question@ && info.tool_call_id@ == conversation_id(
            batch[p].call@,
            turn,
            batch[p].index as nat,
        ) && info.kind == ParkKind::Escalate && info.approval_id is None
    } else if r >= 0 {
        batch[r].outcome matches Ok(ToolOutput::Report { summary: said, success: good }) && outcome
            matches ToolBatchOutcome::Completed { summary, success } && summary@ == said@ && success
            == good
    } else {
        outcome is Continue
    }
}

/// How a reported batch ends the turn.
pub fn batch_outcome(batch: &Vec<BatchItem>, turn: u32) -> (outcome: ToolBatchOutcome)
    ensures
        outcome_of(batch@, turn, outcome),
{
    let mut i: usize = 0;
    let mut report: Option<usize> = None;
    while i < batch.len()
        invariant
            i <= batch@.len(),
            first_park(batch@, 0) == first_park(batch@, i as int),
            match report {
                Some(r) => r < batch@.len() && last_report(batch@, i as int) == r
                    && batch@[r as int].outcome matches Ok(ToolOutput::Report { .. }),
                None => last_report(batch@, i as int) == -1,
            },
        decreases batch@.len() - i,
    {
        match &batch[i].outcome {
            Ok(ToolOutput::Park { reason, question }) => {
                let info = ParkInfo {
                    reason: reason.clone(),
                    question: question.clone(),
                    tool_call_id: conversation_tool_call_id(&batch[i].call, turn, batch[i].index),
                    kind: ParkKind::Escalate,
                    approval_id: None,
                };
                return ToolBatchOutcome::Parked { info, summary: reason.clone() };
            },
            Ok(ToolOutput::Report { .. }) => {
                report = Some(i);
            },
            _ => {},
        }
        i = i + 1;
    }
    match report {
        Some(r) => match &batch[r].outcome {
            Ok(ToolOutput::Report { summary, success }) => ToolBatchOutcome::Completed {
                summary: summary.clone(),
                success: *success,
            },
            _ => ToolBatchOutcome::Continue,
        },
        None => ToolBatchOutcome::Continue,
    }
}

/// The park of a call that needs approval. An approval without an id is refused.
pub fn park_for_approval(
    call: &ToolCall,
    turn: u32,
    index: usize,
    approval_id: &str,
    reason: &str,
) -> (r: Result<ToolBatchOutcome, RunError>)
    ensures
        if blank(approval_id@) {
            r matches Err(RunError::Governance(GovernanceError::Message(m))) && m@
                == "require_approval is missing approval_id"@
        } else {
            r matches Ok(ToolBatchOutcome::Parked { info, summary }) && summary@ == reason@
                && info.reason@ == reason@ && info.question@ == "approval "@ + approval_id@
                + " is pending"@ && info.tool_call_id@ == conversation_id(call@, turn, index as nat)
                && info.kind == ParkKind::Approval && opt_view(info.approval_id) == Some(
                approval_id@,
            )
        },
{
    if is_blank(approval_id) {
        return Err(
            RunError::Governance(
                GovernanceError::Message("require_approval is missing approval_id".to_owned()),
            ),
        );
    }
    let mut question = "approval ".to_owned();
    question.append(approval_id);
    question.append(" is pending");
    let info = ParkInfo {
        reason: reason.to_owned(),
        question,
        tool_call_id: conversation_tool_call_id(call, turn, index),
        kind: ParkKind::Approval,
        approval_id: Some(approval_id.to_owned()),
    };
    Ok(ToolBatchOutcome::Parked { info, summary: reason.to_owned() })
}

// ---------------------------------------------------------------------------
// Laws of a batch
// ---------------------------------------------------------------------------

/// A batch runs in parallel just where more than one call may run at once, no hook watches
/// single calls, there is more than one call, and every call is safe beside others and
/// needs no checkpoint of its execution.
pub proof fn batch_runs_in_parallel_only_where_it_is_safe(
    calls: Seq<ToolCallView>,
    traits: Seq<CallTraits>,
    ctx: BatchContext,
    plan: BatchPlan,
)
    requires
        traits.len() == calls.len(),
        plan_of(calls, traits, ctx, plan),
    ensures
        plan is Parallel ==> ctx.concurrency > 1 && !ctx.serial_hooks && calls.len() > 1,
        plan is Parallel ==> forall|i: int|
            0 <= i < calls.len() ==> (#[trigger] traits[i]).parallel_safe && !traits[i].checkpointed,
        plan is Serial ==> calls.len() <= 1 || ctx.concurrency <= 1 || ctx.serial_hooks || exists|
            i: int,
        |
            0 <= i < calls.len() && (!(#[trigger] traits[i]).parallel_safe
                || traits[i].checkpointed),
{
}

/// A report or an escalation is never carried out beside another call: such a batch is
/// rejected, each call of it is answered with the refusal, and no other batch is rejected.
pub proof fn exclusive_call_stands_alone(
    calls: Seq<ToolCallView>,
    traits: Seq<CallTraits>,
    ctx: BatchContext,
    plan: BatchPlan,
    i: int,
)
    requires
        traits.len() == calls.len(),
        plan_of(calls, traits, ctx, plan),
        0 <= i < calls.len(),
    ensures
        (calls[i].name == "report"@ || calls[i].name == "escalate"@) && calls.len() > 1 ==> plan
            is Rejected || plan is Denied,
        plan matches BatchPlan::Rejected(v) ==> {
            &&& calls.len() > 1
            &&& v@.len() == calls.len()
            &&& v@[i].role@ == "tool"@
            &&& !ctx.content ==> v@[i].tool_call_id@ == calls[i].id && v@[i].content@
                == "tool batch rejected: report/escalate must be the only call"@
            &&& ctx.content ==> v@[i].content@.len() == 0 && v@[i].tool_call_id@ == conversation_id(
                calls[i],
                ctx.turn,
                i as nat,
            )
            &&& exists|j: int|
                0 <= j < calls.len() && ((#[trigger] calls[j]).name == "report"@ || calls[j].name
                    == "escalate"@)
        },
        calls.len() == 1 ==> plan is Serial || plan is Denied,
{
    if calls[i].name == "report"@ || calls[i].name == "escalate"@ {
        assert(exclusive(calls[i].name));
        assert(any_exclusive(calls));
    }
    if plan is Rejected {
        let v = plan->Rejected_0;
        assert(message_views(v@).len() == v@.len());
        assert(message_views(v@)[i] == v@[i]@);
        let j = choose|j: int| 0 <= j < calls.len() && exclusive((#[trigger] calls[j]).name);
        assert(calls[j].name == "report"@ || calls[j].name == "escalate"@);
    }
}

/// A batch is denied just where a content run would park, or a replay would use a tool
/// that it forbids; the first such tool is named.
pub proof fn batch_is_denied_only_by_content_and_replay(
    calls: Seq<ToolCallView>,
    traits: Seq<CallTraits>,
    ctx: BatchContext,
    plan: BatchPlan,
)
    requires
        traits.len() == calls.len(),
        plan_of(calls, traits, ctx, plan),
    ensures
        plan is Denied <==> (ctx.content && exists|i: int|
            0 <= i < calls.len() && (#[trigger] calls[i]).name == "escalate"@) || (ctx.replay
            && exists|i: int| 0 <= i < traits.len() && (#[trigger] traits[i]).replay_denied),
        forall|k: int|
            plan is Denied && ctx.replay && !(ctx.content && names_any(calls, "escalate"@)) && 0
                <= k < traits.len() && (#[trigger] traits[k]).replay_denied && (forall|i: int|
                0 <= i < k ==> !(#[trigger] traits[i]).replay_denied) ==> plan->Denied_0@
                == "replay forbids effect-capable or unknown tool `"@ + calls[k].name + "`"@,
{
    first_denied_is_first(traits, 0);
    let d = first_denied(traits, 0);
    assert(names_any(calls, "escalate"@) == (exists|i: int|
        0 <= i < calls.len() && (#[trigger] calls[i]).name == "escalate"@));
    if d < traits.len() {
        assert(traits[d].replay_denied);
    }
}

proof fn first_denied_is_first(traits: Seq<CallTraits>, i: int)
    requires
        0 <= i <= traits.len(),
    ensures
        i <= first_denied(traits, i) <= traits.len(),
        first_denied(traits, i) < traits.len() ==> traits[first_denied(traits, i)].replay_denied,
        forall|k: int| i <= k < first_denied(traits, i) ==> !(#[trigger] traits[k]).replay_denied,
    decreases traits.len() - i,
{
    if i < traits.len() && !traits[i].replay_denied {
        first_denied_is_first(traits, i + 1);
    }
}

/// Every call that did not park is answered in the conversation, in order, under its own
/// id: with what the tool gave back, with its report, or with why it failed. A content run
/// keeps the text outside.
pub proof fn every_outcome_is_answered(batch: Seq<BatchItem>, turn: u32, content: bool, i: int)
    requires
        0 <= i < batch.len(),
    ensures
        ({
            let before = staged_messages(batch, turn, content, i);
            let after = staged_messages(batch, turn, content, i + 1);
            let parks = batch[i].outcome matches Ok(ToolOutput::Park { .. });
            &&& parks ==> after == before
            &&& !parks ==> {
                &&& after.len() == before.len() + 1
                &&& after.drop_last() == before
                &&& after.last().role == "tool"@
                &&& after.last().tool_calls.len() == 0
                &&& after.last().tool_call_id == (if batch[i].call.id@.len() > 0 {
                    batch[i].call.id@
                } else {
                    "tool-"@ + decimal(turn as nat) + "-"@ + decimal(batch[i].index as nat)
                })
                &&& content ==> after.last().content.len() == 0
                &&& !content ==> match batch[i].outcome {
                    Ok(ToolOutput::Text(t)) => after.last().content == t@,
                    Ok(ToolOutput::Report { summary, .. }) => after.last().content == "report: "@
                        + summary@,
                    Err(d) => after.last().content == d@,
                    _ => true,
                }
            }
        }),
        staged_messages(batch, turn, content, 0).len() == 0,
{
    let before = staged_messages(batch, turn, content, i);
    if batch[i].conversation_text() is Some {
        assert(before.push(batch[i].staged(turn, content)).drop_last() =~= before);
    }
}

/// Every call is reported under its stable id and its own name, in order: as a success
/// just where the tool gave a text or a good report, and with what it said. A parked call
/// is reported only where parks are.
pub proof fn every_outcome_is_reported(
    batch: Seq<BatchItem>,
    turn: u32,
    content: bool,
    parks: bool,
    i: int,
)
    requires
        0 <= i < batch.len(),
    ensures
        ({
            let before = staged_intents(batch, turn, content, parks, i);
            let after = staged_intents(batch, turn, content, parks, i + 1);
            let parked = batch[i].outcome matches Ok(ToolOutput::Park { .. });
            &&& parked && !parks ==> after == before
            &&& !parked || parks ==> {
                &&& after.len() == before.len() + 1
                &&& after.drop_last() == before
                &&& after.last().name == batch[i].call.name@
                &&& after.last().call_id == stable_id(batch[i].call@, turn, batch[i].index as nat)
                &&& after.last().ok <==> (match batch[i].outcome {
                    Ok(ToolOutput::Text(_)) => true,
                    Ok(ToolOutput::Report { success, .. }) => success,
                    _ => false,
                })
                &&& content && !parked ==> after.last().detail == batch[i].projected@
                &&& match batch[i].outcome {
                    Ok(ToolOutput::Park { reason, .. }) => after.last().detail == "parked: "@
                        + reason@,
                    Ok(ToolOutput::Text(t)) => !content ==> after.last().detail == t@,
                    Ok(ToolOutput::Report { summary, .. }) => !content ==> after.last().detail
                        == summary@,
                    Err(d) => !content ==> after.last().detail == d@,
                }
            }
        }),
        staged_intents(batch, turn, content, parks, 0).len() == 0,
{
    let before = staged_intents(batch, turn, content, parks, i);
    assert(before.push(batch[i].intent(turn, content)).drop_last() =~= before);
}

proof fn first_park_is_first(batch: Seq<BatchItem>, i: int)
    requires
        0 <= i <= batch.len(),
    ensures
        i <= first_park(batch, i) <= batch.len(),
        first_park(batch, i) < batch.len() ==> (batch[first_park(batch, i)].outcome matches Ok(
            ToolOutput::Park { .. },
        )),
        forall|k: int|
            i <= k < first_park(batch, i) ==> !((#[trigger] batch[k]).outcome matches Ok(
                ToolOutput::Park { .. },
            )),
    decreases batch.len() - i,
{
    if i < batch.len() && batch[i].conversation_text() is Some {
        first_park_is_first(batch, i + 1);
    }
}

proof fn last_report_is_last(batch: Seq<BatchItem>, n: int)
    requires
        0 <= n <= batch.len(),
    ensures
        -1 <= last_report(batch, n) < n,
        last_report(batch, n) >= 0 ==> (batch[last_report(batch, n)].outcome matches Ok(
            ToolOutput::Report { .. },
        )),
        forall|k: int|
            last_report(batch, n) < k < n ==> !((#[trigger] batch[k]).outcome matches Ok(
                ToolOutput::Report { .. },
            )),
    decreases n,
{
    if n > 0 && !(batch[n - 1].outcome matches Ok(ToolOutput::Report { .. })) {
        last_report_is_last(batch, n - 1);
    }
}

/// A batch parks the run with its first park; one without a park completes the run with
/// its last report; any other goes on.
pub proof fn batch_ends_as_its_calls_say(
    batch: Seq<BatchItem>,
    turn: u32,
    outcome: ToolBatchOutcome,
    i: int,
)
    requires
        outcome_of(batch, turn, outcome),
        0 <= i < batch.len(),
    ensures
        batch[i].outcome matches Ok(ToolOutput::Park { .. }) ==> outcome is Parked,
        ((batch[i].outcome matches Ok(ToolOutput::Park { .. })) && (forall|k: int|
            0 <= k < i ==> !((#[trigger] batch[k]).outcome matches Ok(ToolOutput::Park { .. })))
            ==> outcome->Parked_summary@ == batch[i].outcome->Ok_0->reason@
            && outcome->info.question@ == batch[i].outcome->Ok_0->question@
            && outcome->info.reason@ == batch[i].outcome->Ok_0->reason@),
        outcome is Parked ==> exists|k: int|
            0 <= k < batch.len() && ((#[trigger] batch[k]).outcome matches Ok(
                ToolOutput::Park { .. },
            )),
        batch[i].outcome matches Ok(ToolOutput::Report { .. }) ==> !(outcome is Continue),
        (outcome is Completed && (batch[i].outcome matches Ok(
            ToolOutput::Report { .. },
        )) && (forall|k: int|
            i < k < batch.len() ==> !((#[trigger] batch[k]).outcome matches Ok(
                ToolOutput::Report { .. },
            ))) ==> outcome->Completed_summary@ == batch[i].outcome->Ok_0->summary@
            && outcome->success == batch[i].outcome->Ok_0->success),
        outcome is Completed ==> exists|k: int|
            0 <= k < batch.len() && ((#[trigger] batch[k]).outcome matches Ok(
                ToolOutput::Report { .. },
            )),
{
    first_park_is_first(batch, 0);
    last_report_is_last(batch, batch.len() as int);
}

/// Hooks that watch a call before or after it, or a park, and no others, make the calls of a
/// batch run one after the other.
pub proof fn hooks_on_calls_are_watched(event: Seq<char>)
    ensures
        watches_calls("pre_tool"@),
        watches_calls("post_tool"@),
        watches_calls("on_park"@),
        event != "pre_tool"@ && event != "post_tool"@ && event != "on_park"@ ==> !watches_calls(
            event,
        ),
{
}

/// The ids of results are those of the tool messages, each in its place.
pub proof fn results_are_the_tool_messages(m: Seq<ChatMessageView>, i: int)
    requires
        0 <= i < m.len(),
    ensures
        m[i].role == "tool"@ ==> result_ids(m, i) == seq![m[i].tool_call_id] + result_ids(m, i + 1),
        m[i].role != "tool"@ ==> result_ids(m, i) == result_ids(m, i + 1),
        result_ids(m, m.len() as int).len() == 0,
{
}

} // verus!
