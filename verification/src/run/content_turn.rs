//! Appending turns to a content conversation.
//!
//! What a model turn returns is checked against the capabilities of the run,
//! its text and tool arguments are stored as parts of their own, and the
//! message that is kept refers to them. Resolving and storing parts is the
//! caller's work.
use vstd::prelude::*;
use vstd::string::*;

use crate::content::{
    ContentCapabilitiesV1, ContentDisclosureState, ContentMessageV1,
    ContentModelTurnV1, ContentPartDescriptor, ContentPartKind,
};
#[allow(unused_imports)]
use crate::content::{content_views, part_views, ContentMessageView, PartView};
use crate::events::push_number;
use crate::model::ToolCall;
#[allow(unused_imports)]
use crate::model::ToolCallView;
#[allow(unused_imports)]
use crate::text::{byte_len, decimal, texts};

#[allow(unused_imports)]
use super::model_turn::run_message;
use super::session::{
    holds, message_error, reserve_part_id, tool_arguments_disclose_reference, unavailable,
    ContentSession, RunSession,
};
#[allow(unused_imports)]
use super::session::{
    arguments_disclose, reserved, reserved_id_keeps_a_free_name, reserved_is_fresh,
    same_but_content,
};
use super::{conversation_tool_call_id, RunError};
#[allow(unused_imports)]
use super::conversation_id;

verus! {

// ---------------------------------------------------------------------------
// What the conversation holds
// ---------------------------------------------------------------------------

/// The parts of the first `n` messages, in order.
pub open spec fn parts_before(m: Seq<ContentMessageV1>, n: int) -> Seq<PartView>
    decreases n,
{
    if n <= 0 || n > m.len() {
        Seq::empty()
    } else {
        parts_before(m, n - 1) + part_views(m[n - 1].parts@)
    }
}

/// The parts of a conversation, in order.
pub open spec fn all_parts(m: Seq<ContentMessageV1>) -> Seq<PartView> {
    parts_before(m, m.len() as int)
}

pub open spec fn part_ids(v: Seq<PartView>) -> Seq<Seq<char>> {
    Seq::new(v.len(), |i: int| v[i].part_id)
}

pub open spec fn references(v: Seq<PartView>) -> Seq<Seq<char>> {
    Seq::new(v.len(), |i: int| v[i].reference)
}

/// The bytes of the first `n` parts.
pub open spec fn part_bytes(v: Seq<PartView>, n: int) -> nat
    decreases n,
{
    if n <= 0 || n > v.len() {
        0
    } else {
        part_bytes(v, n - 1) + v[n - 1].byte_length as nat
    }
}

pub open spec fn total_bytes(v: Seq<PartView>) -> nat {
    part_bytes(v, v.len() as int)
}

/// Whether the sizes of a conversation can be counted.
pub open spec fn countable(m: Seq<ContentMessageV1>) -> bool {
    all_parts(m).len() <= usize::MAX && total_bytes(all_parts(m)) <= u64::MAX
}

proof fn bytes_of_prefix(a: Seq<PartView>, b: Seq<PartView>, n: int)
    requires
        0 <= n <= a.len(),
    ensures
        part_bytes(a + b, n) == part_bytes(a, n),
    decreases n,
{
    if n > 0 {
        bytes_of_prefix(a, b, n - 1);
        assert((a + b)[n - 1] == a[n - 1]);
    }
}

proof fn bytes_step(a: Seq<PartView>, p: PartView)
    ensures
        total_bytes(a.push(p)) == total_bytes(a) + p.byte_length as nat,
{
    bytes_of_prefix(a, seq![p], a.len() as int);
    assert(a.push(p) =~= a + seq![p]);
    assert((a + seq![p]).last() == p);
}

proof fn bytes_grow(v: Seq<PartView>, n: int, m: int)
    requires
        0 <= n <= m <= v.len(),
    ensures
        part_bytes(v, n) <= part_bytes(v, m),
    decreases m - n,
{
    if n < m {
        bytes_grow(v, n, m - 1);
    }
}

/// What of a conversation the next turn is checked against.
struct Tally {
    ids: Vec<String>,
    references: Vec<String>,
    count: usize,
    bytes: u64,
}

/// Whether a tally is that of some parts.
spec fn tallies(t: Tally, v: Seq<PartView>) -> bool {
    &&& texts(t.ids@) == part_ids(v)
    &&& texts(t.references@) == references(v)
    &&& t.count == v.len()
    &&& t.bytes == total_bytes(v)
}

proof fn parts_before_is_prefix(m: Seq<ContentMessageV1>, n: int)
    requires
        0 <= n <= m.len(),
    ensures
        parts_before(m, n).is_prefix_of(all_parts(m)),
    decreases m.len() - n,
{
    if n < m.len() {
        parts_before_is_prefix(m, n + 1);
        let a = parts_before(m, n);
        let b = parts_before(m, n + 1);
        let all = all_parts(m);
        assert(b == a + part_views(m[n].parts@));
        assert(a =~= all.take(a.len() as int)) by {
            assert(b =~= all.take(b.len() as int));
            assert forall|i: int| 0 <= i < a.len() implies a[i] == all.take(a.len() as int)[i] by {
                assert(b[i] == a[i]);
                assert(b[i] == all.take(b.len() as int)[i]);
            }
        }
    } else {
        assert(parts_before(m, n) =~= all_parts(m).take(all_parts(m).len() as int));
    }
}

fn tally(messages: &Vec<ContentMessageV1>) -> (t: Tally)
    requires
        countable(messages@),
    ensures
        tallies(t, all_parts(messages@)),
{
    let mut t = Tally { ids: Vec::new(), references: Vec::new(), count: 0, bytes: 0 };
    let ghost mut seen: Seq<PartView> = Seq::empty();
    let ghost all = all_parts(messages@);
    let mut i: usize = 0;
    assert(texts(t.ids@) =~= part_ids(seen));
    assert(texts(t.references@) =~= references(seen));
    while i < messages.len()
        invariant
            i <= messages@.len(),
            all == all_parts(messages@),
            countable(messages@),
            seen == parts_before(messages@, i as int),
            tallies(t, seen),
        decreases messages@.len() - i,
    {
        let parts = &messages[i].parts;
        let ghost base = seen;
        let mut j: usize = 0;
        assert(part_views(parts@).take(0) =~= Seq::<PartView>::empty());
        assert(base + part_views(parts@).take(0) =~= base);
        proof {
            parts_before_is_prefix(messages@, i + 1);
        }
        while j < parts.len()
            invariant
                i < messages@.len(),
                parts@ == messages@[i as int].parts@,
                all == all_parts(messages@),
                countable(messages@),
                parts_before(messages@, i + 1).is_prefix_of(all),
                parts_before(messages@, i + 1) == base + part_views(parts@),
                j <= parts@.len(),
                seen == base + part_views(parts@).take(j as int),
                tallies(t, seen),
            decreases parts@.len() - j,
        {
            let p = &parts[j];
            let ghost next = seen.push(p@);
            proof {
                let whole = base + part_views(parts@);
                assert(part_views(parts@).take(j + 1) =~= part_views(parts@).take(j as int).push(
                    p@,
                ));
                assert(next =~= base + part_views(parts@).take(j + 1));
                assert(next =~= all.take(next.len() as int)) by {
                    assert(whole =~= all.take(whole.len() as int));
                    assert forall|k: int| 0 <= k < next.len() implies next[k] == all.take(
                        next.len() as int,
                    )[k] by {
                        assert(next[k] == whole[k]);
                        assert(whole[k] == all.take(whole.len() as int)[k]);
                    }
                }
                bytes_step(seen, p@);
                let rest = all.skip(next.len() as int);
                assert(all =~= next + rest);
                bytes_of_prefix(next, rest, next.len() as int);
                bytes_grow(all, next.len() as int, all.len() as int);
            }
            let ghost ids = t.ids@;
            let ghost refs = t.references@;
            t.ids.push(p.part_id.clone());
            t.references.push(p.reference.clone());
            t.count = t.count + 1;
            t.bytes = t.bytes + p.byte_length;
            j = j + 1;
            proof {
                assert(texts(t.ids@) =~= texts(ids).push(p.part_id@));
                assert(texts(t.references@) =~= texts(refs).push(p.reference@));
                assert(part_ids(next) =~= part_ids(seen).push(p.part_id@));
                assert(references(next) =~= references(seen).push(p.reference@));
                seen = next;
            }
        }
        assert(part_views(parts@).take(parts@.len() as int) =~= part_views(parts@));
        i = i + 1;
    }
    t
}

/// Whether the sizes of a conversation can be counted.
fn is_countable(messages: &Vec<ContentMessageV1>) -> (r: bool)
    ensures
        r == countable(messages@),
{
    let ghost mut seen: Seq<PartView> = Seq::empty();
    let ghost all = all_parts(messages@);
    let mut count: usize = 0;
    let mut bytes: u64 = 0;
    let mut i: usize = 0;
    while i < messages.len()
        invariant
            i <= messages@.len(),
            all == all_parts(messages@),
            seen == parts_before(messages@, i as int),
            count == seen.len(),
            bytes == total_bytes(seen),
        decreases messages@.len() - i,
    {
        let parts = &messages[i].parts;
        let ghost base = seen;
        let mut j: usize = 0;
        assert(part_views(parts@).take(0) =~= Seq::<PartView>::empty());
        assert(base + part_views(parts@).take(0) =~= base);
        proof {
            parts_before_is_prefix(messages@, i + 1);
        }
        while j < parts.len()
            invariant
                parts@ == messages@[i as int].parts@,
                all == all_parts(messages@),
                (base + part_views(parts@)).is_prefix_of(all),
                j <= parts@.len(),
                seen == base + part_views(parts@).take(j as int),
                count == seen.len(),
                bytes == total_bytes(seen),
            decreases parts@.len() - j,
        {
            let ghost p = parts@[j as int]@;
            let ghost next = seen.push(p);
            proof {
                let whole = base + part_views(parts@);
                assert(part_views(parts@).take(j + 1) =~= part_views(parts@).take(j as int).push(p));
                assert(next =~= base + part_views(parts@).take(j + 1));
                assert(next =~= all.take(next.len() as int)) by {
                    assert(whole =~= all.take(whole.len() as int));
                    assert forall|k: int| 0 <= k < next.len() implies next[k] == all.take(
                        next.len() as int,
                    )[k] by {
                        assert(next[k] == whole[k]);
                        assert(whole[k] == all.take(whole.len() as int)[k]);
                    }
                }
                bytes_step(seen, p);
                let rest = all.skip(next.len() as int);
                assert(all =~= next + rest);
                bytes_of_prefix(next, rest, next.len() as int);
                bytes_grow(all, next.len() as int, all.len() as int);
            }
            match (count.checked_add(1), bytes.checked_add(parts[j].byte_length)) {
                (Some(c), Some(b)) => {
                    count = c;
                    bytes = b;
                },
                _ => {
                    return false;
                },
            }
            j = j + 1;
            proof {
                seen = next;
            }
        }
        assert(part_views(parts@).take(parts@.len() as int) =~= part_views(parts@));
        i = i + 1;
    }
    true
}

// ---------------------------------------------------------------------------
// Checking a turn
// ---------------------------------------------------------------------------

fn allows(kinds: &Vec<ContentPartKind>, kind: ContentPartKind) -> (r: bool)
    ensures
        r == kinds@.contains(kind),
{
    let mut i: usize = 0;
    while i < kinds.len()
        invariant
            i <= kinds@.len(),
            forall|j: int| 0 <= j < i ==> kinds@[j] != kind,
        decreases kinds@.len() - i,
    {
        if kinds[i] == kind {
            return true;
        }
        i = i + 1;
    }
    false
}

/// Whether the arguments of one of the first `n` calls disclose a reference.
pub open spec fn calls_disclose(calls: Seq<ToolCall>, refs: Seq<Seq<char>>, n: int) -> bool
    decreases n,
{
    0 < n <= calls.len() && (calls_disclose(calls, refs, n - 1) || arguments_disclose(
        calls[n - 1].args_json@,
        refs,
    ))
}

/// Whether a part lies outside the bounds of the capabilities.
pub open spec fn out_of_bounds(c: ContentCapabilitiesV1, p: PartView) -> bool {
    !c.input_kinds@.contains(p.kind) || !texts(c.media_types@).contains(p.media_type)
        || p.byte_length > c.max_part_bytes
}

/// Why an output part is refused before it is resolved. `invalid` is what is
/// wrong with its descriptor, if anything is.
pub open spec fn part_fault(
    c: ContentCapabilitiesV1,
    used: Seq<Seq<char>>,
    p: PartView,
    invalid: Option<Seq<char>>,
) -> Option<Seq<char>> {
    if invalid is Some {
        invalid
    } else if used.contains(p.part_id) {
        Some("model returned a duplicate content part id"@)
    } else if !c.output_kinds@.contains(p.kind) {
        Some("model returned an unsupported content output kind"@)
    } else if out_of_bounds(c, p) {
        Some("model returned content outside the configured capability bounds"@)
    } else {
        None
    }
}

/// Why the first refused one of the first `n` output parts is refused, where their
/// descriptors are sound. Each part takes its id.
pub open spec fn outputs_fault(
    c: ContentCapabilitiesV1,
    used: Seq<Seq<char>>,
    parts: Seq<PartView>,
    n: int,
) -> Option<Seq<char>>
    decreases n,
{
    if n <= 0 || n > parts.len() {
        None
    } else {
        match outputs_fault(c, used, parts, n - 1) {
            Some(m) => Some(m),
            None => part_fault(c, used + part_ids(parts).take(n - 1), parts[n - 1], None),
        }
    }
}

/// What resolving an accepted output part gave.
#[derive(Debug)]
pub enum Resolution {
    /// The resolver has no bytes for it.
    Failed,
    /// The bytes are not those that the descriptor names, and why.
    Misfit(String),
    /// The bytes fit the descriptor.
    Fits,
}

/// The sizes of what a turn generated itself: its text where it has one, and
/// the arguments of each call.
pub open spec fn generated(t: ContentModelTurnV1) -> Seq<nat> {
    (if t.text@.len() == 0 {
        Seq::empty()
    } else {
        seq![byte_len(t.text@)]
    }) + Seq::new(t.tool_calls@.len(), |i: int| byte_len(t.tool_calls@[i].args_json@))
}

pub open spec fn sum_of(v: Seq<nat>, n: int) -> nat
    decreases n,
{
    if n <= 0 || n > v.len() {
        0
    } else {
        sum_of(v, n - 1) + v[n - 1]
    }
}

/// Whether a size is none that a part may have.
pub open spec fn bad_size(n: nat, limit: u64) -> bool {
    n == 0 || n > limit
}

/// How many bytes the conversation holds with the turn.
pub open spec fn bytes_after(m: Seq<ContentMessageV1>, t: ContentModelTurnV1) -> nat {
    total_bytes(all_parts(m)) + total_bytes(part_views(t.output_parts@)) + sum_of(
        generated(t),
        generated(t).len() as int,
    )
}

/// How many parts the conversation holds with the turn, as far as they can be
/// counted.
pub open spec fn parts_after(m: Seq<ContentMessageV1>, t: ContentModelTurnV1) -> int {
    let n = all_parts(m).len() + t.output_parts@.len() + generated(t).len();
    if n > usize::MAX {
        usize::MAX as int
    } else {
        n as int
    }
}

/// Why a turn whose output parts are fine is refused.
pub open spec fn turn_fault(
    c: ContentCapabilitiesV1,
    m: Seq<ContentMessageV1>,
    t: ContentModelTurnV1,
) -> Option<Seq<char>> {
    let g = generated(t);
    if g.len() > 0 && !(c.input_kinds@.contains(ContentPartKind::Text) && texts(
        c.media_types@,
    ).contains("text/plain"@)) {
        Some("content capabilities do not permit externalized text"@)
    } else if exists|i: int| 0 <= i < g.len() && bad_size(#[trigger] g[i], c.max_part_bytes) {
        Some("content model text or tool arguments exceed the configured part bound"@)
    } else if bytes_after(m, t) > u64::MAX {
        Some("content size overflow"@)
    } else if parts_after(m, t) > c.max_parts || bytes_after(m, t) > c.max_aggregate_bytes {
        Some("content model output exceeds the configured aggregate bound"@)
    } else if g.len() == 0 && t.output_parts@.len() == 0 {
        Some("content model turn returned no output or tool calls"@)
    } else {
        None
    }
}

// ---------------------------------------------------------------------------
// Storing a turn
// ---------------------------------------------------------------------------

/// A text to store as a part of its own.
#[derive(Debug)]
pub struct StoreText {
    pub part_id: String,
    pub text: String,
    pub source: String,
    pub source_id: String,
}

#[verifier::ext_equal]
pub struct StoreView {
    pub part_id: Seq<char>,
    pub text: Seq<char>,
    pub source: Seq<char>,
    pub source_id: Seq<char>,
}

impl View for StoreText {
    type V = StoreView;

    open spec fn view(&self) -> StoreView {
        StoreView {
            part_id: self.part_id@,
            text: self.text@,
            source: self.source@,
            source_id: self.source_id@,
        }
    }
}

pub open spec fn store_views(v: Seq<StoreText>) -> Seq<StoreView> {
    Seq::new(v.len(), |i: int| v[i]@)
}

pub open spec fn store_ids(v: Seq<StoreView>) -> Seq<Seq<char>> {
    Seq::new(v.len(), |i: int| v[i].part_id)
}

/// How the text of a turn is stored.
pub open spec fn text_store(used: Seq<Seq<char>>, text: Seq<char>, turns: u32) -> StoreView {
    StoreView {
        part_id: reserved(used, "shikigami-model-"@ + decimal(turns as nat) + "-text"@),
        text,
        source: "model"@,
        source_id: "turn-"@ + decimal(turns as nat),
    }
}

/// How the arguments of a call are stored.
pub open spec fn arguments_store(
    used: Seq<Seq<char>>,
    args: Seq<char>,
    turns: u32,
    index: nat,
) -> StoreView {
    StoreView {
        part_id: reserved(
            used,
            "shikigami-model-"@ + decimal(turns as nat) + "-tool-"@ + decimal(index)
                + "-arguments"@,
        ),
        text: args,
        source: "model-tool-arguments"@,
        source_id: "turn-"@ + decimal(turns as nat) + "-call-"@ + decimal(index),
    }
}

/// What a turn stores, up to its first `n` calls.
pub open spec fn stores(
    used: Seq<Seq<char>>,
    t: ContentModelTurnV1,
    turns: u32,
    n: int,
) -> Seq<StoreView>
    decreases n,
{
    if n <= 0 || n > t.tool_calls@.len() {
        if t.text@.len() == 0 {
            Seq::empty()
        } else {
            seq![text_store(used, t.text@, turns)]
        }
    } else {
        let before = stores(used, t, turns, n - 1);
        before.push(
            arguments_store(
                used + store_ids(before),
                t.tool_calls@[n - 1].args_json@,
                turns,
                (n - 1) as nat,
            ),
        )
    }
}

/// How many texts a turn stores before the arguments of its calls.
pub open spec fn spoken(t: ContentModelTurnV1) -> nat {
    if t.text@.len() == 0 {
        0
    } else {
        1
    }
}

/// A call as the conversation keeps it: with an id, its arguments replaced by a
/// pointer to their part.
pub open spec fn kept_call(
    call: ToolCallView,
    turns: u32,
    index: nat,
    pointer: Seq<char>,
) -> ToolCallView {
    ToolCallView {
        id: conversation_id(call, turns, index),
        name: call.name,
        args_json: pointer,
    }
}

/// The message that a conversation keeps of a turn.
pub open spec fn kept_turn(
    t: ContentModelTurnV1,
    turns: u32,
    stored: Seq<PartView>,
    pointers: Seq<Seq<char>>,
) -> ContentMessageView {
    ContentMessageView {
        role: "assistant"@,
        parts: stored.take(spoken(t) as int) + part_views(t.output_parts@) + stored.skip(
            spoken(t) as int,
        ),
        tool_call_id: Seq::empty(),
        tool_calls: Seq::new(
            t.tool_calls@.len(),
            |i: int| kept_call(t.tool_calls@[i]@, turns, i as nat, pointers[i]),
        ),
    }
}

/// How a tool's text is stored.
pub open spec fn tool_store(
    used: Seq<Seq<char>>,
    text: Seq<char>,
    turns: u32,
    messages: nat,
    tool_call_id: Seq<char>,
) -> StoreView {
    StoreView {
        part_id: reserved(
            used,
            "shikigami-tool-"@ + decimal(turns as nat) + "-"@ + decimal(messages),
        ),
        text,
        source: "tool"@,
        source_id: tool_call_id,
    }
}

/// The ids that are taken before a turn stores anything: those of the conversation and
/// those of the output parts.
pub open spec fn taken_ids(m: Seq<ContentMessageV1>, t: ContentModelTurnV1) -> Seq<Seq<char>> {
    part_ids(all_parts(m)) + part_ids(part_views(t.output_parts@))
}

/// What a turn stores in a conversation, in order.
pub open spec fn planned(
    m: Seq<ContentMessageV1>,
    t: ContentModelTurnV1,
    turns: u32,
) -> Seq<StoreView> {
    stores(taken_ids(m, t), t, turns, t.tool_calls@.len() as int)
}

/// Whether one of some new ids is taken, or repeats one before it.
pub open spec fn repeats(taken: Seq<Seq<char>>, ids: Seq<Seq<char>>) -> bool {
    exists|i: int|
        0 <= i < ids.len() && (taken + ids.take(i)).contains(#[trigger] ids[i])
}

/// Why a turn is not appended to a conversation. `stored` are the parts that were stored
/// for it.
pub open spec fn append_fault(
    c: ContentSession,
    t: ContentModelTurnV1,
    stored: Seq<PartView>,
) -> Option<Seq<char>> {
    let parts = all_parts(c.messages@);
    let out = part_views(t.output_parts@);
    if calls_disclose(t.tool_calls@, references(parts), t.tool_calls@.len() as int) {
        Some("content tool arguments must not disclose raw resolver references"@)
    } else if outputs_fault(c.capabilities, part_ids(parts), out, out.len() as int) is Some {
        outputs_fault(c.capabilities, part_ids(parts), out, out.len() as int)
    } else if turn_fault(c.capabilities, c.messages@, t) is Some {
        turn_fault(c.capabilities, c.messages@, t)
    } else if repeats(taken_ids(c.messages@, t), part_ids(stored)) {
        Some("content part id is already used"@)
    } else {
        None
    }
}

/// Whether a session's conversation has grown by one message.
pub open spec fn grown(a: RunSession, b: RunSession, message: ContentMessageView) -> bool {
    &&& same_but_content(a, b)
    &&& b.content is Some
    &&& a.content is Some
    &&& a.content->0 == (ContentSession { messages: a.content->0.messages, ..b.content->0 })
    &&& content_views(a.content->0.messages@) == content_views(b.content->0.messages@).push(message)
}

/// Why a check of content made outside failed, as the error of the run.
pub fn content_result(failure: Option<String>) -> (r: Result<(), RunError>)
    ensures
        match failure {
            None => r is Ok,
            Some(m) => r matches Err(e) && run_message(e, m@),
        },
{
    match failure {
        None => Ok(()),
        Some(m) => Err(RunError::Message(m)),
    }
}

/// Goes on where an output part resolved to what its descriptor names.
pub fn resolved_output(part: &ContentPartDescriptor, resolution: Resolution) -> (r: Result<
    (),
    RunError,
>)
    ensures
        match resolution {
            Resolution::Failed => r matches Err(e) && run_message(
                e,
                "content resolver failed for output part `"@ + part.part_id@ + "`"@,
            ),
            Resolution::Misfit(m) => r matches Err(e) && run_message(e, m@),
            Resolution::Fits => r is Ok,
        },
{
    match resolution {
        Resolution::Failed => {
            let mut s = "content resolver failed for output part `".to_owned();
            s.append(part.part_id.as_str());
            s.append("`");
            Err(RunError::Message(s))
        },
        Resolution::Misfit(m) => Err(RunError::Message(m)),
        Resolution::Fits => Ok(()),
    }
}

fn generated_sizes(turn: &ContentModelTurnV1) -> (v: Vec<usize>)
    ensures
        v@.len() == generated(*turn).len(),
        forall|i: int| 0 <= i < v@.len() ==> v@[i] == generated(*turn)[i],
{
    let ghost g = generated(*turn);
    let mut v: Vec<usize> = Vec::new();
    if !turn.text.as_str().is_empty() {
        v.push(turn.text.as_str().as_bytes().len());
    }
    let ghost start = v@.len();
    let mut i: usize = 0;
    while i < turn.tool_calls.len()
        invariant
            g == generated(*turn),
            start == spoken(*turn),
            i <= turn.tool_calls@.len(),
            v@.len() == start + i,
            forall|j: int| 0 <= j < v@.len() ==> v@[j] == g[j],
        decreases turn.tool_calls@.len() - i,
    {
        assert(g[start + i] == byte_len(turn.tool_calls@[i as int].args_json@));
        v.push(turn.tool_calls[i].args_json.as_str().as_bytes().len());
        i = i + 1;
    }
    v
}

proof fn sum_grows(v: Seq<nat>, n: int, m: int)
    requires
        0 <= n <= m <= v.len(),
    ensures
        sum_of(v, n) <= sum_of(v, m),
    decreases m - n,
{
    if n < m {
        sum_grows(v, n, m - 1);
    }
}

fn add_parts(parts: &Vec<ContentPartDescriptor>, start: u64) -> (r: Option<u64>)
    ensures
        ({
            let total = start + total_bytes(part_views(parts@));
            if total > u64::MAX {
                r is None
            } else {
                r == Some(total as u64)
            }
        }),
{
    let ghost v = part_views(parts@);
    let mut sum: u64 = start;
    let mut i: usize = 0;
    while i < parts.len()
        invariant
            v == part_views(parts@),
            i <= parts@.len(),
            sum == start + part_bytes(v, i as int),
        decreases parts@.len() - i,
    {
        proof {
            bytes_grow(v, i + 1, v.len() as int);
        }
        match sum.checked_add(parts[i].byte_length) {
            None => {
                return None;
            },
            Some(s) => {
                sum = s;
            },
        }
        i = i + 1;
    }
    Some(sum)
}

fn add_sizes(sizes: &Vec<usize>, Ghost(g): Ghost<Seq<nat>>, start: u64) -> (r: Option<u64>)
    requires
        sizes@.len() == g.len(),
        forall|i: int| 0 <= i < g.len() ==> sizes@[i] == g[i],
    ensures
        ({
            let total = start + sum_of(g, g.len() as int);
            if total > u64::MAX {
                r is None
            } else {
                r == Some(total as u64)
            }
        }),
{
    let mut sum: u64 = start;
    let mut i: usize = 0;
    while i < sizes.len()
        invariant
            sizes@.len() == g.len(),
            forall|j: int| 0 <= j < g.len() ==> sizes@[j] == g[j],
            i <= sizes@.len(),
            sum == start + sum_of(g, i as int),
        decreases sizes@.len() - i,
    {
        proof {
            sum_grows(g, i + 1, g.len() as int);
            assert(sizes@[i as int] == g[i as int]);
        }
        match sum.checked_add(sizes[i] as u64) {
            None => {
                return None;
            },
            Some(s) => {
                sum = s;
            },
        }
        i = i + 1;
    }
    Some(sum)
}

fn any_bad_size(sizes: &Vec<usize>, Ghost(g): Ghost<Seq<nat>>, limit: u64) -> (r: bool)
    requires
        sizes@.len() == g.len(),
        forall|i: int| 0 <= i < g.len() ==> sizes@[i] == g[i],
    ensures
        r == (exists|i: int| 0 <= i < g.len() && bad_size(#[trigger] g[i], limit)),
{
    let mut i: usize = 0;
    while i < sizes.len()
        invariant
            sizes@.len() == g.len(),
            forall|j: int| 0 <= j < g.len() ==> sizes@[j] == g[j],
            i <= sizes@.len(),
            forall|j: int| 0 <= j < i ==> !bad_size(#[trigger] g[j], limit),
        decreases sizes@.len() - i,
    {
        assert(sizes@[i as int] == g[i as int]);
        if sizes[i] == 0 || sizes[i] as u64 > limit {
            assert(bad_size(g[i as int], limit));
            return true;
        }
        i = i + 1;
    }
    false
}

impl RunSession {
    /// Goes on where every accepted part of the conversation still resolves. `fault` is
    /// why one does not. A run without content has nothing to resolve.
    pub fn revalidate_content(&self, fault: Option<String>) -> (r: Result<(), RunError>)
        ensures
            match (self.content, fault) {
                (Some(_), Some(m)) => r matches Err(e) && run_message(e, m@),
                _ => r is Ok,
            },
    {
        match &self.content {
            None => Ok(()),
            Some(_) => content_result(fault),
        }
    }

    /// Whether the sizes of the conversation can be counted. A run without content has
    /// none.
    pub fn content_is_countable(&self) -> (r: bool)
        ensures
            r == (self.content is Some ==> countable(self.content->0.messages@)),
    {
        match &self.content {
            None => true,
            Some(c) => is_countable(&c.messages),
        }
    }

    /// Starts appending a model turn: no call may disclose a reference of the
    /// conversation. Gives the part ids that are taken.
    pub fn begin_content_turn(&self, turn: &ContentModelTurnV1) -> (r: Result<
        Vec<String>,
        RunError,
    >)
        requires
            self.content is Some ==> countable(self.content->0.messages@),
        ensures
            match self.content {
                None => r matches Err(e) && run_message(e, "content session is unavailable"@),
                Some(c) => {
                    let parts = all_parts(c.messages@);
                    if calls_disclose(
                        turn.tool_calls@,
                        references(parts),
                        turn.tool_calls@.len() as int,
                    ) {
                        r matches Err(e) && run_message(
                            e,
                            "content tool arguments must not disclose raw resolver references"@,
                        )
                    } else {
                        r matches Ok(ids) && texts(ids@) == part_ids(parts)
                    }
                },
            },
    {
        match &self.content {
            None => Err(unavailable()),
            Some(c) => {
                let t = tally(&c.messages);
                let ghost refs = texts(t.references@);
                let mut i: usize = 0;
                while i < turn.tool_calls.len()
                    invariant
                        i <= turn.tool_calls@.len(),
                        refs == texts(t.references@),
                        refs == references(all_parts(c.messages@)),
                        self.content is Some && self.content->0 == *c,
                        !calls_disclose(turn.tool_calls@, refs, i as int),
                    decreases turn.tool_calls@.len() - i,
                {
                    if tool_arguments_disclose_reference(
                        turn.tool_calls[i].args_json.as_str(),
                        &t.references,
                    ) {
                        proof {
                            later_calls_disclose(
                                turn.tool_calls@,
                                refs,
                                i + 1,
                                turn.tool_calls@.len() as int,
                            );
                        }
                        return Err(
                            message_error(
                                "content tool arguments must not disclose raw resolver references",
                            ),
                        );
                    }
                    i = i + 1;
                }
                Ok(t.ids)
            },
        }
    }

    /// Checks an output part and takes its id; a refused part takes none. Says whether
    /// the part has to be resolved. `invalid` is what is wrong with the descriptor, if
    /// anything is.
    pub fn check_output_part(
        &self,
        used: &mut Vec<String>,
        part: &ContentPartDescriptor,
        invalid: Option<String>,
    ) -> (r: Result<bool, RunError>)
        ensures
            match self.content {
                None => r matches Err(e) && run_message(e, "content session is unavailable"@)
                    && final(used)@ == old(used)@,
                Some(c) => match part_fault(
                    c.capabilities,
                    texts(old(used)@),
                    part@,
                    crate::text::opt_view(invalid),
                ) {
                    Some(m) => r matches Err(e) && run_message(e, m) && final(used)@ == old(used)@,
                    None => r == Ok::<bool, RunError>(
                        part.disclosure_state == ContentDisclosureState::Accepted,
                    ) && texts(final(used)@) == texts(old(used)@).push(part.part_id@),
                },
            },
    {
        match &self.content {
            None => Err(unavailable()),
            Some(c) => {
                if let Some(m) = invalid {
                    return Err(RunError::Message(m));
                }
                if holds(used, part.part_id.as_str()) {
                    return Err(message_error("model returned a duplicate content part id"));
                }
                if !allows(&c.capabilities.output_kinds, part.kind) {
                    return Err(message_error("model returned an unsupported content output kind"));
                }
                if !allows(&c.capabilities.input_kinds, part.kind) || !holds(
                    &c.capabilities.media_types,
                    part.media_type.as_str(),
                ) || part.byte_length > c.capabilities.max_part_bytes {
                    return Err(
                        message_error(
                            "model returned content outside the configured capability bounds",
                        ),
                    );
                }
                let ghost before = used@;
                used.push(part.part_id.clone());
                assert(texts(used@) =~= texts(before).push(part.part_id@));
                Ok(part.disclosure_state == ContentDisclosureState::Accepted)
            },
        }
    }

    /// Checks the size of a turn against the bounds of the conversation.
    pub fn check_content_turn(&self, turn: &ContentModelTurnV1) -> (r: Result<(), RunError>)
        requires
            self.content is Some ==> countable(self.content->0.messages@),
        ensures
            match self.content {
                None => r matches Err(e) && run_message(e, "content session is unavailable"@),
                Some(c) => match turn_fault(c.capabilities, c.messages@, *turn) {
                    Some(m) => r matches Err(e) && run_message(e, m),
                    None => r is Ok,
                },
            },
    {
        match &self.content {
            None => Err(unavailable()),
            Some(c) => {
                let t = tally(&c.messages);
                let ghost g = generated(*turn);
                let sizes = generated_sizes(turn);
                if sizes.len() > 0 && (!allows(
                    &c.capabilities.input_kinds,
                    ContentPartKind::Text,
                ) || !holds(&c.capabilities.media_types, "text/plain")) {
                    return Err(
                        message_error("content capabilities do not permit externalized text"),
                    );
                }
                if any_bad_size(&sizes, Ghost(g), c.capabilities.max_part_bytes) {
                    return Err(
                        message_error(
                            "content model text or tool arguments exceed the configured part bound",
                        ),
                    );
                }
                let next_count: usize = t.count.saturating_add(
                    turn.output_parts.len(),
                ).saturating_add(sizes.len());
                let bytes = match add_parts(&turn.output_parts, t.bytes) {
                    None => None,
                    Some(b) => add_sizes(&sizes, Ghost(g), b),
                };
                match bytes {
                    None => Err(message_error("content size overflow")),
                    Some(next_bytes) => {
                        if next_count > c.capabilities.max_parts as usize || next_bytes
                            > c.capabilities.max_aggregate_bytes {
                            return Err(
                                message_error(
                                    "content model output exceeds the configured aggregate bound",
                                ),
                            );
                        }
                        if sizes.len() == 0 && turn.output_parts.len() == 0 {
                            return Err(
                                message_error(
                                    "content model turn returned no output or tool calls",
                                ),
                            );
                        }
                        Ok(())
                    },
                }
            },
        }
    }

    /// What a turn stores, in order: its text, then the arguments of each call. Each gets
    /// an id that nothing in the conversation or in the turn has.
    pub fn plan_content_turn(&self, turn: &ContentModelTurnV1) -> (r: Result<
        Vec<StoreText>,
        RunError,
    >)
        requires
            self.content is Some ==> countable(self.content->0.messages@),
        ensures
            match self.content {
                None => r matches Err(e) && run_message(e, "content session is unavailable"@),
                Some(c) => r matches Ok(v) && store_views(v@) == planned(
                    c.messages@,
                    *turn,
                    self.turns,
                ),
            },
    {
        let mut used = match &self.content {
            None => {
                return Err(unavailable());
            },
            Some(c) => {
                let t = tally(&c.messages);
                t.ids
            },
        };
        let ghost out = part_ids(part_views(turn.output_parts@));
        let ghost known = texts(used@);
        let mut k: usize = 0;
        while k < turn.output_parts.len()
            invariant
                out == part_ids(part_views(turn.output_parts@)),
                k <= turn.output_parts@.len(),
                texts(used@) =~= known + out.take(k as int),
            decreases turn.output_parts@.len() - k,
        {
            let ghost before = used@;
            used.push(turn.output_parts[k].part_id.clone());
            k = k + 1;
            assert(texts(used@) =~= texts(before).push(out[k - 1]));
            assert(out.take(k as int) =~= out.take(k - 1).push(out[k - 1]));
        }
        assert(out.take(out.len() as int) =~= out);
        let ghost taken = texts(used@);
        let mut v: Vec<StoreText> = Vec::new();
        assert(store_ids(store_views(v@)) =~= Seq::<Seq<char>>::empty());
        assert(taken + store_ids(store_views(v@)) =~= taken);
        if !turn.text.as_str().is_empty() {
            let mut base = "shikigami-model-".to_owned();
            push_number(&mut base, self.turns as u64);
            base.append("-text");
            let part_id = reserve_part_id(&mut used, base.as_str());
            let mut source_id = "turn-".to_owned();
            push_number(&mut source_id, self.turns as u64);
            let s = StoreText {
                part_id,
                text: turn.text.clone(),
                source: "model".to_owned(),
                source_id,
            };
            v.push(s);
            assert(s@ =~= text_store(taken, turn.text@, self.turns));
            assert(store_views(v@) =~= seq![s@]);
            assert(taken + store_ids(store_views(v@)) =~= taken.push(s.part_id@));
        } else {
            assert(store_views(v@) =~= Seq::<StoreView>::empty());
        }
        let mut i: usize = 0;
        while i < turn.tool_calls.len()
            invariant
                i <= turn.tool_calls@.len(),
                store_views(v@) == stores(taken, *turn, self.turns, i as int),
                texts(used@) == taken + store_ids(store_views(v@)),
            decreases turn.tool_calls@.len() - i,
        {
            let ghost before = v@;
            let ghost used_before = texts(used@);
            let mut base = "shikigami-model-".to_owned();
            push_number(&mut base, self.turns as u64);
            base.append("-tool-");
            push_number(&mut base, i as u64);
            base.append("-arguments");
            let part_id = reserve_part_id(&mut used, base.as_str());
            let mut source_id = "turn-".to_owned();
            push_number(&mut source_id, self.turns as u64);
            source_id.append("-call-");
            push_number(&mut source_id, i as u64);
            let s = StoreText {
                part_id,
                text: turn.tool_calls[i].args_json.clone(),
                source: "model-tool-arguments".to_owned(),
                source_id,
            };
            v.push(s);
            assert(s@ =~= arguments_store(
                used_before,
                turn.tool_calls@[i as int].args_json@,
                self.turns,
                i as nat,
            ));
            assert(store_views(v@) =~= store_views(before).push(s@));
            assert(store_ids(store_views(v@)) =~= store_ids(store_views(before)).push(s.part_id@));
            assert(texts(used@) =~= taken + store_ids(store_views(v@)));
            i = i + 1;
        }
        Ok(v)
    }

    /// Goes on where a turn may be appended with what was stored for it.
    fn check_append(
        &self,
        turn: &ContentModelTurnV1,
        stored: &Vec<ContentPartDescriptor>,
    ) -> (r: Result<(), RunError>)
        requires
            self.content is Some ==> countable(self.content->0.messages@),
        ensures
            match self.content {
                None => r matches Err(e) && run_message(e, "content session is unavailable"@),
                Some(c) => match append_fault(c, *turn, part_views(stored@)) {
                    Some(m) => r matches Err(e) && run_message(e, m),
                    None => r is Ok,
                },
            },
    {
        let mut used = match self.begin_content_turn(turn) {
            Err(e) => {
                return Err(e);
            },
            Ok(ids) => ids,
        };
        let ghost c = self.content->0;
        let ghost out = part_views(turn.output_parts@);
        let ghost ids = part_ids(out);
        let ghost known = texts(used@);
        let mut i: usize = 0;
        while i < turn.output_parts.len()
            invariant
                self.content == Some(c),
                known == part_ids(all_parts(c.messages@)),
                !calls_disclose(
                    turn.tool_calls@,
                    references(all_parts(c.messages@)),
                    turn.tool_calls@.len() as int,
                ),
                out == part_views(turn.output_parts@),
                ids == part_ids(out),
                i <= turn.output_parts@.len(),
                texts(used@) =~= known + ids.take(i as int),
                outputs_fault(c.capabilities, known, out, i as int) is None,
            decreases turn.output_parts@.len() - i,
        {
            let ghost before = texts(used@);
            let checked = self.check_output_part(&mut used, &turn.output_parts[i], None);
            assert(out[i as int] == turn.output_parts@[i as int]@);
            proof {
                if checked is Err {
                    first_fault_stays(
                        c.capabilities,
                        known,
                        out,
                        i + 1,
                        turn.output_parts@.len() as int,
                    );
                }
            }
            if let Err(e) = checked {
                return Err(e);
            }
            i = i + 1;
            assert(ids.take(i as int) =~= ids.take(i - 1).push(ids[i - 1]));
            assert(texts(used@) =~= known + ids.take(i as int));
        }
        assert(ids.take(ids.len() as int) =~= ids);
        if let Err(e) = self.check_content_turn(turn) {
            return Err(e);
        }
        let ghost taken = texts(used@);
        let ghost new = part_ids(part_views(stored@));
        let mut k: usize = 0;
        while k < stored.len()
            invariant
                self.content == Some(c),
                taken == taken_ids(c.messages@, *turn),
                new == part_ids(part_views(stored@)),
                append_fault(c, *turn, part_views(stored@)) == (if repeats(taken, new) {
                    Some("content part id is already used"@)
                } else {
                    None
                }),
                k <= stored@.len(),
                texts(used@) =~= taken + new.take(k as int),
                forall|j: int|
                    0 <= j < k ==> !(taken + new.take(j)).contains(#[trigger] new[j]),
            decreases stored@.len() - k,
        {
            assert(new[k as int] == stored@[k as int].part_id@);
            if holds(&used, stored[k].part_id.as_str()) {
                assert(repeats(taken, new));
                return Err(message_error("content part id is already used"));
            }
            let ghost before = used@;
            used.push(stored[k].part_id.clone());
            k = k + 1;
            assert(texts(used@) =~= texts(before).push(new[k - 1]));
            assert(new.take(k as int) =~= new.take(k - 1).push(new[k - 1]));
        }
        Ok(())
    }

    /// Appends a stored turn to the conversation. `stored` are the parts that
    /// were stored for it, `pointers` the arguments that stand for those of its
    /// calls; how such a text names its part is the content store's. A turn that
    /// discloses a reference, does not fit the capabilities or brings an id twice is
    /// refused, and the conversation stays as it was.
    pub fn append_content_model_turn(
        &mut self,
        turn: &ContentModelTurnV1,
        stored: &Vec<ContentPartDescriptor>,
        pointers: &Vec<String>,
    ) -> (r: Result<(), RunError>)
        requires
            stored@.len() == spoken(*turn) + turn.tool_calls@.len(),
            pointers@.len() == turn.tool_calls@.len(),
            old(self).content is Some ==> countable(old(self).content->0.messages@),
        ensures
            match old(self).content {
                None => r matches Err(e) && run_message(e, "content session is unavailable"@)
                    && *final(self) == *old(self),
                Some(c) => match append_fault(c, *turn, part_views(stored@)) {
                    Some(m) => r matches Err(e) && run_message(e, m) && *final(self) == *old(self),
                    None => r is Ok && grown(
                        *final(self),
                        *old(self),
                        kept_turn(*turn, old(self).turns, part_views(stored@), texts(pointers@)),
                    ),
                },
            },
    {
        if let Err(e) = self.check_append(turn, stored) {
            return Err(e);
        }
        match self.content.take() {
            None => {
                assert(*self == *old(self));
                Err(unavailable())
            },
            Some(mut content) => {
                let mut parts: Vec<ContentPartDescriptor> = Vec::new();
                let mut from: usize = 0;
                if !turn.text.as_str().is_empty() {
                    parts.push(stored[0].duplicate());
                    from = 1;
                }
                assert(part_views(parts@) =~= part_views(stored@).take(from as int));
                let mut i: usize = 0;
                let ghost head = part_views(parts@);
                let ghost out = part_views(turn.output_parts@);
                while i < turn.output_parts.len()
                    invariant
                        out == part_views(turn.output_parts@),
                        i <= turn.output_parts@.len(),
                        part_views(parts@) =~= head + out.take(i as int),
                    decreases turn.output_parts@.len() - i,
                {
                    let ghost before = parts@;
                    parts.push(turn.output_parts[i].duplicate());
                    i = i + 1;
                    assert(part_views(parts@) =~= part_views(before).push(out[i - 1]));
                    assert(out.take(i as int) =~= out.take(i - 1).push(out[i - 1]));
                }
                assert(out.take(out.len() as int) =~= out);
                let ghost middle = part_views(parts@);
                let ghost all = part_views(stored@);
                let mut calls: Vec<ToolCall> = Vec::new();
                i = 0;
                while i < turn.tool_calls.len()
                    invariant
                        all == part_views(stored@),
                        from == spoken(*turn),
                        stored@.len() == from + turn.tool_calls@.len(),
                        pointers@.len() == turn.tool_calls@.len(),
                        i <= turn.tool_calls@.len(),
                        part_views(parts@) =~= middle + all.skip(from as int).take(i as int),
                        calls@.len() == i,
                        forall|j: int|
                            0 <= j < i ==> (#[trigger] calls@[j])@ == kept_call(
                                turn.tool_calls@[j]@,
                                self.turns,
                                j as nat,
                                pointers@[j]@,
                            ),
                    decreases turn.tool_calls@.len() - i,
                {
                    let count: usize = stored.len();
                    assert(from + i < count);
                    let ghost before = parts@;
                    parts.push(stored[from + i].duplicate());
                    let call = ToolCall {
                        id: conversation_tool_call_id(&turn.tool_calls[i], self.turns, i),
                        name: turn.tool_calls[i].name.clone(),
                        args_json: pointers[i].clone(),
                    };
                    assert(call@ =~= kept_call(
                        turn.tool_calls@[i as int]@,
                        self.turns,
                        i as nat,
                        pointers@[i as int]@,
                    ));
                    calls.push(call);
                    i = i + 1;
                    let ghost rest = all.skip(from as int);
                    assert(rest[i - 1] == all[from + i - 1]);
                    assert(part_views(parts@) =~= part_views(before).push(rest[i - 1]));
                    assert(rest.take(i as int) =~= rest.take(i - 1).push(rest[i - 1]));
                }
                let ghost rest = all.skip(from as int);
                assert(rest.take(rest.len() as int) =~= rest);
                let message = ContentMessageV1 {
                    role: "assistant".to_owned(),
                    parts,
                    tool_call_id: String::new(),
                    tool_calls: calls,
                };
                assert(message@ =~= kept_turn(
                    *turn,
                    self.turns,
                    part_views(stored@),
                    texts(pointers@),
                )) by {
                    let k = kept_turn(*turn, self.turns, part_views(stored@), texts(pointers@));
                    assert(message@.parts =~= k.parts);
                    assert(message@.tool_calls =~= k.tool_calls);
                    assert(message@.tool_call_id =~= k.tool_call_id);
                }
                let ghost before = content.messages@;
                content.messages.push(message);
                assert(content_views(content.messages@) =~= content_views(before).push(message@));
                self.content = Some(content);
                Ok(())
            },
        }
    }

    /// How the text of a tool is stored before it is appended.
    pub fn plan_content_tool_text(&self, tool_call_id: &str, text: &str) -> (r: Result<
        StoreText,
        RunError,
    >)
        requires
            self.content is Some ==> countable(self.content->0.messages@),
        ensures
            match self.content {
                None => r matches Err(e) && run_message(e, "content session is unavailable"@),
                Some(c) => r matches Ok(s) && s@ == tool_store(
                    part_ids(all_parts(c.messages@)),
                    text@,
                    self.turns,
                    c.messages@.len(),
                    tool_call_id@,
                ) && !part_ids(all_parts(c.messages@)).contains(s.part_id@),
            },
    {
        match &self.content {
            None => Err(unavailable()),
            Some(c) => {
                let t = tally(&c.messages);
                let mut used = t.ids;
                let mut base = "shikigami-tool-".to_owned();
                push_number(&mut base, self.turns as u64);
                base.append("-");
                push_number(&mut base, c.messages.len() as u64);
                let part_id = reserve_part_id(&mut used, base.as_str());
                Ok(
                    StoreText {
                        part_id,
                        text: text.to_owned(),
                        source: "tool".to_owned(),
                        source_id: tool_call_id.to_owned(),
                    },
                )
            },
        }
    }

    /// Appends the stored text of a tool to the conversation. A part whose id is taken is
    /// refused.
    pub fn append_content_tool_text(
        &mut self,
        tool_call_id: String,
        stored: ContentPartDescriptor,
    ) -> (r: Result<(), RunError>)
        requires
            old(self).content is Some ==> countable(old(self).content->0.messages@),
        ensures
            if old(self).content is None {
                r matches Err(e) && run_message(e, "content session is unavailable"@)
                    && *final(self) == *old(self)
            } else if part_ids(all_parts(old(self).content->0.messages@)).contains(
                stored.part_id@,
            ) {
                r matches Err(e) && run_message(e, "content part id is already used"@)
                    && *final(self) == *old(self)
            } else {
                r is Ok && grown(
                    *final(self),
                    *old(self),
                    (ContentMessageView {
                        role: "tool"@,
                        parts: seq![stored@],
                        tool_call_id: tool_call_id@,
                        tool_calls: Seq::empty(),
                    }),
                )
            },
    {
        if let Some(c) = &self.content {
            let t = tally(&c.messages);
            if holds(&t.ids, stored.part_id.as_str()) {
                return Err(message_error("content part id is already used"));
            }
        }
        match self.content.take() {
            None => {
                assert(*self == *old(self));
                Err(unavailable())
            },
            Some(mut content) => {
                let ghost view = stored@;
                let mut parts: Vec<ContentPartDescriptor> = Vec::new();
                parts.push(stored);
                let message = ContentMessageV1 {
                    role: "tool".to_owned(),
                    parts,
                    tool_call_id,
                    tool_calls: Vec::new(),
                };
                assert(message@.parts =~= seq![view]);
                assert(message@.tool_calls =~= Seq::<ToolCallView>::empty());
                let ghost before = content.messages@;
                content.messages.push(message);
                assert(content_views(content.messages@) =~= content_views(before).push(message@));
                self.content = Some(content);
                Ok(())
            },
        }
    }
}

proof fn first_fault_stays(
    c: ContentCapabilitiesV1,
    used: Seq<Seq<char>>,
    parts: Seq<PartView>,
    n: int,
    m: int,
)
    requires
        n <= m <= parts.len(),
        outputs_fault(c, used, parts, n) is Some,
    ensures
        outputs_fault(c, used, parts, m) == outputs_fault(c, used, parts, n),
    decreases m - n,
{
    if n < m {
        first_fault_stays(c, used, parts, n, m - 1);
    }
}

proof fn later_calls_disclose(calls: Seq<ToolCall>, refs: Seq<Seq<char>>, n: int, m: int)
    requires
        n <= m <= calls.len(),
        calls_disclose(calls, refs, n),
    ensures
        calls_disclose(calls, refs, m),
    decreases m - n,
{
    if n < m {
        later_calls_disclose(calls, refs, n, m - 1);
    }
}

// ---------------------------------------------------------------------------
// Laws
// ---------------------------------------------------------------------------

proof fn planned_ids_are_fresh(
    taken: Seq<Seq<char>>,
    t: ContentModelTurnV1,
    turns: u32,
    n: int,
)
    requires
        0 <= n <= t.tool_calls@.len(),
    ensures
        !repeats(taken, store_ids(stores(taken, t, turns, n))),
        stores(taken, t, turns, n).len() == spoken(t) + n,
    decreases n,
{
    let v = stores(taken, t, turns, n);
    let ids = store_ids(v);
    if n == 0 {
        if t.text@.len() > 0 {
            reserved_is_fresh(taken, "shikigami-model-"@ + decimal(turns as nat) + "-text"@);
            assert(taken + ids.take(0) =~= taken);
        }
    } else {
        let before = stores(taken, t, turns, n - 1);
        planned_ids_are_fresh(taken, t, turns, n - 1);
        let k = before.len() as int;
        assert(ids =~= store_ids(before).push(ids[k]));
        reserved_is_fresh(
            taken + store_ids(before),
            "shikigami-model-"@ + decimal(turns as nat) + "-tool-"@ + decimal((n - 1) as nat)
                + "-arguments"@,
        );
        assert(ids.take(k) =~= store_ids(before));
        assert forall|i: int| 0 <= i < ids.len() implies !(taken + ids.take(i)).contains(
            #[trigger] ids[i],
        ) by {
            if i < k {
                assert(ids[i] == store_ids(before)[i]);
                assert(ids.take(i) =~= store_ids(before).take(i));
            }
        }
    }
}

/// A turn that passes its checks and is stored as it was planned is appended.
pub proof fn planned_turn_is_appended(
    c: ContentSession,
    t: ContentModelTurnV1,
    turns: u32,
    stored: Seq<PartView>,
)
    requires
        !calls_disclose(
            t.tool_calls@,
            references(all_parts(c.messages@)),
            t.tool_calls@.len() as int,
        ),
        outputs_fault(
            c.capabilities,
            part_ids(all_parts(c.messages@)),
            part_views(t.output_parts@),
            t.output_parts@.len() as int,
        ) is None,
        turn_fault(c.capabilities, c.messages@, t) is None,
        part_ids(stored) == store_ids(planned(c.messages@, t, turns)),
    ensures
        append_fault(c, t, stored) is None,
{
    planned_ids_are_fresh(taken_ids(c.messages@, t), t, turns, t.tool_calls@.len() as int);
}

proof fn parts_follow_the_views(
    a: Seq<ContentMessageV1>,
    b: Seq<ContentMessageV1>,
    n: int,
)
    requires
        0 <= n <= a.len(),
        n <= b.len(),
        forall|i: int| 0 <= i < n ==> (#[trigger] a[i])@ == b[i]@,
    ensures
        parts_before(a, n) == parts_before(b, n),
    decreases n,
{
    if n > 0 {
        parts_follow_the_views(a, b, n - 1);
        assert(a[n - 1]@ == b[n - 1]@);
        assert(a[n - 1]@.parts == b[n - 1]@.parts);
    }
}

/// The parts of a conversation that has grown: those before, then those of the message.
proof fn grown_parts(a: RunSession, b: RunSession, message: ContentMessageView)
    requires
        grown(a, b, message),
    ensures
        all_parts(a.content->0.messages@) == all_parts(b.content->0.messages@) + message.parts,
{
    let x = a.content->0.messages@;
    let y = b.content->0.messages@;
    let n = y.len() as int;
    assert(content_views(x).len() == n + 1);
    assert forall|i: int| 0 <= i < n implies (#[trigger] x[i])@ == y[i]@ by {
        assert(content_views(x)[i] == content_views(y).push(message)[i]);
        assert(content_views(y)[i] == y[i]@);
    }
    assert(content_views(x)[n] == message);
    parts_follow_the_views(x, y, n);
}

proof fn fresh_outputs(c: ContentCapabilitiesV1, used: Seq<Seq<char>>, parts: Seq<PartView>, n: int)
    requires
        0 <= n <= parts.len(),
        outputs_fault(c, used, parts, n) is None,
    ensures
        forall|i: int|
            0 <= i < n ==> !(used + part_ids(parts).take(i)).contains(#[trigger] part_ids(parts)[i]),
    decreases n,
{
    if n > 0 {
        fresh_outputs(c, used, parts, n - 1);
        assert(part_ids(parts)[n - 1] == parts[n - 1].part_id);
    }
}

proof fn fresh_ids_add_no_duplicate(taken: Seq<Seq<char>>, ids: Seq<Seq<char>>)
    requires
        taken.no_duplicates(),
        forall|i: int|
            0 <= i < ids.len() ==> !(taken + ids.take(i)).contains(#[trigger] ids[i]),
    ensures
        (taken + ids).no_duplicates(),
{
    let all = taken + ids;
    assert forall|i: int, j: int| 0 <= i < j < all.len() implies all[i] != all[j] by {
        if j >= taken.len() {
            let k = j - taken.len();
            let before = taken + ids.take(k);
            assert(before[i] == all[i]);
            assert(ids[k] == all[j]);
            assert(!before.contains(ids[k]));
        }
    }
}

/// Appending a turn brings no part id twice into the conversation.
pub proof fn appended_turn_repeats_no_id(
    a: RunSession,
    b: RunSession,
    t: ContentModelTurnV1,
    stored: Seq<PartView>,
    pointers: Seq<Seq<char>>,
)
    requires
        b.content is Some,
        part_ids(all_parts(b.content->0.messages@)).no_duplicates(),
        stored.len() == spoken(t) + t.tool_calls@.len(),
        append_fault(b.content->0, t, stored) is None,
        grown(a, b, kept_turn(t, b.turns, stored, pointers)),
    ensures
        part_ids(all_parts(a.content->0.messages@)).no_duplicates(),
{
    let c = b.content->0;
    let known = part_ids(all_parts(c.messages@));
    let out = part_views(t.output_parts@);
    let message = kept_turn(t, b.turns, stored, pointers);
    grown_parts(a, b, message);
    fresh_outputs(c.capabilities, known, out, out.len() as int);
    fresh_ids_add_no_duplicate(known, part_ids(out));
    let taken = known + part_ids(out);
    let new = part_ids(stored);
    assert forall|i: int| 0 <= i < new.len() implies !(taken + new.take(i)).contains(
        #[trigger] new[i],
    ) by {}
    fresh_ids_add_no_duplicate(taken, new);
    let all = taken + new;
    let s = spoken(t) as int;
    let n = known.len() as int;
    let m = out.len() as int;
    let got = part_ids(all_parts(a.content->0.messages@));
    assert(got.len() == all.len());
    assert forall|i: int, j: int| 0 <= i < j < got.len() implies got[i] != got[j] by {
        let p = if i < n {
            i
        } else if i < n + s {
            i + m
        } else if i < n + s + m {
            i - s
        } else {
            i
        };
        let q = if j < n {
            j
        } else if j < n + s {
            j + m
        } else if j < n + s + m {
            j - s
        } else {
            j
        };
        assert(got[i] == all[p]);
        assert(got[j] == all[q]);
        assert(p != q);
    }
}

/// Appending the text of a tool brings no part id twice into the conversation.
pub proof fn appended_tool_text_repeats_no_id(
    a: RunSession,
    b: RunSession,
    tool_call_id: Seq<char>,
    stored: PartView,
)
    requires
        b.content is Some,
        part_ids(all_parts(b.content->0.messages@)).no_duplicates(),
        !part_ids(all_parts(b.content->0.messages@)).contains(stored.part_id),
        grown(
            a,
            b,
            (ContentMessageView {
                role: "tool"@,
                parts: seq![stored],
                tool_call_id,
                tool_calls: Seq::empty(),
            }),
        ),
    ensures
        part_ids(all_parts(a.content->0.messages@)).no_duplicates(),
{
    let message = ContentMessageView {
        role: "tool"@,
        parts: seq![stored],
        tool_call_id,
        tool_calls: Seq::empty(),
    };
    grown_parts(a, b, message);
    let known = part_ids(all_parts(b.content->0.messages@));
    assert(part_ids(all_parts(a.content->0.messages@)) =~= known.push(stored.part_id));
}

/// The bytes of parts add up: of two lists one after the other they are those of both.
pub proof fn bytes_add_up(v: Seq<PartView>, p: PartView)
    ensures
        total_bytes(Seq::<PartView>::empty()) == 0,
        total_bytes(v.push(p)) == total_bytes(v) + p.byte_length,
{
    bytes_of_a_front(v, p, v.len() as int);
}

proof fn bytes_of_a_front(v: Seq<PartView>, p: PartView, n: int)
    requires
        0 <= n <= v.len(),
    ensures
        part_bytes(v.push(p), n) == part_bytes(v, n),
    decreases n,
{
    if n > 0 {
        bytes_of_a_front(v, p, n - 1);
    }
}

/// A message adds its parts behind those of the messages before it.
pub proof fn messages_add_their_parts(m: Seq<ContentMessageV1>, last: ContentMessageV1)
    ensures
        all_parts(Seq::<ContentMessageV1>::empty()).len() == 0,
        all_parts(m.push(last)) == all_parts(m) + part_views(last.parts@),
{
    parts_of_a_front(m, last, m.len() as int);
}

proof fn parts_of_a_front(m: Seq<ContentMessageV1>, last: ContentMessageV1, n: int)
    requires
        0 <= n <= m.len(),
    ensures
        parts_before(m.push(last), n) == parts_before(m, n),
    decreases n,
{
    if n > 0 {
        parts_of_a_front(m, last, n - 1);
    }
}

/// The calls of a turn disclose a reference just where the arguments of one of them do.
pub proof fn calls_disclose_where_one_does(calls: Seq<ToolCall>, refs: Seq<Seq<char>>, n: int)
    requires
        0 <= n <= calls.len(),
    ensures
        calls_disclose(calls, refs, n) <==> exists|i: int|
            0 <= i < n && arguments_disclose((#[trigger] calls[i]).args_json@, refs),
    decreases n,
{
    if n > 0 {
        calls_disclose_where_one_does(calls, refs, n - 1);
        if calls_disclose(calls, refs, n - 1) {
            let i = choose|i: int|
                0 <= i < n - 1 && arguments_disclose((#[trigger] calls[i]).args_json@, refs);
            assert(arguments_disclose(calls[i].args_json@, refs));
        } else if arguments_disclose(calls[n - 1].args_json@, refs) {
            assert(calls_disclose(calls, refs, n));
        } else {
            assert forall|i: int| 0 <= i < n implies !arguments_disclose(
                (#[trigger] calls[i]).args_json@,
                refs,
            ) by {}
        }
    }
}

/// The parts that a model returns are taken just where each is of a kind that may go out and
/// may come in, of a permitted type and size, and has an id that no part before it has.
pub proof fn outputs_are_taken_within_the_capabilities(
    c: ContentCapabilitiesV1,
    used: Seq<Seq<char>>,
    parts: Seq<PartView>,
    n: int,
)
    requires
        0 <= n <= parts.len(),
    ensures
        outputs_fault(c, used, parts, n) is None <==> forall|i: int|
            0 <= i < n ==> {
                let p = #[trigger] parts[i];
                &&& c.output_kinds@.contains(p.kind)
                &&& c.input_kinds@.contains(p.kind)
                &&& texts(c.media_types@).contains(p.media_type)
                &&& p.byte_length <= c.max_part_bytes
                &&& !(used + part_ids(parts).take(i)).contains(p.part_id)
            },
    decreases n,
{
    if n > 0 {
        outputs_are_taken_within_the_capabilities(c, used, parts, n - 1);
        let p = parts[n - 1];
    }
}

/// A turn is taken only where what it says and each call's arguments are neither empty nor
/// larger than a part may be, plain text is permitted for them, and the conversation with
/// all of them stays within the number of parts and of bytes.
pub proof fn taken_turn_is_within_bounds(
    c: ContentCapabilitiesV1,
    m: Seq<ContentMessageV1>,
    t: ContentModelTurnV1,
)
    requires
        turn_fault(c, m, t) is None,
    ensures
        t.text@.len() > 0 ==> 0 < byte_len(t.text@) <= c.max_part_bytes,
        forall|i: int|
            0 <= i < t.tool_calls@.len() ==> 0 < byte_len(
                (#[trigger] t.tool_calls@[i]).args_json@,
            ) <= c.max_part_bytes,
        t.text@.len() > 0 || t.tool_calls@.len() > 0 ==> c.input_kinds@.contains(
            ContentPartKind::Text,
        ) && texts(c.media_types@).contains("text/plain"@),
        t.text@.len() > 0 || t.tool_calls@.len() > 0 || t.output_parts@.len() > 0,
        all_parts(m).len() + t.output_parts@.len() + t.tool_calls@.len() + (if t.text@.len() > 0 {
            1int
        } else {
            0int
        }) <= c.max_parts || c.max_parts == usize::MAX,
        bytes_after(m, t) <= c.max_aggregate_bytes,
{
    let g = generated(t);
    if t.text@.len() > 0 {
        assert(g[0] == byte_len(t.text@));
        assert(!bad_size(g[0], c.max_part_bytes));
    }
    assert forall|i: int| 0 <= i < t.tool_calls@.len() implies 0 < byte_len(
        (#[trigger] t.tool_calls@[i]).args_json@,
    ) <= c.max_part_bytes by {
        let k = if t.text@.len() > 0 {
            i + 1
        } else {
            i
        };
        assert(g[k] == byte_len(t.tool_calls@[i].args_json@));
        assert(!bad_size(g[k], c.max_part_bytes));
    }
}

/// A turn within the bounds is taken.
pub proof fn turn_within_bounds_is_taken(
    c: ContentCapabilitiesV1,
    m: Seq<ContentMessageV1>,
    t: ContentModelTurnV1,
)
    requires
        t.text@.len() > 0 ==> 0 < byte_len(t.text@) <= c.max_part_bytes,
        forall|i: int|
            0 <= i < t.tool_calls@.len() ==> 0 < byte_len(
                (#[trigger] t.tool_calls@[i]).args_json@,
            ) <= c.max_part_bytes,
        t.text@.len() > 0 || t.tool_calls@.len() > 0 ==> c.input_kinds@.contains(
            ContentPartKind::Text,
        ) && texts(c.media_types@).contains("text/plain"@),
        t.text@.len() > 0 || t.tool_calls@.len() > 0 || t.output_parts@.len() > 0,
        all_parts(m).len() + t.output_parts@.len() + t.tool_calls@.len() + (if t.text@.len() > 0 {
            1int
        } else {
            0int
        }) <= c.max_parts,
        bytes_after(m, t) <= c.max_aggregate_bytes,
    ensures
        turn_fault(c, m, t) is None,
{
    let g = generated(t);
    assert forall|k: int| 0 <= k < g.len() implies !bad_size(#[trigger] g[k], c.max_part_bytes) by {
        let i = if t.text@.len() > 0 {
            k - 1
        } else {
            k
        };
        if i >= 0 {
            assert(g[k] == byte_len(t.tool_calls@[i].args_json@));
        } else {
            assert(g[k] == byte_len(t.text@));
        }
    }
}

/// What a turn says and the arguments of its calls are each stored as they are, the text
/// first and then call by call, under ids that differ from those in use and from each other.
pub proof fn turn_is_stored_whole(used: Seq<Seq<char>>, t: ContentModelTurnV1, turns: u32, n: int)
    requires
        0 <= n <= t.tool_calls@.len(),
    ensures
        stores(used, t, turns, n).len() == spoken(t) + n,
        t.text@.len() > 0 ==> stores(used, t, turns, n)[0].text == t.text@ && stores(
            used,
            t,
            turns,
            n,
        )[0].source == "model"@,
        forall|i: int|
            #![trigger t.tool_calls@[i]]
            0 <= i < n ==> stores(used, t, turns, n)[spoken(t) + i].text
                == t.tool_calls@[i].args_json@ && stores(used, t, turns, n)[spoken(t) + i].source
                == "model-tool-arguments"@,
        forall|i: int|
            0 <= i < stores(used, t, turns, n).len() ==> !used.contains(
                (#[trigger] stores(used, t, turns, n)[i]).part_id,
            ),
        forall|i: int, j: int|
            0 <= i < j < stores(used, t, turns, n).len() ==> (#[trigger] stores(
                used,
                t,
                turns,
                n,
            )[i]).part_id != (#[trigger] stores(used, t, turns, n)[j]).part_id,
    decreases n,
{
    let all = stores(used, t, turns, n);
    if n > 0 {
        turn_is_stored_whole(used, t, turns, n - 1);
        let before = stores(used, t, turns, n - 1);
        let taken = used + store_ids(before);
        let last = arguments_store(
            taken,
            t.tool_calls@[n - 1].args_json@,
            turns,
            (n - 1) as nat,
        );
        assert(all == before.push(last));
        reserved_is_fresh(
            taken,
            "shikigami-model-"@ + decimal(turns as nat) + "-tool-"@ + decimal((n - 1) as nat)
                + "-arguments"@,
        );
        assert forall|i: int| 0 <= i < all.len() implies !used.contains(
            (#[trigger] all[i]).part_id,
        ) by {
            if i < before.len() {
                assert(all[i] == before[i]);
            } else if used.contains(last.part_id) {
                let k = used.index_of(last.part_id);
                assert(taken[k] == last.part_id);
            }
        }
        assert forall|i: int, j: int| 0 <= i < j < all.len() implies (#[trigger] all[i]).part_id
            != (#[trigger] all[j]).part_id by {
            assert(all[i] == before[i]);
            if j < before.len() {
                assert(all[j] == before[j]);
            } else {
                assert(taken[used.len() + i] == store_ids(before)[i]);
            }
        }
        assert forall|i: int|
            #![trigger t.tool_calls@[i]]
            0 <= i < n implies all[spoken(t) + i].text == t.tool_calls@[i].args_json@ && all[spoken(
            t,
        ) + i].source == "model-tool-arguments"@ by {
            if i < n - 1 {
                assert(all[spoken(t) + i] == before[spoken(t) + i]);
            }
        }
    } else if t.text@.len() > 0 {
        reserved_is_fresh(used, "shikigami-model-"@ + decimal(turns as nat) + "-text"@);
    }
}

/// A kept turn holds its text, then the parts that the model returned in their order, then
/// the arguments of its calls; each call keeps its name and points to its arguments.
pub proof fn kept_turn_holds_every_part(
    t: ContentModelTurnV1,
    turns: u32,
    stored: Seq<PartView>,
    pointers: Seq<Seq<char>>,
)
    requires
        stored.len() == spoken(t) + t.tool_calls@.len(),
    ensures
        ({
            let kept = kept_turn(t, turns, stored, pointers);
            let out = t.output_parts@.len();
            &&& kept.role == "assistant"@
            &&& kept.parts.len() == stored.len() + out
            &&& t.text@.len() > 0 ==> kept.parts[0] == stored[0]
            &&& forall|i: int|
                #![trigger t.output_parts@[i]]
                0 <= i < out ==> kept.parts[spoken(t) + i] == t.output_parts@[i]@
            &&& forall|i: int|
                #![trigger t.tool_calls@[i]]
                0 <= i < t.tool_calls@.len() ==> kept.parts[spoken(t) + out + i]
                    == stored[spoken(t) + i] && kept.tool_calls[i].name == t.tool_calls@[i].name@
                    && kept.tool_calls[i].args_json == pointers[i] && (t.tool_calls@[i].id@.len()
                    > 0 ==> kept.tool_calls[i].id == t.tool_calls@[i].id@)
            &&& kept.tool_calls.len() == t.tool_calls@.len()
        }),
{
    let parts = part_views(t.output_parts@);
    assert(parts.len() == t.output_parts@.len());
    assert forall|i: int| #![trigger t.output_parts@[i]] 0 <= i < t.output_parts@.len() implies kept_turn(
        t,
        turns,
        stored,
        pointers,
    ).parts[spoken(t) + i] == t.output_parts@[i]@ by {
        assert(parts[i] == t.output_parts@[i]@);
    }
}

/// A turn is appended only where none of its calls discloses a reference, each of its parts
/// and its whole are within the capabilities, and no stored part has an id in use.
pub proof fn appended_turn_was_sound(c: ContentSession, t: ContentModelTurnV1, stored: Seq<PartView>)
    requires
        append_fault(c, t, stored) is None,
    ensures
        forall|i: int|
            0 <= i < t.tool_calls@.len() ==> !arguments_disclose(
                (#[trigger] t.tool_calls@[i]).args_json@,
                references(all_parts(c.messages@)),
            ),
        forall|i: int|
            0 <= i < t.output_parts@.len() ==> c.capabilities.output_kinds@.contains(
                (#[trigger] t.output_parts@[i]).kind,
            ) && t.output_parts@[i].byte_length <= c.capabilities.max_part_bytes && !part_ids(
                all_parts(c.messages@),
            ).contains(t.output_parts@[i].part_id@),
        bytes_after(c.messages@, t) <= c.capabilities.max_aggregate_bytes,
        forall|i: int|
            0 <= i < stored.len() ==> !part_ids(all_parts(c.messages@)).contains(
                (#[trigger] stored[i]).part_id,
            ),
{
    let parts = all_parts(c.messages@);
    let out = part_views(t.output_parts@);
    let ids = part_ids(parts);
    calls_disclose_where_one_does(t.tool_calls@, references(parts), t.tool_calls@.len() as int);
    outputs_are_taken_within_the_capabilities(c.capabilities, ids, out, out.len() as int);
    assert(out.len() == t.output_parts@.len());
    assert forall|i: int| 0 <= i < t.output_parts@.len() implies c.capabilities.output_kinds@.contains(
        (#[trigger] t.output_parts@[i]).kind,
    ) && t.output_parts@[i].byte_length <= c.capabilities.max_part_bytes && !ids.contains(
        t.output_parts@[i].part_id@,
    ) by {
        assert(out[i] == t.output_parts@[i]@);
        let seen = ids + part_ids(out).take(i);
        if ids.contains(out[i].part_id) {
            let k = ids.index_of(out[i].part_id);
            assert(seen[k] == out[i].part_id);
        }
    }
    assert forall|i: int| 0 <= i < stored.len() implies !ids.contains(
        (#[trigger] stored[i]).part_id,
    ) by {
        let taken = taken_ids(c.messages@, t);
        assert(part_ids(stored)[i] == stored[i].part_id);
        if ids.contains(stored[i].part_id) {
            let k = ids.index_of(stored[i].part_id);
            assert((taken + part_ids(stored).take(i))[k] == stored[i].part_id);
        }
    }
}

/// An appended message stands last; the messages before it, and all else of the session,
/// stay as they were.
pub proof fn appending_keeps_what_was_there(a: RunSession, b: RunSession, message: ContentMessageView)
    requires
        grown(a, b, message),
    ensures
        content_views(a.content->0.messages@).last() == message,
        content_views(a.content->0.messages@).drop_last() == content_views(b.content->0.messages@),
        a.run_id == b.run_id,
        a.messages == b.messages,
        a.turns == b.turns,
        a.replay == b.replay,
        a.content->0.capabilities == b.content->0.capabilities,
        a.content->0.resolver_id == b.content->0.resolver_id,
        a.content->0.usage == b.content->0.usage,
        a.content->0.terminal == b.content->0.terminal,
{
    assert(content_views(a.content->0.messages@).drop_last() =~= content_views(
        b.content->0.messages@,
    ));
}

/// Stored parts are named after their turn and their place in it, as long as no part has
/// that name, and say whose they are.
pub proof fn stored_parts_are_named_after_their_turn(
    used: Seq<Seq<char>>,
    text: Seq<char>,
    turns: u32,
    index: nat,
    tool_call_id: Seq<char>,
)
    ensures
        ({
            let base = "shikigami-model-"@ + decimal(turns as nat) + "-text"@;
            let stored = text_store(used, text, turns);
            &&& stored.text == text
            &&& stored.source_id == "turn-"@ + decimal(turns as nat)
            &&& !used.contains(base) ==> stored.part_id == base
        }),
        ({
            let base = "shikigami-model-"@ + decimal(turns as nat) + "-tool-"@ + decimal(index)
                + "-arguments"@;
            let stored = arguments_store(used, text, turns, index);
            &&& stored.text == text
            &&& stored.source_id == "turn-"@ + decimal(turns as nat) + "-call-"@ + decimal(index)
            &&& !used.contains(base) ==> stored.part_id == base
        }),
        ({
            let base = "shikigami-tool-"@ + decimal(turns as nat) + "-"@ + decimal(index);
            let stored = tool_store(used, text, turns, index, tool_call_id);
            &&& stored.text == text
            &&& stored.source == "tool"@
            &&& stored.source_id == tool_call_id
            &&& !used.contains(base) ==> stored.part_id == base
        }),
{
    reserved_id_keeps_a_free_name(
        used,
        "shikigami-model-"@ + decimal(turns as nat) + "-text"@,
    );
    reserved_id_keeps_a_free_name(
        used,
        "shikigami-model-"@ + decimal(turns as nat) + "-tool-"@ + decimal(index) + "-arguments"@,
    );
    reserved_id_keeps_a_free_name(
        used,
        "shikigami-tool-"@ + decimal(turns as nat) + "-"@ + decimal(index),
    );
}

} // verus!
