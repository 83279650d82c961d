//! Durable attempt state behind a deep checkpoint interface.
//!
//! Callers change conversation progress on the session and ask it for the
//! checkpoint to persist.
use vstd::prelude::*;
use vstd::string::*;
#[allow(unused_imports)]
use vstd::utf8::*;

use crate::checkpoint::{Checkpoint, ParkedState};
use crate::content::{
    duplicate_messages, ContentCapabilitiesV1, ContentCheckpointBinding, ContentDisclosureState,
    ContentMessageV1, ContentPartDescriptor, ContentPartKind, ContentTerminalCheckpoint,
    CONTENT_SCHEMA_VERSION,
};
#[allow(unused_imports)]
use crate::content::{content_views, part_views, ContentMessageView, PartView};
use crate::digest::digest_label;
#[allow(unused_imports)]
use crate::digest::sha256_label;
use crate::events::push_number;
use crate::json::{read_json, Json};
#[allow(unused_imports)]
use crate::json::{items, json_reading, list_model, members, object_model, JsonModel};
use crate::model::{ChatMessage, TokenUsage};
#[allow(unused_imports)]
use crate::model::{message_views, ChatMessageView};
#[allow(unused_imports)]
use crate::registry::str_view;
use crate::replay::{ReplayCheckpoint, ReplayTerminalCheckpoint};
use crate::text::{contains_text, is_blank, longer_than, same};
#[allow(unused_imports)]
use crate::text::{blank, byte_len, contains, decimal, decimal_reads_back, opt_view, texts};
use crate::tools::{duplicate_todos, TodoItem};

#[allow(unused_imports)]
use super::model_turn::run_message;
use super::{RunError, RunTermination};

verus! {

// ---------------------------------------------------------------------------
// Part ids
// ---------------------------------------------------------------------------

/// The `k`-th candidate for a part id: the base itself, then with a suffix.
pub open spec fn candidate(base: Seq<char>, k: nat) -> Seq<char> {
    if k == 0 {
        base
    } else {
        base + "-"@ + decimal(k)
    }
}

/// The first candidate, from the `k`-th on, that is not used; the search ends
/// behind the last candidate that can be used up.
pub open spec fn fresh_from(used: Seq<Seq<char>>, base: Seq<char>, k: nat) -> Seq<char>
    decreases used.len() + 1 - k,
{
    if k > used.len() || !used.contains(candidate(base, k)) {
        candidate(base, k)
    } else {
        fresh_from(used, base, k + 1)
    }
}

/// The id that a base reserves among the used ids.
pub open spec fn reserved(used: Seq<Seq<char>>, base: Seq<char>) -> Seq<char> {
    fresh_from(used, base, 0)
}

proof fn candidates_differ(base: Seq<char>, i: nat, j: nat)
    requires
        candidate(base, i) == candidate(base, j),
    ensures
        i == j,
{
    reveal_strlit("-");
    if i > 0 && j > 0 {
        let head = base + "-"@;
        assert(candidate(base, i).skip(head.len() as int) =~= decimal(i));
        assert(candidate(base, j).skip(head.len() as int) =~= decimal(j));
        decimal_reads_back(i);
        decimal_reads_back(j);
    } else if i > 0 {
        assert(candidate(base, i).len() > base.len());
    } else if j > 0 {
        assert(candidate(base, j).len() > base.len());
    }
}

/// Not all of the first `used.len() + 1` candidates can be used.
proof fn candidates_outnumber(used: Seq<Seq<char>>, base: Seq<char>)
    ensures
        exists|k: nat| k <= used.len() && !used.contains(#[trigger] candidate(base, k)),
{
    if forall|k: nat| k <= used.len() ==> used.contains(#[trigger] candidate(base, k)) {
        let n = (used.len() + 1) as nat;
        let all = Seq::new(n, |i: int| candidate(base, i as nat));
        assert(all.no_duplicates()) by {
            assert forall|i: int, j: int|
                0 <= i < all.len() && 0 <= j < all.len() && i != j implies all[i] != all[j] by {
                if all[i] == all[j] {
                    candidates_differ(base, i as nat, j as nat);
                }
            }
        }
        all.unique_seq_to_set();
        used.lemma_cardinality_of_set();
        vstd::seq_lib::seq_to_set_is_finite(used);
        assert(all.to_set().subset_of(used.to_set())) by {
            assert forall|x: Seq<char>| all.to_set().contains(x) implies used.to_set().contains(
                x,
            ) by {
                let i = choose|i: int| 0 <= i < all.len() && all[i] == x;
                assert(used.contains(candidate(base, i as nat)));
            }
        }
        vstd::set_lib::lemma_len_subset(all.to_set(), used.to_set());
        assert(false);
    }
}

/// A reserved id is not one of the used ids.
pub proof fn reserved_is_fresh(used: Seq<Seq<char>>, base: Seq<char>)
    ensures
        !used.contains(reserved(used, base)),
{
    candidates_outnumber(used, base);
    let k = choose|k: nat| k <= used.len() && !used.contains(#[trigger] candidate(base, k));
    fresh_before(used, base, 0, k);
}

proof fn fresh_before(used: Seq<Seq<char>>, base: Seq<char>, i: nat, k: nat)
    requires
        i <= k <= used.len(),
        !used.contains(candidate(base, k)),
    ensures
        !used.contains(fresh_from(used, base, i)),
    decreases k - i,
{
    if used.contains(candidate(base, i)) {
        fresh_before(used, base, i + 1, k);
    }
}

pub(crate) fn holds(ids: &Vec<String>, id: &str) -> (r: bool)
    ensures
        r == texts(ids@).contains(id@),
{
    let mut i: usize = 0;
    while i < ids.len()
        invariant
            i <= ids@.len(),
            forall|j: int| 0 <= j < i ==> texts(ids@)[j] != id@,
        decreases ids@.len() - i,
    {
        if same(ids[i].as_str(), id) {
            assert(texts(ids@)[i as int] == id@);
            return true;
        }
        i = i + 1;
    }
    false
}

/// Reserves an id that is not used yet: the base, or the base with the first
/// free number behind it.
pub fn reserve_part_id(used: &mut Vec<String>, base: &str) -> (id: String)
    ensures
        id@ == reserved(texts(old(used)@), base@),
        !texts(old(used)@).contains(id@),
        texts(final(used)@) == texts(old(used)@).push(id@),
{
    let ghost u = texts(used@);
    let mut id = base.to_owned();
    let mut k: usize = 0;
    assert(candidate(base@, 0) == base@);
    while k < used.len() && holds(used, id.as_str())
        invariant
            u == texts(used@),
            k <= used@.len(),
            id@ == candidate(base@, k as nat),
            reserved(u, base@) == fresh_from(u, base@, k as nat),
            forall|j: nat| j < k ==> u.contains(#[trigger] candidate(base@, j)),
        decreases used@.len() - k,
    {
        k = k + 1;
        id = base.to_owned();
        id.append("-");
        push_number(&mut id, k as u64);
    }
    proof {
        candidates_outnumber(u, base@);
        assert(!u.contains(candidate(base@, k as nat)));
        reserved_is_fresh(u, base@);
    }
    used.push(id.clone());
    assert(texts(used@) =~= u.push(id@));
    id
}

// ---------------------------------------------------------------------------
// Reference disclosure
// ---------------------------------------------------------------------------

/// Whether a text holds one of the references.
pub open spec fn names_reference(s: Seq<char>, refs: Seq<Seq<char>>) -> bool {
    exists|i: int| 0 <= i < refs.len() && contains(s, #[trigger] refs[i])
}

/// Whether a string inside a value holds one of the references. The keys of
/// objects do not count.
pub open spec fn discloses(j: JsonModel, refs: Seq<Seq<char>>) -> bool
    decreases j,
{
    match j {
        JsonModel::Text(s) => names_reference(s, refs),
        JsonModel::List(v) => exists|i: int| 0 <= i < v.len() && discloses(#[trigger] v[i], refs),
        JsonModel::Object(m) => exists|i: int|
            0 <= i < m.len() && discloses((#[trigger] m[i]).1, refs),
        _ => false,
    }
}

proof fn list_discloses(v: Seq<JsonModel>, refs: Seq<Seq<char>>, i: int)
    requires
        0 <= i < v.len(),
        discloses(v[i], refs),
    ensures
        discloses(JsonModel::List(v), refs),
{
    reveal_with_fuel(discloses, 3);
    let j = JsonModel::List(v);
    assert(j->List_0[i] == v[i]);
}

proof fn object_discloses(m: Seq<(Seq<char>, JsonModel)>, refs: Seq<Seq<char>>, i: int)
    requires
        0 <= i < m.len(),
        discloses(m[i].1, refs),
    ensures
        discloses(JsonModel::Object(m), refs),
{
    reveal_with_fuel(discloses, 3);
    let j = JsonModel::Object(m);
    assert(j->Object_0[i] == m[i]);
}

fn any_reference(s: &str, refs: &Vec<String>) -> (r: bool)
    ensures
        r == names_reference(s@, texts(refs@)),
{
    let mut i: usize = 0;
    while i < refs.len()
        invariant
            i <= refs@.len(),
            forall|k: int| 0 <= k < i ==> !contains(s@, #[trigger] texts(refs@)[k]),
        decreases refs@.len() - i,
    {
        if contains_text(s, refs[i].as_str()) {
            assert(contains(s@, texts(refs@)[i as int]));
            return true;
        }
        i = i + 1;
    }
    false
}

/// Whether a string inside a value holds one of the references.
pub fn value_discloses(value: &Json, refs: &Vec<String>) -> (r: bool)
    ensures
        r == discloses(value.model(), texts(refs@)),
    decreases *value,
{
    broadcast use {list_model, object_model};

    match value {
        Json::Text(s) => any_reference(s.as_str(), refs),
        Json::List(v) => {
            let ghost m = items(v@);
            assert(value.model() == JsonModel::List(m));
            let mut i: usize = 0;
            while i < v.len()
                invariant
                    i <= v@.len(),
                    *value == Json::List(*v),
                    m == items(v@),
                    value.model() == JsonModel::List(m),
                    forall|k: int| 0 <= k < i ==> !discloses(#[trigger] m[k], texts(refs@)),
                decreases v@.len() - i,
            {
                assert(decreases_to!(*value => (*value)->List_0@[i as int]));
                if value_discloses(&v[i], refs) {
                    proof {
                        list_discloses(m, texts(refs@), i as int);
                    }
                    return true;
                }
                i = i + 1;
            }
            false
        },
        Json::Object(v) => {
            let ghost m = members(v@);
            assert(value.model() == JsonModel::Object(m));
            let mut i: usize = 0;
            while i < v.len()
                invariant
                    i <= v@.len(),
                    *value == Json::Object(*v),
                    m == members(v@),
                    value.model() == JsonModel::Object(m),
                    forall|k: int| 0 <= k < i ==> !discloses((#[trigger] m[k]).1, texts(refs@)),
                decreases v@.len() - i,
            {
                assert(decreases_to!(*value => (*value)->Object_0@[i as int]));
                assert(decreases_to!(v@[i as int] => v@[i as int].1));
                if value_discloses(&v[i].1, refs) {
                    proof {
                        object_discloses(m, texts(refs@), i as int);
                    }
                    return true;
                }
                i = i + 1;
            }
            false
        },
        _ => false,
    }
}

/// Whether the arguments of a call disclose a reference.
pub open spec fn arguments_disclose(args: Seq<char>, refs: Seq<Seq<char>>) -> bool {
    json_reading(args) is Ok && discloses(json_reading(args)->Ok_0, refs)
}

/// Whether the arguments of a call hold a resolver reference in one of their
/// strings. Arguments that are no JSON disclose nothing.
pub fn tool_arguments_disclose_reference(args_json: &str, references: &Vec<String>) -> (r: bool)
    ensures
        r == arguments_disclose(args_json@, texts(references@)),
{
    match read_json(args_json) {
        Ok(value) => value_discloses(&value, references),
        Err(_) => false,
    }
}

// ---------------------------------------------------------------------------
// The session
// ---------------------------------------------------------------------------

/// The content side of an attempt.
#[derive(Debug)]
pub struct ContentSession {
    pub resolver_id: String,
    pub capabilities: ContentCapabilitiesV1,
    pub messages: Vec<ContentMessageV1>,
    pub initial_message_count: u32,
    pub binding: Option<ContentCheckpointBinding>,
    pub terminal: Option<ContentTerminalCheckpoint>,
    pub usage: TokenUsage,
}

/// What a content run resumes with.
#[derive(Debug)]
pub struct ContentResumeState {
    pub initial_message_count: u32,
    pub binding: Option<ContentCheckpointBinding>,
    pub terminal: Option<ContentTerminalCheckpoint>,
    pub usage: TokenUsage,
}

/// The content sidecar of a checkpoint.
#[derive(Debug)]
pub struct ContentCheckpointV1 {
    pub schema_version: u32,
    pub run_id: String,
    pub generation: u64,
    pub resolver_id: String,
    pub capabilities: ContentCapabilitiesV1,
    pub messages: Vec<ContentMessageV1>,
    pub initial_message_count: u32,
    pub completed_turns: u32,
    pub usage: TokenUsage,
    pub terminal: Option<ContentTerminalCheckpoint>,
}

/// Owned run progress and checkpoint retention policy of one attempt.
#[derive(Debug)]
pub struct RunSession {
    pub run_id: String,
    pub task: String,
    pub workspace: String,
    pub workspace_adapter: String,
    pub keep_workspace: bool,
    pub messages: Vec<ChatMessage>,
    pub turns: u32,
    pub replay: Option<ReplayCheckpoint>,
    pub content: Option<ContentSession>,
}

/// Why content cannot be attached to a session.
pub open spec fn attach_fault(
    resolver_id: Seq<char>,
    messages: nat,
    misfit: Option<Seq<char>>,
    state: ContentResumeState,
) -> Option<Seq<char>> {
    if misfit is Some {
        misfit
    } else if blank(resolver_id) || byte_len(resolver_id) > 256 {
        Some("content resolver id must be bounded non-empty text"@)
    } else if state.binding is Some && state.binding->0.resolver_id@ != resolver_id {
        Some("content resolver binding changed on resume"@)
    } else if state.initial_message_count == 0 || state.initial_message_count > messages {
        Some("content initial message boundary is invalid"@)
    } else {
        None
    }
}

/// Whether the last content message is an assistant turn that the run made
/// itself.
pub open spec fn staged_content(turns: u32, initial: u32, m: Seq<ContentMessageView>) -> bool {
    turns > 0 && m.len() > initial && m.last().role == "assistant"@
}

/// Whether the last content message is an assistant turn that the run made
/// itself. An assistant message that the run was started with is none.
pub fn has_staged_content_model_turn(
    turns: u32,
    initial_message_count: u32,
    messages: &Vec<ContentMessageV1>,
) -> (r: bool)
    ensures
        r == staged_content(turns, initial_message_count, content_views(messages@)),
{
    turns > 0 && messages.len() > initial_message_count as usize && same(
        messages[messages.len() - 1].role.as_str(),
        "assistant",
    )
}

/// Whether a part is the accepted text with the digest.
pub open spec fn summary_part(p: PartView, digest: Seq<char>) -> bool {
    p.kind == ContentPartKind::Text && p.disclosure_state == ContentDisclosureState::Accepted
        && p.sha256_digest == digest
}

/// The last of the first `n` parts that is the summary.
pub open spec fn last_summary_part(v: Seq<PartView>, digest: Seq<char>, n: int) -> Option<PartView>
    decreases n,
{
    if n <= 0 || n > v.len() {
        None
    } else if summary_part(v[n - 1], digest) {
        Some(v[n - 1])
    } else {
        last_summary_part(v, digest, n - 1)
    }
}

/// The last summary part of the first `n` messages.
pub open spec fn last_summary(m: Seq<ContentMessageView>, digest: Seq<char>, n: int) -> Option<
    PartView,
>
    decreases n,
{
    if n <= 0 || n > m.len() {
        None
    } else {
        match last_summary_part(m[n - 1].parts, digest, m[n - 1].parts.len() as int) {
            Some(p) => Some(p),
            None => last_summary(m, digest, n - 1),
        }
    }
}

/// The digest of a summary.
pub open spec fn summary_digest(summary: Seq<char>) -> Seq<char> {
    sha256_label(encode_utf8(summary))
}

fn find_summary_part(parts: &Vec<ContentPartDescriptor>, digest: &str) -> (r: Option<
    (String, String),
>)
    ensures
        match last_summary_part(part_views(parts@), digest@, parts@.len() as int) {
            Some(p) => r matches Some(b) && b.0@ == p.part_id && b.1@ == p.sha256_digest,
            None => r is None,
        },
{
    let ghost v = part_views(parts@);
    let mut n: usize = parts.len();
    while n > 0
        invariant
            n <= parts@.len(),
            v == part_views(parts@),
            last_summary_part(v, digest@, parts@.len() as int) == last_summary_part(
                v,
                digest@,
                n as int,
            ),
        decreases n,
    {
        let p = &parts[n - 1];
        if p.kind == ContentPartKind::Text && p.disclosure_state
            == ContentDisclosureState::Accepted && same(p.sha256_digest.as_str(), digest) {
            return Some((p.part_id.clone(), p.sha256_digest.clone()));
        }
        n = n - 1;
    }
    None
}

/// The part that holds a summary, and its digest: the last accepted text part
/// with the digest of the summary.
pub fn terminal_summary_binding(messages: &Vec<ContentMessageV1>, summary: &str) -> (r: Option<
    (String, String),
>)
    ensures
        match last_summary(
            content_views(messages@),
            summary_digest(summary@),
            messages@.len() as int,
        ) {
            Some(p) => r matches Some(b) && b.0@ == p.part_id && b.1@ == p.sha256_digest,
            None => r is None,
        },
{
    let digest = digest_label(summary.as_bytes());
    let ghost m = content_views(messages@);
    let mut n: usize = messages.len();
    while n > 0
        invariant
            n <= messages@.len(),
            m == content_views(messages@),
            digest@ == summary_digest(summary@),
            last_summary(m, digest@, messages@.len() as int) == last_summary(
                m,
                digest@,
                n as int,
            ),
        decreases n,
    {
        let found = find_summary_part(&messages[n - 1].parts, digest.as_str());
        if found.is_some() {
            return found;
        }
        n = n - 1;
    }
    None
}

fn copy_kinds(v: &Vec<ContentPartKind>) -> (r: Vec<ContentPartKind>)
    ensures
        r@ == v@,
{
    let mut r: Vec<ContentPartKind> = Vec::new();
    let mut i: usize = 0;
    while i < v.len()
        invariant
            i <= v@.len(),
            r@ == v@.take(i as int),
        decreases v@.len() - i,
    {
        r.push(v[i]);
        i = i + 1;
        assert(v@.take(i as int) =~= v@.take(i - 1).push(v@[i - 1]));
    }
    assert(v@.take(v@.len() as int) =~= v@);
    r
}

fn copy_texts(v: &Vec<String>) -> (r: Vec<String>)
    ensures
        r@ == v@,
{
    let mut r: Vec<String> = Vec::new();
    let mut i: usize = 0;
    while i < v.len()
        invariant
            i <= v@.len(),
            r@ == v@.take(i as int),
        decreases v@.len() - i,
    {
        r.push(v[i].clone());
        i = i + 1;
        assert(v@.take(i as int) =~= v@.take(i - 1).push(v@[i - 1]));
    }
    assert(v@.take(v@.len() as int) =~= v@);
    r
}

/// Whether two capabilities are the same.
pub open spec fn same_capabilities(a: ContentCapabilitiesV1, b: ContentCapabilitiesV1) -> bool {
    &&& a.input_kinds@ == b.input_kinds@
    &&& a.output_kinds@ == b.output_kinds@
    &&& a.media_types@ == b.media_types@
    &&& a.max_part_bytes == b.max_part_bytes
    &&& a.max_parts == b.max_parts
    &&& a.max_aggregate_bytes == b.max_aggregate_bytes
}

fn copy_capabilities(c: &ContentCapabilitiesV1) -> (r: ContentCapabilitiesV1)
    ensures
        same_capabilities(r, *c),
{
    ContentCapabilitiesV1 {
        input_kinds: copy_kinds(&c.input_kinds),
        output_kinds: copy_kinds(&c.output_kinds),
        media_types: copy_texts(&c.media_types),
        max_part_bytes: c.max_part_bytes,
        max_parts: c.max_parts,
        max_aggregate_bytes: c.max_aggregate_bytes,
    }
}

fn copy_terminal(t: &ContentTerminalCheckpoint) -> (r: ContentTerminalCheckpoint)
    ensures
        r == *t,
{
    ContentTerminalCheckpoint {
        success: t.success,
        termination: t.termination,
        summary_part_id: t.summary_part_id.clone(),
        summary_digest: t.summary_digest.clone(),
        usage: t.usage,
        finalized: t.finalized,
        artifact_dir: match &t.artifact_dir {
            Some(d) => Some(d.clone()),
            None => None,
        },
    }
}

/// Whether a terminal checkpoint is a fresh, unfinalized one.
pub open spec fn fresh_terminal(
    t: ContentTerminalCheckpoint,
    success: bool,
    termination: RunTermination,
    part: PartView,
    usage: TokenUsage,
) -> bool {
    &&& t.success == success
    &&& t.termination == termination
    &&& t.summary_part_id@ == part.part_id
    &&& t.summary_digest@ == part.sha256_digest
    &&& t.usage == usage
    &&& !t.finalized
    &&& t.artifact_dir is None
}

pub(crate) fn unavailable() -> (e: RunError)
    ensures
        run_message(e, "content session is unavailable"@),
{
    RunError::Message("content session is unavailable".to_owned())
}

pub(crate) fn message_error(text: &str) -> (e: RunError)
    ensures
        run_message(e, text@),
{
    RunError::Message(text.to_owned())
}

/// How many messages count as replay steps.
pub open spec fn comparable(m: Seq<ChatMessageView>, n: int) -> nat
    decreases n,
{
    if n <= 0 || n > m.len() {
        0
    } else {
        comparable(m, n - 1) + (if m[n - 1].role == "assistant"@ || m[n - 1].role == "tool"@ {
            1nat
        } else {
            0nat
        })
    }
}

fn count_comparable(messages: &Vec<ChatMessage>) -> (n: usize)
    ensures
        n == comparable(message_views(messages@), messages@.len() as int),
{
    let mut n: usize = 0;
    let mut i: usize = 0;
    while i < messages.len()
        invariant
            i <= messages@.len(),
            n <= i,
            n == comparable(message_views(messages@), i as int),
        decreases messages@.len() - i,
    {
        if same(messages[i].role.as_str(), "assistant") || same(
            messages[i].role.as_str(),
            "tool",
        ) {
            n = n + 1;
        }
        i = i + 1;
    }
    n
}

fn copy_chat(v: &Vec<ChatMessage>) -> (r: Vec<ChatMessage>)
    ensures
        message_views(r@) == message_views(v@),
{
    let mut r: Vec<ChatMessage> = Vec::new();
    let mut i: usize = 0;
    while i < v.len()
        invariant
            i <= v@.len(),
            message_views(r@) =~= message_views(v@).take(i as int),
        decreases v@.len() - i,
    {
        let m = v[i].duplicate();
        let ghost before = r@;
        r.push(m);
        i = i + 1;
        assert(message_views(r@) =~= message_views(before).push(m@));
        assert(message_views(v@).take(i as int) =~= message_views(v@).take(i - 1).push(
            message_views(v@)[i - 1],
        ));
    }
    assert(message_views(v@).take(v@.len() as int) =~= message_views(v@));
    r
}

fn copy_replay_terminal(t: &ReplayTerminalCheckpoint) -> (r: ReplayTerminalCheckpoint)
    ensures
        r == *t,
{
    ReplayTerminalCheckpoint {
        success: t.success,
        termination: t.termination,
        summary: t.summary.clone(),
        prompt_id: t.prompt_id.clone(),
        usage: t.usage,
        cost: match &t.cost {
            Some(c) => Some(crate::model::CostEstimate { text: c.text.clone() }),
            None => None,
        },
        finalized: t.finalized,
        artifact_dir: match &t.artifact_dir {
            Some(d) => Some(d.clone()),
            None => None,
        },
    }
}

/// Whether a checkpoint keeps the progress of a session.
pub open spec fn checkpoint_of(
    c: Checkpoint,
    s: RunSession,
    keep_workspace: bool,
    park: Option<ParkedState>,
    prompt_id: Seq<char>,
    todos: Seq<TodoItem>,
    binding: Option<ContentCheckpointBinding>,
) -> bool {
    &&& c.run_id@ == s.run_id@
    &&& c.task@ == s.task@
    &&& c.prompt_id@ == prompt_id
    &&& message_views(c.messages@) == message_views(s.messages@)
    &&& c.completed_turns == s.turns
    &&& c.workspace@ == s.workspace@
    &&& c.keep_workspace == keep_workspace
    &&& c.workspace_adapter@ == s.workspace_adapter@
    &&& c.park == park
    &&& c.todos@ == todos
    &&& match s.replay {
        None => c.replay is None,
        Some(p) => c.replay is Some && c.replay->0 == (ReplayCheckpoint {
            workspace: c.replay->0.workspace,
            comparison_cursor: comparable(
                message_views(s.messages@),
                s.messages@.len() as int,
            ) as usize,
            ..p
        }) && c.replay->0.workspace@ == s.workspace@,
    }
    &&& c.content == (if s.content is Some {
        binding
    } else {
        None
    })
}

/// The session but for its content.
pub open spec fn same_but_content(a: RunSession, b: RunSession) -> bool {
    a == (RunSession { content: a.content, ..b })
}

impl RunSession {
    /// The session of an attempt, without replay and without content.
    pub fn new(
        run_id: String,
        task: String,
        workspace: String,
        workspace_adapter: String,
        keep_workspace: bool,
        messages: Vec<ChatMessage>,
        turns: u32,
    ) -> (s: Self)
        ensures
            s == (RunSession {
                run_id,
                task,
                workspace,
                workspace_adapter,
                keep_workspace,
                messages,
                turns,
                replay: None,
                content: None,
            }),
    {
        RunSession {
            run_id,
            task,
            workspace,
            workspace_adapter,
            keep_workspace,
            messages,
            turns,
            replay: None,
            content: None,
        }
    }

    /// Attaches content. `misfit` is why the messages do not fit the
    /// capabilities, if they do not. A resumed run keeps its resolver.
    pub fn set_content(
        &mut self,
        resolver_id: &str,
        capabilities: ContentCapabilitiesV1,
        messages: Vec<ContentMessageV1>,
        misfit: Option<String>,
        state: ContentResumeState,
    ) -> (r: Result<(), RunError>)
        ensures
            match attach_fault(resolver_id@, messages@.len(), opt_view(misfit), state) {
                Some(m) => r matches Err(e) && run_message(e, m) && *final(self) == *old(self),
                None => r is Ok && same_but_content(*final(self), *old(self))
                    && final(self).content is Some && final(self).content->0 == (ContentSession {
                    resolver_id: final(self).content->0.resolver_id,
                    capabilities,
                    messages,
                    initial_message_count: state.initial_message_count,
                    binding: state.binding,
                    terminal: state.terminal,
                    usage: state.usage,
                }) && final(self).content->0.resolver_id@ == resolver_id@,
            },
    {
        if let Some(m) = misfit {
            return Err(RunError::Message(m));
        }
        if is_blank(resolver_id) || longer_than(resolver_id, 256) {
            return Err(message_error("content resolver id must be bounded non-empty text"));
        }
        if let Some(b) = &state.binding {
            if !same(b.resolver_id.as_str(), resolver_id) {
                return Err(message_error("content resolver binding changed on resume"));
            }
        }
        if state.initial_message_count == 0 || state.initial_message_count as usize
            > messages.len() {
            return Err(message_error("content initial message boundary is invalid"));
        }
        self.content = Some(
            ContentSession {
                resolver_id: resolver_id.to_owned(),
                capabilities,
                messages,
                initial_message_count: state.initial_message_count,
                binding: state.binding,
                terminal: state.terminal,
                usage: state.usage,
            },
        );
        Ok(())
    }

    /// Whether the run is a content run.
    pub fn is_content(&self) -> (r: bool)
        ensures
            r == self.content is Some,
    {
        self.content.is_some()
    }

    /// The conversation, capabilities and resolver of a content run.
    pub fn content_context(&self) -> (r: Option<
        (Vec<ContentMessageV1>, ContentCapabilitiesV1, String),
    >)
        ensures
            match self.content {
                None => r is None,
                Some(c) => r matches Some(x) && content_views(x.0@) == content_views(c.messages@)
                    && same_capabilities(x.1, c.capabilities) && x.2@ == c.resolver_id@,
            },
    {
        match &self.content {
            None => None,
            Some(c) => Some(
                (
                    duplicate_messages(&c.messages),
                    copy_capabilities(&c.capabilities),
                    c.resolver_id.clone(),
                ),
            ),
        }
    }

    /// The conversation of a content run.
    pub fn content_messages(&self) -> (r: Option<Vec<ContentMessageV1>>)
        ensures
            match self.content {
                None => r is None,
                Some(c) => r matches Some(v) && content_views(v@) == content_views(c.messages@),
            },
    {
        match &self.content {
            None => None,
            Some(c) => Some(duplicate_messages(&c.messages)),
        }
    }

    /// Whether the last content message is an assistant turn that the run made
    /// itself.
    pub fn has_staged_content_model_turn(&self) -> (r: bool)
        ensures
            r == (self.content is Some && staged_content(
                self.turns,
                self.content->0.initial_message_count,
                content_views(self.content->0.messages@),
            )),
    {
        match &self.content {
            None => false,
            Some(c) => has_staged_content_model_turn(
                self.turns,
                c.initial_message_count,
                &c.messages,
            ),
        }
    }

    /// The stored arguments of a call of the last content message.
    pub fn durable_content_tool_arguments(&self, index: usize) -> (r: Option<String>)
        ensures
            opt_view(r) == if self.content is Some && self.content->0.messages@.len() > 0 && index
                < self.content->0.messages@.last().tool_calls@.len() {
                Some(self.content->0.messages@.last().tool_calls@[index as int].args_json@)
            } else {
                None
            },
    {
        match &self.content {
            None => None,
            Some(c) => {
                if c.messages.len() == 0 {
                    return None;
                }
                let last = &c.messages[c.messages.len() - 1];
                if index < last.tool_calls.len() {
                    Some(last.tool_calls[index].args_json.clone())
                } else {
                    None
                }
            },
        }
    }

    /// The terminal result that a content run recovers. `summary` is what the
    /// resolver gave for its summary part.
    pub fn recover_content_terminal(&self, summary: Result<Option<String>, String>) -> (r: Result<
        Option<(ContentTerminalCheckpoint, String)>,
        RunError,
    >)
        ensures
            if self.content is None || self.content->0.terminal is None {
                r matches Ok(o) && o is None
            } else {
                match summary {
                    Err(m) => r matches Err(e) && run_message(e, m@),
                    Ok(None) => r matches Err(e) && run_message(
                        e,
                        "content terminal summary is missing"@,
                    ),
                    Ok(Some(s)) => r matches Ok(Some(x)) && x.0 == self.content->0.terminal->0 && x.1
                        == s,
                }
            },
    {
        match &self.content {
            None => Ok(None),
            Some(c) => match &c.terminal {
                None => Ok(None),
                Some(t) => match summary {
                    Err(m) => Err(RunError::Message(m)),
                    Ok(None) => Err(message_error("content terminal summary is missing")),
                    Ok(Some(s)) => Ok(Some((copy_terminal(t), s))),
                },
            },
        }
    }

    /// Marks a content run as ended. The summary has to stand in its
    /// conversation.
    pub fn mark_content_terminal(
        &mut self,
        success: bool,
        termination: RunTermination,
        summary: &str,
        usage: TokenUsage,
    ) -> (r: Result<(), RunError>)
        ensures
            match old(self).content {
                None => r matches Err(e) && run_message(e, "content session is unavailable"@)
                    && *final(self) == *old(self),
                Some(c) => match last_summary(
                    content_views(c.messages@),
                    summary_digest(summary@),
                    c.messages@.len() as int,
                ) {
                    None => r matches Err(e) && run_message(
                        e,
                        "content terminal summary descriptor is missing"@,
                    ) && *final(self) == *old(self),
                    Some(part) => r is Ok && same_but_content(*final(self), *old(self))
                        && final(self).content is Some && final(self).content->0 == (
                    ContentSession { terminal: final(self).content->0.terminal, ..c })
                        && final(self).content->0.terminal is Some && fresh_terminal(
                        final(self).content->0.terminal->0,
                        success,
                        termination,
                        part,
                        usage,
                    ),
                },
            },
    {
        match self.content.take() {
            None => {
                assert(*self == *old(self));
                Err(unavailable())
            },
            Some(mut content) => {
                match terminal_summary_binding(&content.messages, summary) {
                    None => {
                        self.content = Some(content);
                        assert(*self == *old(self));
                        Err(message_error("content terminal summary descriptor is missing"))
                    },
                    Some((summary_part_id, summary_digest)) => {
                        content.terminal = Some(
                            ContentTerminalCheckpoint {
                                success,
                                termination,
                                summary_part_id,
                                summary_digest,
                                usage,
                                finalized: false,
                                artifact_dir: None,
                            },
                        );
                        self.content = Some(content);
                        Ok(())
                    },
                }
            },
        }
    }

    /// Marks the terminal result of a content run as finalized.
    pub fn mark_content_finalized(&mut self, artifact_dir: Option<&str>)
        ensures
            if old(self).content is Some && old(self).content->0.terminal is Some {
                &&& same_but_content(*final(self), *old(self))
                &&& final(self).content is Some
                &&& final(self).content->0.terminal is Some
                &&& final(self).content->0 == (ContentSession {
                    terminal: final(self).content->0.terminal,
                    ..old(self).content->0
                })
                &&& final(self).content->0.terminal->0 == (ContentTerminalCheckpoint {
                    finalized: true,
                    artifact_dir: final(self).content->0.terminal->0.artifact_dir,
                    ..old(self).content->0.terminal->0
                })
                &&& opt_view(final(self).content->0.terminal->0.artifact_dir) == str_view(
                    artifact_dir,
                )
            } else {
                *final(self) == *old(self)
            },
    {
        match self.content.take() {
            None => {
                assert(*self == *old(self));
            },
            Some(mut content) => {
                match content.terminal.take() {
                    None => {},
                    Some(mut terminal) => {
                        terminal.finalized = true;
                        terminal.artifact_dir = match artifact_dir {
                            Some(d) => Some(d.to_owned()),
                            None => None,
                        };
                        content.terminal = Some(terminal);
                    },
                }
                self.content = Some(content);
            },
        }
    }

    /// The tokens that a content run used; none without content.
    pub fn content_usage(&self) -> (u: TokenUsage)
        ensures
            u == (match self.content {
                Some(c) => c.usage,
                None => TokenUsage { input_tokens: 0, output_tokens: 0 },
            }),
    {
        match &self.content {
            Some(c) => c.usage,
            None => TokenUsage { input_tokens: 0, output_tokens: 0 },
        }
    }

    /// Records the tokens that a content run used.
    pub fn set_content_usage(&mut self, usage: TokenUsage)
        ensures
            match old(self).content {
                Some(c) => *final(self) == (RunSession {
                    content: Some(ContentSession { usage, ..c }),
                    ..*old(self)
                }),
                None => *final(self) == *old(self),
            },
    {
        match self.content.take() {
            None => {
                assert(*self == *old(self));
            },
            Some(mut content) => {
                content.usage = usage;
                self.content = Some(content);
            },
        }
    }

    /// Attaches replay progress, or takes it away.
    pub fn set_replay(&mut self, replay: Option<ReplayCheckpoint>)
        ensures
            *final(self) == (RunSession { replay, ..*old(self) }),
    {
        self.replay = replay;
    }

    /// The tokens that a replay used; none without replay.
    pub fn replay_usage(&self) -> (u: TokenUsage)
        ensures
            u == (match self.replay {
                Some(p) => p.usage,
                None => TokenUsage { input_tokens: 0, output_tokens: 0 },
            }),
    {
        match &self.replay {
            Some(p) => p.usage,
            None => TokenUsage { input_tokens: 0, output_tokens: 0 },
        }
    }

    /// The tokens that were used before the next turn: those of the content, of the
    /// replay, or none.
    pub fn starting_usage(&self, replay: bool) -> (u: TokenUsage)
        ensures
            u == (match (self.content, replay, self.replay) {
                (Some(c), _, _) => c.usage,
                (None, true, Some(p)) => p.usage,
                _ => TokenUsage { input_tokens: 0, output_tokens: 0 },
            }),
    {
        if self.is_content() {
            self.content_usage()
        } else if replay {
            self.replay_usage()
        } else {
            TokenUsage { input_tokens: 0, output_tokens: 0 }
        }
    }

    /// Records the tokens that a replay used.
    pub fn set_replay_usage(&mut self, usage: TokenUsage)
        ensures
            match old(self).replay {
                Some(p) => *final(self) == (RunSession {
                    replay: Some(ReplayCheckpoint { usage, ..p }),
                    ..*old(self)
                }),
                None => *final(self) == *old(self),
            },
    {
        match self.replay.take() {
            None => {
                assert(*self == *old(self));
            },
            Some(mut replay) => {
                replay.usage = usage;
                self.replay = Some(replay);
            },
        }
    }

    /// Marks a replay as ended.
    pub fn mark_replay_terminal(&mut self, terminal: ReplayTerminalCheckpoint)
        ensures
            match old(self).replay {
                Some(p) => *final(self) == (RunSession {
                    replay: Some(ReplayCheckpoint { terminal: Some(terminal), ..p }),
                    ..*old(self)
                }),
                None => *final(self) == *old(self),
            },
    {
        match self.replay.take() {
            None => {
                assert(*self == *old(self));
            },
            Some(mut replay) => {
                replay.terminal = Some(terminal);
                self.replay = Some(replay);
            },
        }
    }

    /// Marks the terminal result of a replay as finalized.
    pub fn mark_replay_finalized(&mut self, artifact_dir: Option<&str>)
        ensures
            if old(self).replay is Some && old(self).replay->0.terminal is Some {
                &&& final(self).replay is Some
                &&& final(self).replay->0.terminal is Some
                &&& opt_view(final(self).replay->0.terminal->0.artifact_dir) == str_view(
                    artifact_dir,
                )
                &&& *final(self) == (RunSession {
                    replay: Some(
                        ReplayCheckpoint {
                            terminal: Some(
                                ReplayTerminalCheckpoint {
                                    finalized: true,
                                    artifact_dir: final(self).replay->0.terminal->0.artifact_dir,
                                    ..old(self).replay->0.terminal->0
                                },
                            ),
                            ..old(self).replay->0
                        },
                    ),
                    ..*old(self)
                })
            } else {
                *final(self) == *old(self)
            },
    {
        match self.replay.take() {
            None => {
                assert(*self == *old(self));
            },
            Some(mut replay) => {
                match replay.terminal.take() {
                    None => {},
                    Some(mut terminal) => {
                        terminal.finalized = true;
                        terminal.artifact_dir = match artifact_dir {
                            Some(d) => Some(d.to_owned()),
                            None => None,
                        };
                        replay.terminal = Some(terminal);
                    },
                }
                self.replay = Some(replay);
            },
        }
    }

    /// The checkpoint to persist under the session's own retention policy.
    /// `binding` is that of the content sidecar that was saved before it. The session
    /// stays bound as it is until the checkpoint is written.
    pub fn save(
        &self,
        prompt_id: &str,
        todos: &Vec<TodoItem>,
        binding: &Option<ContentCheckpointBinding>,
    ) -> (c: Checkpoint)
        ensures
            checkpoint_of(c, *self, self.keep_workspace, None, prompt_id@, todos@, *binding),
    {
        self.save_with_retention(self.keep_workspace, None, prompt_id, todos, binding)
    }

    /// The checkpoint to persist on failure and park paths: the workspace is
    /// kept.
    pub fn save_recoverable(
        &self,
        park: Option<ParkedState>,
        prompt_id: &str,
        todos: &Vec<TodoItem>,
        binding: &Option<ContentCheckpointBinding>,
    ) -> (c: Checkpoint)
        ensures
            checkpoint_of(c, *self, true, park, prompt_id@, todos@, *binding),
    {
        self.save_with_retention(true, park, prompt_id, todos, binding)
    }

    fn save_with_retention(
        &self,
        keep_workspace: bool,
        park: Option<ParkedState>,
        prompt_id: &str,
        todos: &Vec<TodoItem>,
        binding: &Option<ContentCheckpointBinding>,
    ) -> (c: Checkpoint)
        ensures
            checkpoint_of(c, *self, keep_workspace, park, prompt_id@, todos@, *binding),
    {
        let replay = match &self.replay {
            None => None,
            Some(p) => Some(
                ReplayCheckpoint {
                    manifest_digest: p.manifest_digest.clone(),
                    source_run_id: p.source_run_id.clone(),
                    workspace: self.workspace.clone(),
                    comparison_cursor: count_comparable(&self.messages),
                    usage: p.usage,
                    terminal: match &p.terminal {
                        Some(t) => Some(copy_replay_terminal(t)),
                        None => None,
                    },
                },
            ),
        };
        let kept = match binding {
            Some(b) => if self.content.is_some() {
                Some(b.duplicate())
            } else {
                None
            },
            None => None,
        };
        Checkpoint {
            run_id: self.run_id.clone(),
            task: self.task.clone(),
            prompt_id: prompt_id.to_owned(),
            messages: copy_chat(&self.messages),
            completed_turns: self.turns,
            workspace: self.workspace.clone(),
            keep_workspace,
            workspace_adapter: self.workspace_adapter.clone(),
            park,
            todos: duplicate_todos(todos),
            replay,
            content: kept,
        }
    }

    /// Ends a save: the content is bound to the sidecar that the checkpoint names once
    /// the checkpoint is written, and stays bound as it was where it is not.
    pub fn finish_save(&mut self, binding: Option<ContentCheckpointBinding>, written: bool)
        ensures
            *final(self) == saved(*old(self), binding, written),
    {
        match self.content.take() {
            None => {
                assert(*self == saved(*old(self), binding, written));
            },
            Some(mut content) => {
                if written && binding.is_some() {
                    content.binding = binding;
                }
                self.content = Some(content);
                assert(*self == saved(*old(self), binding, written));
            },
        }
    }

    /// The generation of the sidecar that the content is bound to; zero where
    /// it is bound to none.
    pub fn bound_generation(&self) -> (g: u64)
        ensures
            g == (if self.content is Some && self.content->0.binding is Some {
                self.content->0.binding->0.generation
            } else {
                0
            }),
    {
        match &self.content {
            None => 0,
            Some(c) => match &c.binding {
                None => 0,
                Some(b) => b.generation,
            },
        }
    }

    /// The content sidecar of a content run. One that is persisted before a
    /// checkpoint leaves its generation to the store, as zero; the terminal
    /// result is recovered from one with the bound generation.
    pub fn content_sidecar(&self, generation: u64) -> (r: Option<ContentCheckpointV1>)
        ensures
            match self.content {
                None => r is None,
                Some(c) => r matches Some(x) && x.schema_version == CONTENT_SCHEMA_VERSION
                    && x.run_id@ == self.run_id@ && x.generation == generation && x.resolver_id@ == c.resolver_id@
                    && same_capabilities(x.capabilities, c.capabilities) && content_views(
                    x.messages@,
                ) == content_views(c.messages@) && x.initial_message_count
                    == c.initial_message_count && x.completed_turns == self.turns && x.usage
                    == c.usage && x.terminal == c.terminal,
            },
    {
        match &self.content {
            None => None,
            Some(c) => Some(
                ContentCheckpointV1 {
                    schema_version: CONTENT_SCHEMA_VERSION,
                    run_id: self.run_id.clone(),
                    generation,
                    resolver_id: c.resolver_id.clone(),
                    capabilities: copy_capabilities(&c.capabilities),
                    messages: duplicate_messages(&c.messages),
                    initial_message_count: c.initial_message_count,
                    completed_turns: self.turns,
                    usage: c.usage,
                    terminal: match &c.terminal {
                        Some(t) => Some(copy_terminal(t)),
                        None => None,
                    },
                },
            ),
        }
    }
}

/// The session once a save has ended: its content is bound to the sidecar where the
/// checkpoint that names it was written.
pub open spec fn saved(
    s: RunSession,
    binding: Option<ContentCheckpointBinding>,
    written: bool,
) -> RunSession {
    match s.content {
        None => s,
        Some(c) => if written && binding is Some {
            RunSession { content: Some(ContentSession { binding, ..c }), ..s }
        } else {
            s
        },
    }
}

/// The session once some saves have ended, each with its binding and whether its
/// checkpoint was written.
pub open spec fn after_saves(
    s: RunSession,
    saves: Seq<(Option<ContentCheckpointBinding>, bool)>,
) -> RunSession
    decreases saves.len(),
{
    if saves.len() == 0 {
        s
    } else {
        saved(after_saves(s, saves.drop_last()), saves.last().0, saves.last().1)
    }
}

/// However many later saves fail, the content stays bound to the sidecar that the last
/// written checkpoint names.
pub proof fn content_is_bound_to_the_last_written_sidecar(
    s: RunSession,
    saves: Seq<(Option<ContentCheckpointBinding>, bool)>,
    last: int,
)
    requires
        s.content is Some,
        0 <= last < saves.len(),
        saves[last].0 is Some,
        saves[last].1,
        forall|i: int| last < i < saves.len() ==> !(#[trigger] saves[i]).1,
    ensures
        after_saves(s, saves).content is Some,
        after_saves(s, saves).content->0.binding == saves[last].0,
    decreases saves.len(),
{
    let before = saves.drop_last();
    if last < saves.len() - 1 {
        assert forall|i: int| last < i < before.len() implies !(#[trigger] before[i]).1 by {
            assert(before[i] == saves[i]);
        }
        content_is_bound_to_the_last_written_sidecar(s, before, last);
        assert(!saves[saves.len() - 1].1);
    } else {
        content_stays_content(s, before);
    }
}

proof fn content_stays_content(
    s: RunSession,
    saves: Seq<(Option<ContentCheckpointBinding>, bool)>,
)
    requires
        s.content is Some,
    ensures
        after_saves(s, saves).content is Some,
    decreases saves.len(),
{
    if saves.len() > 0 {
        content_stays_content(s, saves.drop_last());
    }
}

/// The slot of the sidecar of a generation: the two slots take turns.
pub open spec fn slot_of(generation: u64) -> Seq<char> {
    if generation % 2 == 1 {
        "a"@
    } else {
        "b"@
    }
}

/// The slot of the sidecar of a generation.
pub fn sidecar_slot(generation: u64) -> (s: &'static str)
    ensures
        s@ == slot_of(generation),
{
    if generation % 2 == 1 {
        "a"
    } else {
        "b"
    }
}

/// The sidecar of the next generation does not take the slot of the one before it: a
/// save that fails leaves the sidecar of the written checkpoint as it is.
pub proof fn next_sidecar_spares_the_bound_one(generation: u64)
    requires
        generation < u64::MAX,
    ensures
        slot_of((generation + 1) as u64) != slot_of(generation),
{
    reveal_strlit("a");
    reveal_strlit("b");
    assert("a"@[0] != "b"@[0]);
}

/// A part keeps the name it is meant to have where that is free, and else has it with a
/// number behind it.
pub proof fn reserved_id_keeps_a_free_name(used: Seq<Seq<char>>, base: Seq<char>)
    ensures
        !used.contains(base) ==> reserved(used, base) == base,
        used.contains(base) ==> exists|k: nat|
            k > 0 && reserved(used, base) == base + "-"@ + #[trigger] decimal(k),
{
    if used.contains(base) {
        assert(candidate(base, 0) == base);
        used_candidate_is_numbered(used, base, 1);
    }
}

proof fn used_candidate_is_numbered(used: Seq<Seq<char>>, base: Seq<char>, i: nat)
    requires
        i > 0,
    ensures
        exists|k: nat| k > 0 && fresh_from(used, base, i) == base + "-"@ + #[trigger] decimal(k),
    decreases used.len() + 1 - i,
{
    if i > used.len() || !used.contains(candidate(base, i)) {
        assert(fresh_from(used, base, i) == base + "-"@ + decimal(i));
    } else {
        used_candidate_is_numbered(used, base, i + 1);
    }
}

/// A reference is found in a string wherever it stands in it, and in a list or an object
/// wherever one of the values holds it, at any depth.
pub proof fn disclosure_is_found_at_any_depth(
    refs: Seq<Seq<char>>,
    before: Seq<char>,
    i: int,
    after: Seq<char>,
    inner: JsonModel,
    list: Seq<JsonModel>,
    members: Seq<(Seq<char>, JsonModel)>,
    at: int,
)
    requires
        0 <= i < refs.len(),
    ensures
        discloses(JsonModel::Text(before + refs[i] + after), refs),
        discloses(inner, refs) && 0 <= at < list.len() && list[at] == inner ==> discloses(
            JsonModel::List(list),
            refs,
        ),
        discloses(inner, refs) && 0 <= at < members.len() && members[at].1 == inner ==> discloses(
            JsonModel::Object(members),
            refs,
        ),
{
    let s = before + refs[i] + after;
    assert(s.subrange(before.len() as int, (before.len() + refs[i].len()) as int) =~= refs[i]);
    assert(crate::text::occurs_at(s, refs[i], before.len() as int));
    assert(contains(s, refs[i]));
    if discloses(inner, refs) {
        if 0 <= at < list.len() && list[at] == inner {
            list_discloses(list, refs, at);
        }
        if 0 <= at < members.len() && members[at].1 == inner {
            object_discloses(members, refs, at);
        }
    }
}

/// A content conversation is taken up just where nothing of it is unfit, its resolver has a
/// name of at most 256 bytes and is the one it was bound to, and the messages it began with
/// are some of those it has.
pub proof fn content_is_attached_where_it_fits(
    resolver_id: Seq<char>,
    messages: nat,
    misfit: Option<Seq<char>>,
    state: ContentResumeState,
)
    ensures
        attach_fault(resolver_id, messages, misfit, state) is None <==> misfit is None && !blank(
            resolver_id,
        ) && byte_len(resolver_id) <= 256 && (state.binding is None
            || state.binding->0.resolver_id@ == resolver_id) && 1 <= state.initial_message_count
            <= messages,
{
}

proof fn last_summary_part_is_last(v: Seq<PartView>, digest: Seq<char>, n: int)
    requires
        0 <= n <= v.len(),
    ensures
        match last_summary_part(v, digest, n) {
            Some(p) => exists|i: int|
                0 <= i < n && #[trigger] v[i] == p && summary_part(p, digest) && forall|k: int|
                    i < k < n ==> !summary_part(#[trigger] v[k], digest),
            None => forall|k: int| 0 <= k < n ==> !summary_part(#[trigger] v[k], digest),
        },
    decreases n,
{
    if n > 0 {
        if summary_part(v[n - 1], digest) {
            assert(v[n - 1] == last_summary_part(v, digest, n)->0);
        } else {
            last_summary_part_is_last(v, digest, n - 1);
        }
    }
}

/// A summary is bound to an accepted text part of the conversation with its digest wherever
/// there is one, and to the latest of them: no later message has one.
pub proof fn summary_is_bound_to_its_latest_part(m: Seq<ContentMessageView>, digest: Seq<char>, n: int)
    requires
        0 <= n <= m.len(),
    ensures
        match last_summary(m, digest, n) {
            Some(p) => p.kind == ContentPartKind::Text && p.disclosure_state
                == ContentDisclosureState::Accepted && p.sha256_digest == digest && exists|i: int|
                0 <= i < n && (#[trigger] m[i]).parts.contains(p) && forall|k: int, j: int|
                    i < k < n && 0 <= j < m[k].parts.len() ==> !summary_part(
                        #[trigger] m[k].parts[j],
                        digest,
                    ),
            None => forall|k: int, j: int|
                0 <= k < n && 0 <= j < m[k].parts.len() ==> !summary_part(
                    #[trigger] m[k].parts[j],
                    digest,
                ),
        },
    decreases n,
{
    if n > 0 {
        let parts = m[n - 1].parts;
        last_summary_part_is_last(parts, digest, parts.len() as int);
        match last_summary_part(parts, digest, parts.len() as int) {
            Some(p) => {
                let i = choose|i: int|
                    0 <= i < parts.len() && #[trigger] parts[i] == p && summary_part(p, digest);
                assert(parts[i] == p);
                assert(m[n - 1].parts.contains(p));
            },
            None => {
                summary_is_bound_to_its_latest_part(m, digest, n - 1);
            },
        }
    }
}

/// A content turn is staged just where a turn was begun and the last message is an assistant
/// one behind those that the conversation began with.
pub proof fn staged_content_is_an_open_turn(turns: u32, initial: u32, m: Seq<ContentMessageView>)
    ensures
        staged_content(turns, initial, m) ==> turns > 0 && m.len() > initial && m.last().role
            == "assistant"@,
        turns > 0 && m.len() > initial && m.last().role == "assistant"@ ==> staged_content(
            turns,
            initial,
            m,
        ),
{
}

/// What a replay compares are the assistant and the tool messages, each once.
pub proof fn replay_compares_answers_and_results(m: Seq<ChatMessageView>, last: ChatMessageView)
    ensures
        comparable(Seq::<ChatMessageView>::empty(), 0) == 0,
        comparable(m.push(last), (m.len() + 1) as int) == comparable(m, m.len() as int) + (if last.role
            == "assistant"@ || last.role == "tool"@ {
            1nat
        } else {
            0nat
        }),
{
    comparable_of_a_front(m, last, m.len() as int);
}

proof fn comparable_of_a_front(m: Seq<ChatMessageView>, last: ChatMessageView, n: int)
    requires
        0 <= n <= m.len(),
    ensures
        comparable(m.push(last), n) == comparable(m, n),
    decreases n,
{
    if n > 0 {
        comparable_of_a_front(m, last, n - 1);
    }
}

/// A checkpoint holds the whole of the attempt: who it is, its task, its conversation, how
/// far it came, where it works and what is still to do. The replay cursor stands behind what
/// can be compared, and content is bound just where the attempt has content.
pub proof fn checkpoint_holds_the_attempt(
    c: Checkpoint,
    s: RunSession,
    keep_workspace: bool,
    park: Option<ParkedState>,
    prompt_id: Seq<char>,
    todos: Seq<TodoItem>,
    binding: Option<ContentCheckpointBinding>,
)
    requires
        checkpoint_of(c, s, keep_workspace, park, prompt_id, todos, binding),
    ensures
        c.run_id@ == s.run_id@,
        c.task@ == s.task@,
        c.messages@.len() == s.messages@.len(),
        forall|i: int| 0 <= i < c.messages@.len() ==> (#[trigger] c.messages@[i])@ == s.messages@[i]@,
        c.completed_turns == s.turns,
        c.workspace@ == s.workspace@,
        c.workspace_adapter@ == s.workspace_adapter@,
        c.keep_workspace == keep_workspace,
        c.park == park,
        c.prompt_id@ == prompt_id,
        c.todos@ == todos,
        c.replay is Some <==> s.replay is Some,
        s.replay is Some ==> c.replay->0.usage == s.replay->0.usage && c.replay->0.terminal
            == s.replay->0.terminal && c.replay->0.manifest_digest == s.replay->0.manifest_digest,
        s.content is None ==> c.content is None,
        s.content is Some ==> c.content == binding,
{
    let a = message_views(c.messages@);
    let b = message_views(s.messages@);
    assert(a.len() == c.messages@.len());
    assert(b.len() == s.messages@.len());
    assert forall|i: int| 0 <= i < c.messages@.len() implies (#[trigger] c.messages@[i])@
        == s.messages@[i]@ by {
        assert(a[i] == b[i]);
    }
}

/// Content is bound anew just where a binding was written; a save that failed, or wrote no
/// sidecar, leaves the session as it was.
pub proof fn only_a_written_save_binds(
    s: RunSession,
    binding: Option<ContentCheckpointBinding>,
    written: bool,
)
    ensures
        !written || binding is None || s.content is None ==> saved(s, binding, written) == s,
        written && binding is Some && s.content is Some ==> saved(s, binding, written).content->0.binding
            == binding && saved(s, binding, written).content->0.messages == s.content->0.messages
            && saved(s, binding, written).content->0.usage == s.content->0.usage && saved(
            s,
            binding,
            written,
        ).messages == s.messages,
{
}

/// A run that ends is marked with how it ended and with the part that holds its summary; it
/// is not final yet.
pub proof fn ended_content_is_bound_to_its_summary(
    t: ContentTerminalCheckpoint,
    success: bool,
    termination: RunTermination,
    part: PartView,
    usage: TokenUsage,
)
    requires
        fresh_terminal(t, success, termination, part, usage),
    ensures
        t.success == success,
        t.termination == termination,
        t.summary_part_id@ == part.part_id,
        t.summary_digest@ == part.sha256_digest,
        t.usage == usage,
        !t.finalized,
        t.artifact_dir is None,
{
}

/// The checkpoint of a replay names the workspace of the attempt and stands behind all that
/// can be compared.
pub proof fn replay_checkpoint_follows_the_attempt(
    c: Checkpoint,
    s: RunSession,
    keep_workspace: bool,
    park: Option<ParkedState>,
    prompt_id: Seq<char>,
    todos: Seq<TodoItem>,
    binding: Option<ContentCheckpointBinding>,
)
    requires
        checkpoint_of(c, s, keep_workspace, park, prompt_id, todos, binding),
        s.replay is Some,
    ensures
        c.replay is Some,
        c.replay->0.workspace@ == s.workspace@,
        c.replay->0.workspace@ == c.workspace@,
        c.replay->0.source_run_id == s.replay->0.source_run_id,
{
}

} // verus!
