//! What the digests of a replay tell apart.
//!
//! The canonical texts are unambiguous, so two things have the same digest only where
//! they are the same or SHA-256 collides on their texts.
use vstd::prelude::*;
#[allow(unused_imports)]
use vstd::seq_lib::*;
#[allow(unused_imports)]
use vstd::utf8::*;

#[allow(unused_imports)]
use crate::canonical::{
    apart, field_cancels, field_regroups, join_front, label_cancels, list_cancels, list_text, number_cancels,
    pieces_regroup,
};
#[allow(unused_imports)]
use crate::canonical::{in_row_order, row_order_exists, RowView};
#[allow(unused_imports)]
use crate::config::Config;
#[allow(unused_imports)]
use crate::digest::{labels_tell_texts_apart, no_collision};
#[allow(unused_imports)]
use crate::events::bool_text;
#[allow(unused_imports)]
use crate::json::{json_quoted, quoted_cancels};
#[allow(unused_imports)]
use crate::model::{back_slash, ChatMessageView, ToolCallView, ToolDef};
#[allow(unused_imports)]
use crate::replay::bindings::{
    catalog_digest_of, catalog_order_does_not_count, catalog_rows, catalog_texts, inventory_digest,
    inventory_order_does_not_count, inventory_row, inventory_texts, model_digest_of, model_source,
    sorted_rows, triple_text,
};
#[allow(unused_imports)]
use crate::replay::{
    admission_fault, arguments_text, bindings_text, canonical_digest, compared, evidence_text,
    last_named, manifest_of, normalized_calls, step_of, step_text, step_texts, steps_of,
    terminal_of, terminal_text, text_digest_of, tool_name, turn_text, BindingsView, EvidenceView,
    ReplayComparisonStatus, ReplayStepComparison, ReplayStepEvidence, ReplayStepKind, StepView,
    TerminalView,
};
#[allow(unused_imports)]
use crate::run::RunResult;
#[allow(unused_imports)]
use crate::text::{decimal, join, unix_lines};

verus! {

spec fn bindings_from_retained(b: BindingsView, x: Seq<char>) -> Seq<char> {
    ",\"retained_evidence_digest\":"@ + (json_quoted(b.retained_evidence_digest) + ("}"@ + x))
}

spec fn bindings_from_policy(b: BindingsView, x: Seq<char>) -> Seq<char> {
    ",\"policy_evidence_digest\":"@ + (json_quoted(b.policy_evidence_digest) + bindings_from_retained(b, x))
}

spec fn bindings_from_catalog(b: BindingsView, x: Seq<char>) -> Seq<char> {
    ",\"tool_catalog_digest\":"@ + (json_quoted(b.tool_catalog_digest) + bindings_from_policy(b, x))
}

spec fn bindings_from_model(b: BindingsView, x: Seq<char>) -> Seq<char> {
    ",\"model_digest\":"@ + (json_quoted(b.model_digest) + bindings_from_catalog(b, x))
}

spec fn bindings_from_prompt(b: BindingsView, x: Seq<char>) -> Seq<char> {
    ",\"prompt_digest\":"@ + (json_quoted(b.prompt_digest) + bindings_from_model(b, x))
}

spec fn bindings_from_inputs(b: BindingsView, x: Seq<char>) -> Seq<char> {
    ",\"inputs_digest\":"@ + (json_quoted(b.inputs_digest) + bindings_from_prompt(b, x))
}

spec fn bindings_from_task(b: BindingsView, x: Seq<char>) -> Seq<char> {
    "{\"task_digest\":"@ + (json_quoted(b.task_digest) + bindings_from_inputs(b, x))
}

proof fn bindings_by_front(b: BindingsView, x: Seq<char>)
    ensures
        bindings_text(b) + x == bindings_from_task(b, x),
{
    let h1 = "{\"task_digest\":"@ + json_quoted(b.task_digest);
    let h2 = h1 + ",\"inputs_digest\":"@ + json_quoted(b.inputs_digest);
    let h3 = h2 + ",\"prompt_digest\":"@ + json_quoted(b.prompt_digest);
    let h4 = h3 + ",\"model_digest\":"@ + json_quoted(b.model_digest);
    let h5 = h4 + ",\"tool_catalog_digest\":"@ + json_quoted(b.tool_catalog_digest);
    let h6 = h5 + ",\"policy_evidence_digest\":"@ + json_quoted(b.policy_evidence_digest);
    let h7 = h6 + ",\"retained_evidence_digest\":"@ + json_quoted(b.retained_evidence_digest);
    pieces_regroup(h7, "}"@, x);
    field_regroups(h6, ",\"retained_evidence_digest\":"@, b.retained_evidence_digest, "}"@ + x);
    field_regroups(h5, ",\"policy_evidence_digest\":"@, b.policy_evidence_digest, bindings_from_retained(b, x));
    field_regroups(h4, ",\"tool_catalog_digest\":"@, b.tool_catalog_digest, bindings_from_policy(b, x));
    field_regroups(h3, ",\"model_digest\":"@, b.model_digest, bindings_from_catalog(b, x));
    field_regroups(h2, ",\"prompt_digest\":"@, b.prompt_digest, bindings_from_model(b, x));
    field_regroups(h1, ",\"inputs_digest\":"@, b.inputs_digest, bindings_from_prompt(b, x));
    pieces_regroup("{\"task_digest\":"@, json_quoted(b.task_digest), bindings_from_inputs(b, x));
}

proof fn bindings_cancel(a: BindingsView, x: Seq<char>, b: BindingsView, y: Seq<char>)
    requires
        bindings_text(a) + x == bindings_text(b) + y,
    ensures
        a == b,
        x == y,
{
    bindings_by_front(a, x);
    bindings_by_front(b, y);
    field_cancels(
        "{\"task_digest\":"@,
        a.task_digest,
        bindings_from_inputs(a, x),
        b.task_digest,
        bindings_from_inputs(b, y),
    );
    field_cancels(
        ",\"inputs_digest\":"@,
        a.inputs_digest,
        bindings_from_prompt(a, x),
        b.inputs_digest,
        bindings_from_prompt(b, y),
    );
    field_cancels(
        ",\"prompt_digest\":"@,
        a.prompt_digest,
        bindings_from_model(a, x),
        b.prompt_digest,
        bindings_from_model(b, y),
    );
    field_cancels(
        ",\"model_digest\":"@,
        a.model_digest,
        bindings_from_catalog(a, x),
        b.model_digest,
        bindings_from_catalog(b, y),
    );
    field_cancels(
        ",\"tool_catalog_digest\":"@,
        a.tool_catalog_digest,
        bindings_from_policy(a, x),
        b.tool_catalog_digest,
        bindings_from_policy(b, y),
    );
    field_cancels(
        ",\"policy_evidence_digest\":"@,
        a.policy_evidence_digest,
        bindings_from_retained(a, x),
        b.policy_evidence_digest,
        bindings_from_retained(b, y),
    );
    field_cancels(
        ",\"retained_evidence_digest\":"@,
        a.retained_evidence_digest,
        "}"@ + x,
        b.retained_evidence_digest,
        "}"@ + y,
    );
    label_cancels("}"@, x, y);
    assert(a =~= b);
}

spec fn kind_text(kind: ReplayStepKind) -> Seq<char> {
    match kind {
        ReplayStepKind::Model => "{\"kind\":\"model\""@,
        ReplayStepKind::Tool => "{\"kind\":\"tool\""@,
    }
}

spec fn name_text(name: Seq<char>) -> Seq<char> {
    if name.len() == 0 {
        Seq::empty()
    } else {
        ",\"name\":"@ + json_quoted(name)
    }
}

spec fn step_from_digest(s: StepView, x: Seq<char>) -> Seq<char> {
    ",\"content_digest\":"@ + (json_quoted(s.content_digest) + ("}"@ + x))
}

proof fn step_by_front(s: StepView, x: Seq<char>)
    ensures
        step_text(s) + x == kind_text(s.kind) + (name_text(s.name) + step_from_digest(s, x)),
{
    let h = kind_text(s.kind) + name_text(s.name);
    pieces_regroup(h + ",\"content_digest\":"@ + json_quoted(s.content_digest), "}"@, x);
    field_regroups(h, ",\"content_digest\":"@, s.content_digest, "}"@ + x);
    pieces_regroup(kind_text(s.kind), name_text(s.name), step_from_digest(s, x));
}

proof fn name_cancels(a: Seq<char>, x: Seq<char>, b: Seq<char>, y: Seq<char>)
    requires
        name_text(a) + (",\"content_digest\":"@ + x) == name_text(b) + (
        ",\"content_digest\":"@ + y),
    ensures
        a == b,
        x == y,
{
    let label = ",\"name\":"@;
    let lc = ",\"content_digest\":"@;
    let s = name_text(a) + (lc + x);
    let t = name_text(b) + (lc + y);
    assert((a.len() == 0) == (b.len() == 0)) by {
        reveal_strlit(",\"name\":");
        reveal_strlit(",\"content_digest\":");
        assert(s[2] == (if a.len() == 0 {
            'c'
        } else {
            'n'
        }));
        assert(t[2] == (if b.len() == 0 {
            'c'
        } else {
            'n'
        }));
    }
    if a.len() == 0 {
        assert(s =~= lc + x);
        assert(t =~= lc + y);
        assert(a =~= b);
    } else {
        pieces_regroup(label, json_quoted(a), lc + x);
        pieces_regroup(label, json_quoted(b), lc + y);
        field_cancels(label, a, lc + x, b, lc + y);
    }
    label_cancels(lc, x, y);
}

proof fn kind_cancels(a: ReplayStepKind, x: Seq<char>, b: ReplayStepKind, y: Seq<char>)
    requires
        kind_text(a) + x == kind_text(b) + y,
    ensures
        a == b,
        x == y,
{
    reveal_strlit("{\"kind\":\"model\"");
    reveal_strlit("{\"kind\":\"tool\"");
    let s = kind_text(a) + x;
    assert(s[9] == kind_text(a)[9]);
    assert(s[9] == kind_text(b)[9]);
    label_cancels(kind_text(a), x, y);
}

proof fn step_cancels(a: StepView, x: Seq<char>, b: StepView, y: Seq<char>)
    requires
        step_text(a) + x == step_text(b) + y,
    ensures
        a == b,
        x == y,
{
    step_by_front(a, x);
    step_by_front(b, y);
    let a2 = json_quoted(a.content_digest) + ("}"@ + x);
    let b2 = json_quoted(b.content_digest) + ("}"@ + y);
    kind_cancels(
        a.kind,
        name_text(a.name) + step_from_digest(a, x),
        b.kind,
        name_text(b.name) + step_from_digest(b, y),
    );
    name_cancels(a.name, a2, b.name, b2);
    quoted_cancels(a.content_digest, "}"@ + x, b.content_digest, "}"@ + y);
    label_cancels("}"@, x, y);
    assert(a =~= b);
}

proof fn steps_cancel(a: Seq<StepView>, x: Seq<char>, b: Seq<StepView>, y: Seq<char>)
    requires
        list_text(step_texts(a)) + x == list_text(step_texts(b)) + y,
    ensures
        a == b,
        x == y,
{
    let p = step_texts(a);
    let q = step_texts(b);
    assert forall|i: int, j: int| 0 <= i < p.len() && 0 <= j < q.len() implies apart(
        #[trigger] p[i],
        #[trigger] q[j],
    ) by {
        if p[i].is_prefix_of(q[j]) {
            let rest = q[j].skip(p[i].len() as int);
            assert(p[i] + rest =~= q[j] + Seq::<char>::empty());
            step_cancels(a[i], rest, b[j], Seq::empty());
        } else if q[j].is_prefix_of(p[i]) {
            let rest = p[i].skip(q[j].len() as int);
            assert(p[i] + Seq::<char>::empty() =~= q[j] + rest);
            step_cancels(a[i], Seq::empty(), b[j], rest);
        }
    }
    reveal_strlit("{\"kind\":\"model\"");
    reveal_strlit("{\"kind\":\"tool\"");
    assert forall|i: int| 0 <= i < p.len() implies (#[trigger] p[i]).len() > 0 && p[i][0]
        != ']' by {
        assert(p[i][0] == kind_text(a[i].kind)[0]);
    }
    assert forall|j: int| 0 <= j < q.len() implies (#[trigger] q[j]).len() > 0 && q[j][0]
        != ']' by {
        assert(q[j][0] == kind_text(b[j].kind)[0]);
    }
    list_cancels(p, x, q, y);
    assert forall|i: int| 0 <= i < a.len() implies a[i] == b[i] by {
        assert(p[i] == q[i]);
        assert(p[i] + Seq::<char>::empty() == q[i] + Seq::<char>::empty());
        step_cancels(a[i], Seq::empty(), b[i], Seq::empty());
    }
    assert(a.len() == p.len() && b.len() == q.len());
    assert(a =~= b);
}

spec fn terminal_from_digest(t: TerminalView, x: Seq<char>) -> Seq<char> {
    ",\"summary_digest\":"@ + (json_quoted(t.summary_digest) + ("}"@ + x))
}

spec fn terminal_from_termination(t: TerminalView, x: Seq<char>) -> Seq<char> {
    ",\"termination\":"@ + (json_quoted(t.termination) + terminal_from_digest(t, x))
}

proof fn terminal_by_front(t: TerminalView, x: Seq<char>)
    ensures
        terminal_text(t) + x == "{\"success\":"@ + (bool_text(t.success)
            + terminal_from_termination(t, x)),
{
    let h1 = "{\"success\":"@ + bool_text(t.success);
    let h2 = h1 + ",\"termination\":"@ + json_quoted(t.termination);
    pieces_regroup(h2 + ",\"summary_digest\":"@ + json_quoted(t.summary_digest), "}"@, x);
    field_regroups(h2, ",\"summary_digest\":"@, t.summary_digest, "}"@ + x);
    field_regroups(h1, ",\"termination\":"@, t.termination, terminal_from_digest(t, x));
    pieces_regroup("{\"success\":"@, bool_text(t.success), terminal_from_termination(t, x));
}

proof fn bool_cancels(a: bool, x: Seq<char>, b: bool, y: Seq<char>)
    requires
        bool_text(a) + x == bool_text(b) + y,
    ensures
        a == b,
        x == y,
{
    reveal_strlit("true");
    reveal_strlit("false");
    let s = bool_text(a) + x;
    assert(s[0] == bool_text(a)[0]);
    assert(s[0] == bool_text(b)[0]);
    label_cancels(bool_text(a), x, y);
}

proof fn terminal_cancels(a: TerminalView, x: Seq<char>, b: TerminalView, y: Seq<char>)
    requires
        terminal_text(a) + x == terminal_text(b) + y,
    ensures
        a == b,
        x == y,
{
    terminal_by_front(a, x);
    terminal_by_front(b, y);
    let a2 = terminal_from_termination(a, x);
    let b2 = terminal_from_termination(b, y);
    label_cancels("{\"success\":"@, bool_text(a.success) + a2, bool_text(b.success) + b2);
    bool_cancels(a.success, a2, b.success, b2);
    field_cancels(
        ",\"termination\":"@,
        a.termination,
        terminal_from_digest(a, x),
        b.termination,
        terminal_from_digest(b, y),
    );
    field_cancels(
        ",\"summary_digest\":"@,
        a.summary_digest,
        "}"@ + x,
        b.summary_digest,
        "}"@ + y,
    );
    label_cancels("}"@, x, y);
    assert(a =~= b);
}

spec fn operation_text(id: Option<Seq<char>>) -> Seq<char> {
    match id {
        Some(id) => ",\"source_logical_operation_id\":"@ + json_quoted(id),
        None => Seq::empty(),
    }
}

spec fn after_task(e: EvidenceView) -> Seq<char> {
    ",\"bindings\":"@ + (bindings_text(e.bindings) + (",\"expected_steps\":"@ + (list_text(
        step_texts(e.expected_steps),
    ) + (",\"expected_terminal\":"@ + (terminal_text(e.expected_terminal) + "}"@)))))
}

spec fn from_task(e: EvidenceView) -> Seq<char> {
    ",\"task\":"@ + (json_quoted(e.task) + after_task(e))
}

spec fn after_version(e: EvidenceView) -> Seq<char> {
    "\"source_run_id\":"@ + (json_quoted(e.source_run_id) + (operation_text(
        e.source_logical_operation_id,
    ) + from_task(e)))
}

proof fn evidence_by_front(e: EvidenceView)
    ensures
        evidence_text(e) == "{\"schema_version\":"@ + (decimal(e.schema_version as nat) + (","@
            + after_version(e))),
{
    let version = decimal(e.schema_version as nat);
    let h0 = "{\"schema_version\":"@ + version;
    let h1 = h0 + ",\"source_run_id\":"@ + json_quoted(e.source_run_id);
    let h2 = h1 + operation_text(e.source_logical_operation_id);
    let h3 = h2 + ",\"task\":"@ + json_quoted(e.task);
    let t1 = bindings_text(e.bindings);
    let t2 = list_text(step_texts(e.expected_steps));
    let t3 = terminal_text(e.expected_terminal);
    let h4 = h3 + ",\"bindings\":"@ + t1;
    let h5 = h4 + ",\"expected_steps\":"@ + t2;
    let x3 = ",\"expected_terminal\":"@ + (t3 + "}"@);
    let x2 = ",\"expected_steps\":"@ + (t2 + x3);
    pieces_regroup(h5 + ",\"expected_terminal\":"@, t3, "}"@);
    pieces_regroup(h5, ",\"expected_terminal\":"@, t3 + "}"@);
    pieces_regroup(h4 + ",\"expected_steps\":"@, t2, x3);
    pieces_regroup(h4, ",\"expected_steps\":"@, t2 + x3);
    pieces_regroup(h3 + ",\"bindings\":"@, t1, x2);
    pieces_regroup(h3, ",\"bindings\":"@, t1 + x2);
    field_regroups(h2, ",\"task\":"@, e.task, after_task(e));
    let rest = operation_text(e.source_logical_operation_id) + from_task(e);
    pieces_regroup(h1, operation_text(e.source_logical_operation_id), from_task(e));
    field_regroups(h0, ",\"source_run_id\":"@, e.source_run_id, rest);
    pieces_regroup(
        "{\"schema_version\":"@,
        version,
        ",\"source_run_id\":"@ + (json_quoted(e.source_run_id) + rest),
    );
    assert(",\"source_run_id\":"@ == ","@ + "\"source_run_id\":"@) by {
        reveal_strlit(",\"source_run_id\":");
        reveal_strlit(",");
        reveal_strlit("\"source_run_id\":");
        assert(",\"source_run_id\":"@ =~= ","@ + "\"source_run_id\":"@);
    }
    pieces_regroup(","@, "\"source_run_id\":"@, json_quoted(e.source_run_id) + rest);
}

/// Evidence bundles with the same canonical text are the same.
pub proof fn evidence_texts_tell_apart(a: EvidenceView, b: EvidenceView)
    requires
        evidence_text(a) == evidence_text(b),
    ensures
        a == b,
{
    evidence_by_front(a);
    evidence_by_front(b);
    let a0 = decimal(a.schema_version as nat) + (","@ + after_version(a));
    let b0 = decimal(b.schema_version as nat) + (","@ + after_version(b));
    label_cancels("{\"schema_version\":"@, a0, b0);
    number_cancels(
        a.schema_version as nat,
        after_version(a),
        b.schema_version as nat,
        after_version(b),
    );
    let lo = ",\"source_logical_operation_id\":"@;
    let a1 = operation_text(a.source_logical_operation_id) + from_task(a);
    let b1 = operation_text(b.source_logical_operation_id) + from_task(b);
    field_cancels("\"source_run_id\":"@, a.source_run_id, a1, b.source_run_id, b1);
    assert((a.source_logical_operation_id is None) == (b.source_logical_operation_id is None)) by {
        reveal_strlit(",\"source_logical_operation_id\":");
        reveal_strlit(",\"task\":");
        assert(a1[2] == (if a.source_logical_operation_id is None {
            't'
        } else {
            's'
        }));
        assert(b1[2] == (if b.source_logical_operation_id is None {
            't'
        } else {
            's'
        }));
    }
    match (a.source_logical_operation_id, b.source_logical_operation_id) {
        (Some(i), Some(j)) => {
            assert(a1 =~= lo + (json_quoted(i) + from_task(a)));
            assert(b1 =~= lo + (json_quoted(j) + from_task(b)));
            field_cancels(lo, i, from_task(a), j, from_task(b));
        },
        _ => {
            assert(a1 =~= from_task(a));
            assert(b1 =~= from_task(b));
        },
    }
    field_cancels(",\"task\":"@, a.task, after_task(a), b.task, after_task(b));
    let lt = ",\"expected_terminal\":"@;
    let ls = ",\"expected_steps\":"@;
    let a4 = lt + (terminal_text(a.expected_terminal) + "}"@);
    let b4 = lt + (terminal_text(b.expected_terminal) + "}"@);
    let a3 = ls + (list_text(step_texts(a.expected_steps)) + a4);
    let b3 = ls + (list_text(step_texts(b.expected_steps)) + b4);
    label_cancels(
        ",\"bindings\":"@,
        bindings_text(a.bindings) + a3,
        bindings_text(b.bindings) + b3,
    );
    bindings_cancel(a.bindings, a3, b.bindings, b3);
    label_cancels(
        ls,
        list_text(step_texts(a.expected_steps)) + a4,
        list_text(step_texts(b.expected_steps)) + b4,
    );
    steps_cancel(a.expected_steps, a4, b.expected_steps, b4);
    label_cancels(
        lt,
        terminal_text(a.expected_terminal) + "}"@,
        terminal_text(b.expected_terminal) + "}"@,
    );
    terminal_cancels(a.expected_terminal, "}"@, b.expected_terminal, "}"@);
    assert(a =~= b);
}

/// A manifest refuses every bundle but the one that it was made for, unless SHA-256
/// collides on the two.
pub proof fn manifest_refuses_other_evidence(made_for: EvidenceView, other: EvidenceView)
    requires
        other != made_for,
        no_collision(encode_utf8(evidence_text(made_for)), encode_utf8(evidence_text(other))),
    ensures
        admission_fault(manifest_of(made_for), other) is Some,
{
    if evidence_text(made_for) == evidence_text(other) {
        evidence_texts_tell_apart(made_for, other);
    }
    labels_tell_texts_apart(evidence_text(made_for), evidence_text(other));
}

// ---------------------------------------------------------------------------
// Texts
// ---------------------------------------------------------------------------

/// Two texts have the same digest just where they are the same with CR LF read as LF,
/// unless SHA-256 collides on them.
pub proof fn text_digests_tell_apart(a: Seq<char>, b: Seq<char>)
    requires
        no_collision(encode_utf8(unix_lines(a)), encode_utf8(unix_lines(b))),
    ensures
        text_digest_of(a) == text_digest_of(b) <==> unix_lines(a) == unix_lines(b),
{
    labels_tell_texts_apart(unix_lines(a), unix_lines(b));
}

// ---------------------------------------------------------------------------
// Tool catalogs
// ---------------------------------------------------------------------------

proof fn triple_cancels(
    a: (Seq<char>, Seq<char>, Seq<char>),
    x: Seq<char>,
    b: (Seq<char>, Seq<char>, Seq<char>),
    y: Seq<char>,
)
    requires
        triple_text(a.0, a.1, a.2) + x == triple_text(b.0, b.1, b.2) + y,
    ensures
        a == b,
        x == y,
{
    triple_by_front(a.0, a.1, a.2, x);
    triple_by_front(b.0, b.1, b.2, y);
    let a3 = ","@ + (json_quoted(a.2) + ("]"@ + x));
    let b3 = ","@ + (json_quoted(b.2) + ("]"@ + y));
    let a2 = ","@ + (json_quoted(a.1) + a3);
    let b2 = ","@ + (json_quoted(b.1) + b3);
    field_cancels("["@, a.0, a2, b.0, b2);
    field_cancels(","@, a.1, a3, b.1, b3);
    field_cancels(","@, a.2, "]"@ + x, b.2, "]"@ + y);
    label_cancels("]"@, x, y);
}

proof fn triple_by_front(a: Seq<char>, b: Seq<char>, c: Seq<char>, x: Seq<char>)
    ensures
        triple_text(a, b, c) + x == "["@ + (json_quoted(a) + (","@ + (json_quoted(b) + (","@ + (
        json_quoted(c) + ("]"@ + x)))))),
{
    let h1 = "["@ + json_quoted(a);
    let h2 = h1 + ","@ + json_quoted(b);
    let x3 = ","@ + (json_quoted(c) + ("]"@ + x));
    pieces_regroup(h2 + ","@ + json_quoted(c), "]"@, x);
    field_regroups(h2, ","@, c, "]"@ + x);
    field_regroups(h1, ","@, b, x3);
    pieces_regroup("["@, json_quoted(a), ","@ + (json_quoted(b) + x3));
}

proof fn triple_begins_with_a_bracket(a: Seq<char>, b: Seq<char>, c: Seq<char>)
    ensures
        triple_text(a, b, c).len() > 0,
        triple_text(a, b, c)[0] == '[',
{
    reveal_strlit("[");
    triple_by_front(a, b, c, Seq::empty());
    let s = triple_text(a, b, c) + Seq::<char>::empty();
    assert(s =~= triple_text(a, b, c));
}

/// Catalogs with the same canonical text have the same rows. The number of a row is not
/// part of the text.
proof fn catalog_texts_tell_apart(a: Seq<RowView>, b: Seq<RowView>)
    requires
        list_text(catalog_texts(a)) == list_text(catalog_texts(b)),
        forall|i: int| 0 <= i < a.len() ==> (#[trigger] a[i]).n == 0,
        forall|i: int| 0 <= i < b.len() ==> (#[trigger] b[i]).n == 0,
    ensures
        a == b,
{
    let p = catalog_texts(a);
    let q = catalog_texts(b);
    assert forall|i: int, j: int| 0 <= i < p.len() && 0 <= j < q.len() implies apart(
        #[trigger] p[i],
        #[trigger] q[j],
    ) by {
        let u = (a[i].a, a[i].b, a[i].c);
        let v = (b[j].a, b[j].b, b[j].c);
        if p[i].is_prefix_of(q[j]) {
            let rest = q[j].skip(p[i].len() as int);
            assert(p[i] + rest =~= q[j] + Seq::<char>::empty());
            triple_cancels(u, rest, v, Seq::empty());
        } else if q[j].is_prefix_of(p[i]) {
            let rest = p[i].skip(q[j].len() as int);
            assert(p[i] + Seq::<char>::empty() =~= q[j] + rest);
            triple_cancels(u, Seq::empty(), v, rest);
        }
    }
    assert forall|i: int| 0 <= i < p.len() implies (#[trigger] p[i]).len() > 0 && p[i][0]
        != ']' by {
        triple_begins_with_a_bracket(a[i].a, a[i].b, a[i].c);
    }
    assert forall|j: int| 0 <= j < q.len() implies (#[trigger] q[j]).len() > 0 && q[j][0]
        != ']' by {
        triple_begins_with_a_bracket(b[j].a, b[j].b, b[j].c);
    }
    let nothing = Seq::<char>::empty();
    assert(list_text(p) + nothing == list_text(q) + nothing);
    list_cancels(p, nothing, q, nothing);
    assert(a.len() == p.len() && b.len() == q.len());
    assert forall|i: int| 0 <= i < a.len() implies a[i] == b[i] by {
        assert(p[i] == q[i]);
        triple_cancels(
            (a[i].a, a[i].b, a[i].c),
            nothing,
            (b[i].a, b[i].b, b[i].c),
            nothing,
        );
        assert(a[i] =~= b[i]);
    }
    assert(a =~= b);
}

/// The canonical text of a tool catalog: the bytes that its digest is of.
pub open spec fn catalog_text(tools: Seq<ToolDef>) -> Seq<char> {
    list_text(catalog_texts(sorted_rows(catalog_rows(tools))))
}

proof fn sorted_rows_hold_the_rows(v: Seq<RowView>)
    ensures
        in_row_order(v, sorted_rows(v)),
        forall|i: int|
            0 <= i < sorted_rows(v).len() ==> v.contains(#[trigger] sorted_rows(v)[i]),
{
    broadcast use group_to_multiset_ensures;

    let s = row_order_exists(v);
    assert(in_row_order(v, s));
    let sorted = sorted_rows(v);
    assert forall|i: int| 0 <= i < sorted.len() implies v.contains(#[trigger] sorted[i]) by {
        assert(sorted.contains(sorted[i]));
        assert(sorted.to_multiset().count(sorted[i]) > 0);
    }
}

/// Two tool catalogs have the same digest just where they hold the same tools, whatever
/// their order, unless SHA-256 collides on them.
pub proof fn catalog_digests_tell_apart(a: Seq<ToolDef>, b: Seq<ToolDef>)
    requires
        no_collision(encode_utf8(catalog_text(a)), encode_utf8(catalog_text(b))),
    ensures
        catalog_digest_of(a) == catalog_digest_of(b) <==> catalog_rows(a).to_multiset()
            == catalog_rows(b).to_multiset(),
{
    let p = catalog_rows(a);
    let q = catalog_rows(b);
    labels_tell_texts_apart(catalog_text(a), catalog_text(b));
    sorted_rows_hold_the_rows(p);
    sorted_rows_hold_the_rows(q);
    if p.to_multiset() == q.to_multiset() {
        catalog_order_does_not_count(a, b);
    } else if catalog_digest_of(a) == catalog_digest_of(b) {
        catalog_texts_tell_apart(sorted_rows(p), sorted_rows(q));
    }
}

/// A tool whose name, description or schema changes gives the catalog another digest,
/// unless SHA-256 collides on the two.
pub proof fn changed_tool_changes_the_catalog_digest(tools: Seq<ToolDef>, i: int, tool: ToolDef)
    requires
        0 <= i < tools.len(),
        tool.name@ != tools[i].name@ || tool.description@ != tools[i].description@ || tool.schema@
            != tools[i].schema@,
        no_collision(
            encode_utf8(catalog_text(tools)),
            encode_utf8(catalog_text(tools.update(i, tool))),
        ),
    ensures
        catalog_digest_of(tools) != catalog_digest_of(tools.update(i, tool)),
{
    broadcast use group_to_multiset_ensures;
    broadcast use vstd::multiset::group_multiset_axioms;

    let changed = tools.update(i, tool);
    let p = catalog_rows(tools);
    let q = catalog_rows(changed);
    assert(q =~= p.update(i, q[i]));
    assert(q.remove(i) =~= p.remove(i));
    assert(p[i] != q[i]);
    if p.to_multiset() == q.to_multiset() {
        let rest = p.remove(i).to_multiset();
        assert(rest =~= p.to_multiset().remove(p[i]));
        assert(rest =~= q.to_multiset().remove(q[i]));
        assert(p.contains(p[i]));
        assert(p.to_multiset().count(p[i]) > 0);
        assert(rest.count(p[i]) == p.to_multiset().count(p[i]) - 1);
        assert(rest.count(p[i]) == q.to_multiset().count(p[i]));
    }
    catalog_digests_tell_apart(tools, changed);
}

// ---------------------------------------------------------------------------
// Inventories
// ---------------------------------------------------------------------------

/// The canonical text of an inventory: the bytes that its digest is of.
pub open spec fn inventory_text(rows: Seq<RowView>) -> Seq<char> {
    list_text(inventory_texts(sorted_rows(rows)))
}

proof fn row_by_front(r: RowView, x: Seq<char>)
    ensures
        inventory_row(r) + x == "["@ + (json_quoted(r.a) + (","@ + (decimal(r.n as nat) + (","@ + (
        json_quoted(r.b) + ("]"@ + x)))))),
{
    let n = decimal(r.n as nat);
    let h1 = "["@ + json_quoted(r.a);
    let h2 = h1 + ","@ + n;
    let x3 = ","@ + (json_quoted(r.b) + ("]"@ + x));
    pieces_regroup(h2 + ","@ + json_quoted(r.b), "]"@, x);
    field_regroups(h2, ","@, r.b, "]"@ + x);
    pieces_regroup(h1 + ","@, n, x3);
    pieces_regroup(h1, ","@, n + x3);
    pieces_regroup("["@, json_quoted(r.a), ","@ + (n + x3));
}

proof fn row_cancels(a: RowView, x: Seq<char>, b: RowView, y: Seq<char>)
    requires
        inventory_row(a) + x == inventory_row(b) + y,
    ensures
        a.a == b.a,
        a.n == b.n,
        a.b == b.b,
        x == y,
{
    row_by_front(a, x);
    row_by_front(b, y);
    let a3 = json_quoted(a.b) + ("]"@ + x);
    let b3 = json_quoted(b.b) + ("]"@ + y);
    let a2 = decimal(a.n as nat) + (","@ + a3);
    let b2 = decimal(b.n as nat) + (","@ + b3);
    field_cancels("["@, a.a, ","@ + a2, b.a, ","@ + b2);
    label_cancels(","@, a2, b2);
    number_cancels(a.n as nat, a3, b.n as nat, b3);
    quoted_cancels(a.b, "]"@ + x, b.b, "]"@ + y);
    label_cancels("]"@, x, y);
}

proof fn row_begins_with_a_bracket(r: RowView)
    ensures
        inventory_row(r).len() > 0,
        inventory_row(r)[0] == '[',
{
    reveal_strlit("[");
    row_by_front(r, Seq::empty());
    let s = inventory_row(r) + Seq::<char>::empty();
    assert(s =~= inventory_row(r));
}

/// Whether rows are of files: a path, a size and a digest.
pub open spec fn rows_of_files(rows: Seq<RowView>) -> bool {
    forall|i: int| 0 <= i < rows.len() ==> (#[trigger] rows[i]).c.len() == 0
}

proof fn inventory_texts_tell_apart(a: Seq<RowView>, b: Seq<RowView>)
    requires
        rows_of_files(a),
        rows_of_files(b),
        list_text(inventory_texts(a)) == list_text(inventory_texts(b)),
    ensures
        a == b,
{
    let p = inventory_texts(a);
    let q = inventory_texts(b);
    let nothing = Seq::<char>::empty();
    assert forall|i: int, j: int| 0 <= i < p.len() && 0 <= j < q.len() implies apart(
        #[trigger] p[i],
        #[trigger] q[j],
    ) by {
        if p[i].is_prefix_of(q[j]) {
            let rest = q[j].skip(p[i].len() as int);
            assert(p[i] + rest =~= q[j] + nothing);
            row_cancels(a[i], rest, b[j], nothing);
        } else if q[j].is_prefix_of(p[i]) {
            let rest = p[i].skip(q[j].len() as int);
            assert(p[i] + nothing =~= q[j] + rest);
            row_cancels(a[i], nothing, b[j], rest);
        }
    }
    assert forall|i: int| 0 <= i < p.len() implies (#[trigger] p[i]).len() > 0 && p[i][0]
        != ']' by {
        row_begins_with_a_bracket(a[i]);
    }
    assert forall|j: int| 0 <= j < q.len() implies (#[trigger] q[j]).len() > 0 && q[j][0]
        != ']' by {
        row_begins_with_a_bracket(b[j]);
    }
    assert(list_text(p) + nothing == list_text(q) + nothing);
    list_cancels(p, nothing, q, nothing);
    assert(a.len() == p.len() && b.len() == q.len());
    assert forall|i: int| 0 <= i < a.len() implies a[i] == b[i] by {
        assert(p[i] == q[i]);
        row_cancels(a[i], nothing, b[i], nothing);
        assert(a[i].c =~= b[i].c);
        assert(a[i] =~= b[i]);
    }
    assert(a =~= b);
}

/// Two inventories have the same digest just where they hold the same files, whatever
/// the order they were read in, unless SHA-256 collides on them.
pub proof fn inventory_digests_tell_apart(a: Seq<RowView>, b: Seq<RowView>)
    requires
        rows_of_files(a),
        rows_of_files(b),
        no_collision(encode_utf8(inventory_text(a)), encode_utf8(inventory_text(b))),
    ensures
        inventory_digest(a) == inventory_digest(b) <==> a.to_multiset() == b.to_multiset(),
{
    labels_tell_texts_apart(inventory_text(a), inventory_text(b));
    sorted_rows_hold_the_rows(a);
    sorted_rows_hold_the_rows(b);
    if a.to_multiset() == b.to_multiset() {
        inventory_order_does_not_count(a, b);
    } else if inventory_digest(a) == inventory_digest(b) {
        let p = sorted_rows(a);
        let q = sorted_rows(b);
        assert forall|i: int| 0 <= i < p.len() implies (#[trigger] p[i]).c.len() == 0 by {
            let k = choose|k: int| 0 <= k < a.len() && a[k] == p[i];
            assert(a[k].c.len() == 0);
        }
        assert forall|i: int| 0 <= i < q.len() implies (#[trigger] q[i]).c.len() == 0 by {
            let k = choose|k: int| 0 <= k < b.len() && b[k] == q[i];
            assert(b[k].c.len() == 0);
        }
        inventory_texts_tell_apart(p, q);
    }
}

/// A workspace with a file has another digest than an empty one, unless SHA-256
/// collides on the two.
pub proof fn files_differ_from_an_empty_workspace(rows: Seq<RowView>)
    requires
        rows.len() > 0,
        rows_of_files(rows),
        no_collision(
            encode_utf8(inventory_text(rows)),
            encode_utf8(inventory_text(Seq::empty())),
        ),
    ensures
        inventory_digest(rows) != inventory_digest(Seq::empty()),
{
    broadcast use group_to_multiset_ensures;

    let none = Seq::<RowView>::empty();
    inventory_digests_tell_apart(rows, none);
    assert(rows.to_multiset().len() == rows.len());
    assert(none.to_multiset().len() == none.len());
}

// ---------------------------------------------------------------------------
// Models
// ---------------------------------------------------------------------------

/// The canonical text of a model binding: the bytes that its digest is of.
pub open spec fn model_text(c: Config) -> Seq<char> {
    triple_text(c.model.adapter@, c.model.model@, model_source(c))
}

/// Two configurations have the same model digest just where they name the same adapter,
/// model and source, unless SHA-256 collides on them.
pub proof fn model_digests_tell_apart(a: Config, b: Config)
    requires
        no_collision(encode_utf8(model_text(a)), encode_utf8(model_text(b))),
    ensures
        model_digest_of(a) == model_digest_of(b) <==> (a.model.adapter@ == b.model.adapter@
            && a.model.model@ == b.model.model@ && model_source(a) == model_source(b)),
{
    labels_tell_texts_apart(model_text(a), model_text(b));
    if model_text(a) == model_text(b) {
        let nothing = Seq::<char>::empty();
        triple_cancels(
            (a.model.adapter@, a.model.model@, model_source(a)),
            nothing,
            (b.model.adapter@, b.model.model@, model_source(b)),
            nothing,
        );
    }
}

/// Another script gives a scripted model another digest; line ends do not count. This
/// holds unless SHA-256 collides on the scripts or on the bindings.
pub proof fn scripts_tell_models_apart(a: Config, b: Config)
    requires
        a.model.adapter@ == "scripted"@,
        b.model.adapter@ == "scripted"@,
        a.model.script_json is Some,
        b.model.script_json is Some,
        a.model.model@ == b.model.model@,
        no_collision(encode_utf8(model_text(a)), encode_utf8(model_text(b))),
        no_collision(
            encode_utf8(unix_lines(a.model.script_json->0@)),
            encode_utf8(unix_lines(b.model.script_json->0@)),
        ),
    ensures
        model_digest_of(a) == model_digest_of(b) <==> unix_lines(a.model.script_json->0@)
            == unix_lines(b.model.script_json->0@),
{
    reveal_strlit("http");
    reveal_strlit("scripted");
    assert("http"@.len() != "scripted"@.len());
    model_digests_tell_apart(a, b);
    let s = a.model.script_json->0@;
    let t = b.model.script_json->0@;
    text_digests_tell_apart(s, t);
    if model_source(a) == model_source(b) {
        label_cancels("script:"@, text_digest_of(s), text_digest_of(t));
    }
}

/// The base address of a model over HTTP, without trailing slashes.
pub open spec fn base_address(c: Config) -> Seq<char> {
    let base = match c.model.base_url {
        Some(u) => u@,
        None => "https://api.openai.com/v1"@,
    };
    base.subrange(0, back_slash(base, base.len() as int))
}

/// Another base address gives a model over HTTP another digest; trailing slashes do not
/// count. This holds unless SHA-256 collides on the bindings.
pub proof fn addresses_tell_models_apart(a: Config, b: Config)
    requires
        a.model.adapter@ == "http"@,
        b.model.adapter@ == "http"@,
        a.model.model@ == b.model.model@,
        no_collision(encode_utf8(model_text(a)), encode_utf8(model_text(b))),
    ensures
        model_digest_of(a) == model_digest_of(b) <==> base_address(a) == base_address(b),
{
    model_digests_tell_apart(a, b);
    if model_source(a) == model_source(b) {
        label_cancels("base_url:"@, base_address(a), base_address(b));
    }
}

// ---------------------------------------------------------------------------
// Steps
// ---------------------------------------------------------------------------

/// Tool steps tell tool results apart: their digests are equal just where what the tools
/// gave back is the same with CR LF read as LF, unless SHA-256 collides on the two.
pub proof fn tool_steps_tell_results_apart(
    m: Seq<ChatMessageView>,
    i: int,
    w: Seq<ChatMessageView>,
    j: int,
)
    requires
        m[i].role == "tool"@,
        w[j].role == "tool"@,
        no_collision(encode_utf8(unix_lines(m[i].content)), encode_utf8(unix_lines(w[j].content))),
    ensures
        step_of(m, i) is Some,
        step_of(w, j) is Some,
        step_of(m, i)->0.content_digest == step_of(w, j)->0.content_digest <==> unix_lines(
            m[i].content,
        ) == unix_lines(w[j].content),
{
    reveal_strlit("tool");
    reveal_strlit("assistant");
    assert("tool"@.len() != "assistant"@.len());
    text_digests_tell_apart(m[i].content, w[j].content);
}

/// Model steps tell texts apart: steps with the same digest are of messages with the same
/// text, and either both or neither call a tool, unless SHA-256 collides on the two.
pub proof fn model_steps_tell_texts_apart(
    m: Seq<ChatMessageView>,
    i: int,
    w: Seq<ChatMessageView>,
    j: int,
)
    requires
        m[i].role == "assistant"@,
        w[j].role == "assistant"@,
        no_collision(encode_utf8(turn_text(m[i])), encode_utf8(turn_text(w[j]))),
        step_of(m, i)->0.content_digest == step_of(w, j)->0.content_digest,
    ensures
        m[i].content == w[j].content,
        (m[i].tool_calls.len() == 0) == (w[j].tool_calls.len() == 0),
        m[i].tool_calls.len() > 0 ==> m[i].tool_calls[0].name == w[j].tool_calls[0].name,
{
    let a = m[i];
    let b = w[j];
    labels_tell_texts_apart(turn_text(a), turn_text(b));
    turn_by_front(a);
    turn_by_front(b);
    let ra = ","@ + (list_text(normalized_calls(a.tool_calls)) + "]"@);
    let rb = ","@ + (list_text(normalized_calls(b.tool_calls)) + "]"@);
    field_cancels("["@, a.content, ra, b.content, rb);
    let la = list_text(normalized_calls(a.tool_calls)) + "]"@;
    let lb = list_text(normalized_calls(b.tool_calls)) + "]"@;
    label_cancels(","@, la, lb);
    calls_begin(a.tool_calls);
    calls_begin(b.tool_calls);
    if a.tool_calls.len() > 0 && b.tool_calls.len() > 0 {
        let xa = after_first_name(a.tool_calls);
        let xb = after_first_name(b.tool_calls);
        label_cancels("["@, "["@ + (json_quoted(a.tool_calls[0].name) + xa), "["@ + (json_quoted(
            b.tool_calls[0].name,
        ) + xb));
        field_cancels("["@, a.tool_calls[0].name, xa, b.tool_calls[0].name, xb);
    } else {
        reveal_strlit("[");
        reveal_strlit("]");
        assert(la[1] == (if a.tool_calls.len() == 0 {
            ']'
        } else {
            '['
        }));
        assert(lb[1] == (if b.tool_calls.len() == 0 {
            ']'
        } else {
            '['
        }));
    }
}

proof fn turn_by_front(m: ChatMessageView)
    ensures
        turn_text(m) == "["@ + (json_quoted(m.content) + (","@ + (list_text(
            normalized_calls(m.tool_calls),
        ) + "]"@))),
{
    let calls = list_text(normalized_calls(m.tool_calls));
    let h = "["@ + json_quoted(m.content);
    pieces_regroup(h + ","@, calls, "]"@);
    pieces_regroup(h, ","@, calls + "]"@);
    pieces_regroup("["@, json_quoted(m.content), ","@ + (calls + "]"@));
}

spec fn after_first_name(calls: Seq<ToolCallView>) -> Seq<char> {
    ","@ + (arguments_text(calls[0].args_json) + ("]"@ + calls_from_second(calls)))
}

spec fn calls_from_second(calls: Seq<ToolCallView>) -> Seq<char> {
    (if calls.len() == 1 {
        Seq::empty()
    } else {
        ","@ + join(normalized_calls(calls).drop_first(), ","@)
    }) + "]"@ + "]"@
}

proof fn calls_begin(calls: Seq<ToolCallView>)
    ensures
        calls.len() == 0 ==> list_text(normalized_calls(calls)) + "]"@ == "["@ + ("]"@ + "]"@),
        calls.len() > 0 ==> list_text(normalized_calls(calls)) + "]"@ == "["@ + ("["@ + (json_quoted(
            calls[0].name,
        ) + after_first_name(calls))),
{
    let v = normalized_calls(calls);
    if calls.len() == 0 {
        assert(join(v, ","@) =~= Seq::<char>::empty());
        assert(list_text(v) + "]"@ =~= "["@ + ("]"@ + "]"@));
    } else {
        let rest = calls_from_second(calls);
        let c = calls[0];
        let args = arguments_text(c.args_json);
        assert(join(v, ","@) + "]"@ + "]"@ == v[0] + rest) by {
            if calls.len() == 1 {
                assert(join(v, ","@) == v[0]);
                assert(v[0] + "]"@ + "]"@ =~= v[0] + (Seq::<char>::empty() + "]"@ + "]"@));
            } else {
                join_front(v, ","@);
                let tail = ","@ + join(v.drop_first(), ","@);
                assert(v[0] + tail + "]"@ + "]"@ =~= v[0] + (tail + "]"@ + "]"@));
            }
        }
        assert(list_text(v) + "]"@ =~= "["@ + (join(v, ","@) + "]"@ + "]"@));
        let h = "["@ + json_quoted(c.name);
        pieces_regroup(h + ","@ + args, "]"@, rest);
        pieces_regroup(h + ","@, args, "]"@ + rest);
        pieces_regroup(h, ","@, args + ("]"@ + rest));
        pieces_regroup("["@, json_quoted(c.name), after_first_name(calls));
    }
}

/// Whether a call with an id stands at a place of a conversation.
pub open spec fn call_at(m: Seq<ChatMessageView>, k: int, j: int, id: Seq<char>) -> bool {
    0 <= k < m.len() && m[k].role == "assistant"@ && 0 <= j < m[k].tool_calls.len()
        && m[k].tool_calls[j].id == id
}

proof fn last_named_is_the_last(calls: Seq<ToolCallView>, id: Seq<char>, n: int)
    requires
        0 <= n <= calls.len(),
    ensures
        match last_named(calls, id, n) {
            None => forall|j: int| 0 <= j < n ==> (#[trigger] calls[j]).id != id,
            Some(name) => exists|j: int|
                0 <= j < n && (#[trigger] calls[j]).id == id && calls[j].name == name && forall|l: int|
                    j < l < n ==> (#[trigger] calls[l]).id != id,
        },
    decreases n,
{
    if n > 0 {
        if calls[n - 1].id == id {
            assert(calls[n - 1].name == last_named(calls, id, n)->0);
        } else {
            last_named_is_the_last(calls, id, n - 1);
        }
    }
}

/// The tool that a result is of is the one that the latest call with its id before it
/// named; where there is none, the tool is unknown.
pub proof fn tool_step_names_the_latest_call(m: Seq<ChatMessageView>, i: int)
    requires
        0 <= i < m.len(),
        m[i].role == "tool"@,
    ensures
        step_of(m, i) is Some,
        step_of(m, i)->0.kind == ReplayStepKind::Tool,
        (forall|k: int, j: int| k < i ==> !#[trigger] call_at(m, k, j, m[i].tool_call_id))
            ==> step_of(m, i)->0.name == "unknown"@,
        forall|k: int, j: int|
            k < i && #[trigger] call_at(m, k, j, m[i].tool_call_id) && (forall|l: int, q: int|
                (k < l < i || (l == k && q > j)) ==> !#[trigger] call_at(
                    m,
                    l,
                    q,
                    m[i].tool_call_id,
                )) ==> step_of(m, i)->0.name == m[k].tool_calls[j].name,
{
    reveal_strlit("tool");
    reveal_strlit("assistant");
    assert("tool"@.len() != "assistant"@.len());
    tool_name_is_of_the_latest(m, m[i].tool_call_id, i);
}

proof fn tool_name_is_of_the_latest(m: Seq<ChatMessageView>, id: Seq<char>, n: int)
    requires
        0 <= n <= m.len(),
    ensures
        tool_name(m, id, n) is Some ==> exists|k: int, j: int|
            k < n && #[trigger] call_at(m, k, j, id),
        forall|k: int, j: int|
            k < n && #[trigger] call_at(m, k, j, id) && (forall|l: int, q: int|
                (k < l < n || (l == k && q > j)) ==> !#[trigger] call_at(m, l, q, id))
                ==> tool_name(m, id, n) == Some(m[k].tool_calls[j].name),
    decreases n,
{
    if n > 0 {
        tool_name_is_of_the_latest(m, id, n - 1);
        let calls = m[n - 1].tool_calls;
        let found = last_named(calls, id, calls.len() as int);
        last_named_is_the_last(calls, id, calls.len() as int);
        if m[n - 1].role == "assistant"@ && found is Some {
            let p = choose|p: int|
                0 <= p < calls.len() && (#[trigger] calls[p]).id == id && calls[p].name == found->0
                    && forall|l: int| p < l < calls.len() ==> (#[trigger] calls[l]).id != id;
            assert(call_at(m, n - 1, p, id));
            assert forall|k: int, j: int|
                k < n && #[trigger] call_at(m, k, j, id) && (forall|l: int, q: int|
                    (k < l < n || (l == k && q > j)) ==> !#[trigger] call_at(
                        m,
                        l,
                        q,
                        id,
                    )) implies tool_name(m, id, n) == Some(m[k].tool_calls[j].name) by {
                if k < n - 1 {
                    assert(!call_at(m, n - 1, p, id));
                } else {
                    if p > j {
                        assert(!call_at(m, n - 1, p, id));
                    }
                    if j > p {
                        assert(calls[j].id != id);
                    }
                }
            }
        } else {
            assert forall|k: int, j: int|
                k < n && #[trigger] call_at(m, k, j, id) && (forall|l: int, q: int|
                    (k < l < n || (l == k && q > j)) ==> !#[trigger] call_at(
                        m,
                        l,
                        q,
                        id,
                    )) implies tool_name(m, id, n) == Some(m[k].tool_calls[j].name) by {
                if k == n - 1 {
                    assert(calls[j].id != id);
                }
                assert forall|l: int, q: int|
                    (k < l < n - 1 || (l == k && q > j)) implies !#[trigger] call_at(
                    m,
                    l,
                    q,
                    id,
                ) by {}
            }
        }
    }
}

/// The calls with their ids renamed.
pub open spec fn renamed_calls(
    calls: Seq<ToolCallView>,
    f: spec_fn(Seq<char>) -> Seq<char>,
) -> Seq<ToolCallView> {
    calls.map(|i: int, c: ToolCallView| ToolCallView { id: f(c.id), ..c })
}

/// A conversation with the ids of its calls renamed throughout.
pub open spec fn renamed(
    m: Seq<ChatMessageView>,
    f: spec_fn(Seq<char>) -> Seq<char>,
) -> Seq<ChatMessageView> {
    m.map(
        |i: int, c: ChatMessageView|
            ChatMessageView {
                tool_call_id: f(c.tool_call_id),
                tool_calls: renamed_calls(c.tool_calls, f),
                ..c
            },
    )
}

/// Whether a renaming keeps different ids different.
pub open spec fn keeps_apart(f: spec_fn(Seq<char>) -> Seq<char>) -> bool {
    forall|a: Seq<char>, b: Seq<char>| #[trigger] f(a) == #[trigger] f(b) ==> a == b
}

proof fn renamed_last_named(
    calls: Seq<ToolCallView>,
    f: spec_fn(Seq<char>) -> Seq<char>,
    id: Seq<char>,
    n: int,
)
    requires
        keeps_apart(f),
        0 <= n <= calls.len(),
    ensures
        last_named(renamed_calls(calls, f), f(id), n) == last_named(calls, id, n),
    decreases n,
{
    if n > 0 {
        renamed_last_named(calls, f, id, n - 1);
        assert(renamed_calls(calls, f)[n - 1].id == f(calls[n - 1].id));
    }
}

proof fn renamed_tool_name(
    m: Seq<ChatMessageView>,
    f: spec_fn(Seq<char>) -> Seq<char>,
    id: Seq<char>,
    n: int,
)
    requires
        keeps_apart(f),
        0 <= n <= m.len(),
    ensures
        tool_name(renamed(m, f), f(id), n) == tool_name(m, id, n),
    decreases n,
{
    if n > 0 {
        renamed_tool_name(m, f, id, n - 1);
        let calls = m[n - 1].tool_calls;
        assert(renamed(m, f)[n - 1].tool_calls == renamed_calls(calls, f));
        renamed_last_named(calls, f, id, calls.len() as int);
    }
}

/// The ids that a provider gave its calls do not enter the steps: renaming them throughout
/// a conversation leaves every step as it was.
pub proof fn call_ids_do_not_enter_the_steps(
    m: Seq<ChatMessageView>,
    f: spec_fn(Seq<char>) -> Seq<char>,
    n: int,
)
    requires
        keeps_apart(f),
        0 <= n <= m.len(),
    ensures
        steps_of(renamed(m, f), n) == steps_of(m, n),
    decreases n,
{
    if n > 0 {
        call_ids_do_not_enter_the_steps(m, f, n - 1);
        let w = renamed(m, f);
        let i = n - 1;
        assert(w[i].tool_calls == renamed_calls(m[i].tool_calls, f));
        renamed_tool_name(m, f, m[i].tool_call_id, i);
        assert(normalized_calls(w[i].tool_calls) =~= normalized_calls(m[i].tool_calls));
    }
}

/// Every assistant message is one model step and every tool result one tool step, in
/// order; no other message is a step.
pub proof fn each_message_is_its_own_step(m: Seq<ChatMessageView>, i: int)
    requires
        0 <= i < m.len(),
    ensures
        m[i].role == "assistant"@ ==> steps_of(m, i + 1).len() == steps_of(m, i).len() + 1
            && steps_of(m, i + 1).last().kind == ReplayStepKind::Model && steps_of(
            m,
            i + 1,
        ).last().name.len() == 0,
        m[i].role == "tool"@ ==> steps_of(m, i + 1).len() == steps_of(m, i).len() + 1 && steps_of(
            m,
            i + 1,
        ).last().kind == ReplayStepKind::Tool,
        m[i].role != "assistant"@ && m[i].role != "tool"@ ==> steps_of(m, i + 1) == steps_of(m, i),
        steps_of(m, i).is_prefix_of(steps_of(m, i + 1)),
        steps_of(m, 0).len() == 0,
{
    reveal_strlit("tool");
    reveal_strlit("assistant");
    assert("tool"@.len() != "assistant"@.len());
    let a = steps_of(m, i);
    let b = steps_of(m, i + 1);
    assert(a =~= b.subrange(0, a.len() as int));
}

// ---------------------------------------------------------------------------
// Comparison
// ---------------------------------------------------------------------------

/// A comparison goes through both runs to the end of the longer one: a step that one run
/// lacks is missing, two steps of another kind or tool cannot be compared, and two of the
/// same are equal just where their digests are.
pub proof fn comparison_tells_every_difference(
    r: Seq<ReplayStepComparison>,
    expected: Seq<ReplayStepEvidence>,
    actual: Seq<ReplayStepEvidence>,
    i: int,
)
    requires
        compared(r, expected, actual),
        0 <= i < expected.len() || 0 <= i < actual.len(),
    ensures
        0 <= i < r.len(),
        r[i].index == i,
        i >= expected.len() || i >= actual.len() <==> r[i].status
            == ReplayComparisonStatus::Missing,
        i < expected.len() ==> r[i].expected == Some(expected[i]),
        i >= expected.len() ==> r[i].expected is None,
        i < actual.len() ==> r[i].actual == Some(actual[i]),
        i >= actual.len() ==> r[i].actual is None,
        i < expected.len() && i < actual.len() ==> {
            let alike = expected[i].kind == actual[i].kind && expected[i].name@ == actual[i].name@;
            &&& r[i].status == ReplayComparisonStatus::Unsupported <==> !alike
            &&& r[i].status == ReplayComparisonStatus::Equal <==> alike
                && expected[i].content_digest@ == actual[i].content_digest@
            &&& r[i].status == ReplayComparisonStatus::Changed <==> alike
                && expected[i].content_digest@ != actual[i].content_digest@
        },
{
    if i < expected.len() && i < actual.len() {
        let x = expected[i]@;
        let y = actual[i]@;
        if x.kind == y.kind && x.name == y.name && x.content_digest == y.content_digest {
            assert(x =~= y);
        }
    }
}

/// Two runs end alike just where both succeeded or both failed, they ended in the same
/// way, and their summaries are the same with CR LF read as LF, unless SHA-256 collides on
/// the summaries.
pub proof fn terminals_tell_ends_apart(a: RunResult, b: RunResult)
    requires
        no_collision(encode_utf8(unix_lines(a.summary@)), encode_utf8(unix_lines(b.summary@))),
    ensures
        terminal_of(a) == terminal_of(b) <==> (a.success == b.success && a.termination
            == b.termination && unix_lines(a.summary@) == unix_lines(b.summary@)),
{
    text_digests_tell_apart(a.summary@, b.summary@);
    crate::run::termination_names_differ(a.termination, b.termination);
}

} // verus!
