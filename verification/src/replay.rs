//! Versioned, content-bound run replay contracts.
//!
//! Replay evidence is host-supplied comparative input. It is not a governance
//! receipt and does not make local checkpoints authoritative.
use vstd::prelude::*;
use vstd::seq_lib::*;
use vstd::string::*;
#[allow(unused_imports)]
use vstd::utf8::*;

use crate::canonical::{list_of, push_quoted};
#[allow(unused_imports)]
use crate::canonical::list_text;
use crate::checkpoint::is_safe_run_id;
#[allow(unused_imports)]
use crate::checkpoint::safe_run_id;
use crate::digest::{digest_label, text_label};
#[allow(unused_imports)]
use crate::digest::{is_digest, is_hex, sha256_label};
#[allow(unused_imports)]
use crate::events::bool_text;
use crate::events::{push_bool, push_number};
use crate::json::{read_json, write_json, Json};
#[allow(unused_imports)]
use crate::json::{json_quoted, json_reading, json_writing, JsonModel};
use crate::model::{labelled, ChatMessage, CostEstimate, TokenUsage, ToolCall};
#[allow(unused_imports)]
use crate::model::{call_views, message_views, ChatMessageView, ToolCallView};
use crate::run::{RunResult, RunTermination};
use crate::text::{chars_of, longer_than, same, starts_with, to_unix_lines};
#[allow(unused_imports)]
use crate::text::{
    byte_len, contains, decimal, field_added, opt_view, starts, text_holds_what_is_added,
    text_keeps_what_it_holds, texts, unix_lines,
};

use credentials::contains_credential_material;
#[allow(unused_imports)]
use credentials::leaks;

pub mod bindings;
pub mod credentials;
pub mod distinct;
pub mod export;
pub mod recovery;

verus! {

pub const REPLAY_SCHEMA_VERSION: u32 = 1;

/// JSON projection of one completed replay.
pub const REPLAY_REPORT_SCHEMA_VERSION: u32 = 1;

/// JSON projection of a replay-input export.
pub const REPLAY_EXPORT_SCHEMA_VERSION: u32 = 1;

pub const MAX_REPLAY_BUNDLE_BYTES: usize = 1048576;

pub const MAX_REPLAY_STEPS: usize = 1024;

pub const MAX_REPLAY_TASK_BYTES: usize = 262144;

pub const MAX_REPLAY_INPUT_FILES: usize = 10000;

pub const MAX_REPLAY_INPUT_BYTES: u64 = 67108864;

// ---------------------------------------------------------------------------
// Types
// ---------------------------------------------------------------------------

/// The digests of everything that a replay depends on.
#[derive(Debug, Clone, PartialEq, Eq)]
pub struct ReplayBindings {
    pub task_digest: String,
    pub inputs_digest: String,
    pub prompt_digest: String,
    pub model_digest: String,
    pub tool_catalog_digest: String,
    pub policy_evidence_digest: String,
    pub retained_evidence_digest: String,
}

/// What bindings hold.
#[verifier::ext_equal]
pub struct BindingsView {
    pub task_digest: Seq<char>,
    pub inputs_digest: Seq<char>,
    pub prompt_digest: Seq<char>,
    pub model_digest: Seq<char>,
    pub tool_catalog_digest: Seq<char>,
    pub policy_evidence_digest: Seq<char>,
    pub retained_evidence_digest: Seq<char>,
}

impl View for ReplayBindings {
    type V = BindingsView;

    open spec fn view(&self) -> BindingsView {
        BindingsView {
            task_digest: self.task_digest@,
            inputs_digest: self.inputs_digest@,
            prompt_digest: self.prompt_digest@,
            model_digest: self.model_digest@,
            tool_catalog_digest: self.tool_catalog_digest@,
            policy_evidence_digest: self.policy_evidence_digest@,
            retained_evidence_digest: self.retained_evidence_digest@,
        }
    }
}

#[derive(Debug, Clone, Copy, PartialEq, Eq, Structural)]
pub enum ReplayStepKind {
    Model,
    Tool,
}

/// One step of a run: what kind it was, which tool, and the digest of its
/// content.
#[derive(Debug, Clone, PartialEq, Eq)]
pub struct ReplayStepEvidence {
    pub kind: ReplayStepKind,
    pub name: String,
    pub content_digest: String,
}

/// What a step holds.
#[verifier::ext_equal]
pub struct StepView {
    pub kind: ReplayStepKind,
    pub name: Seq<char>,
    pub content_digest: Seq<char>,
}

impl View for ReplayStepEvidence {
    type V = StepView;

    open spec fn view(&self) -> StepView {
        StepView { kind: self.kind, name: self.name@, content_digest: self.content_digest@ }
    }
}

pub open spec fn step_views(v: Seq<ReplayStepEvidence>) -> Seq<StepView> {
    Seq::new(v.len(), |i: int| v[i]@)
}

/// How a run ended, as digest-only evidence.
#[derive(Debug, Clone, PartialEq, Eq)]
pub struct ReplayTerminalEvidence {
    pub success: bool,
    pub termination: String,
    pub summary_digest: String,
}

/// What terminal evidence holds.
#[verifier::ext_equal]
pub struct TerminalView {
    pub success: bool,
    pub termination: Seq<char>,
    pub summary_digest: Seq<char>,
}

impl View for ReplayTerminalEvidence {
    type V = TerminalView;

    open spec fn view(&self) -> TerminalView {
        TerminalView {
            success: self.success,
            termination: self.termination@,
            summary_digest: self.summary_digest@,
        }
    }
}

/// The evidence of one run.
#[derive(Debug, Clone, PartialEq, Eq)]
pub struct ReplayEvidenceBundle {
    pub schema_version: u32,
    pub source_run_id: String,
    pub source_logical_operation_id: Option<String>,
    pub task: String,
    pub bindings: ReplayBindings,
    pub expected_steps: Vec<ReplayStepEvidence>,
    pub expected_terminal: ReplayTerminalEvidence,
}

/// What evidence holds.
#[verifier::ext_equal]
pub struct EvidenceView {
    pub schema_version: u32,
    pub source_run_id: Seq<char>,
    pub source_logical_operation_id: Option<Seq<char>>,
    pub task: Seq<char>,
    pub bindings: BindingsView,
    pub expected_steps: Seq<StepView>,
    pub expected_terminal: TerminalView,
}

impl View for ReplayEvidenceBundle {
    type V = EvidenceView;

    open spec fn view(&self) -> EvidenceView {
        EvidenceView {
            schema_version: self.schema_version,
            source_run_id: self.source_run_id@,
            source_logical_operation_id: opt_view(self.source_logical_operation_id),
            task: self.task@,
            bindings: self.bindings@,
            expected_steps: step_views(self.expected_steps@),
            expected_terminal: self.expected_terminal@,
        }
    }
}

/// A manifest that binds the exact bytes of its evidence.
#[derive(Debug, Clone, PartialEq, Eq)]
pub struct ReplayManifest {
    pub schema_version: u32,
    pub evidence_digest: String,
    pub bindings: ReplayBindings,
}

/// What a manifest holds.
#[verifier::ext_equal]
pub struct ManifestView {
    pub schema_version: u32,
    pub evidence_digest: Seq<char>,
    pub bindings: BindingsView,
}

impl View for ReplayManifest {
    type V = ManifestView;

    open spec fn view(&self) -> ManifestView {
        ManifestView {
            schema_version: self.schema_version,
            evidence_digest: self.evidence_digest@,
            bindings: self.bindings@,
        }
    }
}

/// How a replayed step compares with the source run.
#[derive(Debug, Clone, Copy, PartialEq, Eq, Structural)]
pub enum ReplayComparisonStatus {
    Equal,
    Changed,
    Missing,
    Unsupported,
}

impl ReplayComparisonStatus {
    /// The name of the status.
    pub fn as_str(self) -> (s: &'static str)
        ensures
            s@ == (match self {
                ReplayComparisonStatus::Equal => "equal"@,
                ReplayComparisonStatus::Changed => "changed"@,
                ReplayComparisonStatus::Missing => "missing"@,
                ReplayComparisonStatus::Unsupported => "unsupported"@,
            }),
    {
        match self {
            ReplayComparisonStatus::Equal => "equal",
            ReplayComparisonStatus::Changed => "changed",
            ReplayComparisonStatus::Missing => "missing",
            ReplayComparisonStatus::Unsupported => "unsupported",
        }
    }
}

#[derive(Debug, Clone, PartialEq, Eq)]
pub struct ReplayStepComparison {
    pub index: usize,
    pub status: ReplayComparisonStatus,
    pub expected: Option<ReplayStepEvidence>,
    pub actual: Option<ReplayStepEvidence>,
}

#[derive(Debug, Clone, PartialEq, Eq)]
pub struct ReplayTerminalComparison {
    pub status: ReplayComparisonStatus,
    pub expected: ReplayTerminalEvidence,
    pub actual: ReplayTerminalEvidence,
}

/// Replay progress that a checkpoint keeps.
#[derive(Debug, Clone, PartialEq, Eq)]
pub struct ReplayCheckpoint {
    pub manifest_digest: String,
    pub source_run_id: String,
    pub workspace: String,
    pub comparison_cursor: usize,
    pub usage: TokenUsage,
    pub terminal: Option<ReplayTerminalCheckpoint>,
}

/// The terminal result that a replay checkpoint keeps.
#[derive(Debug, Clone, PartialEq, Eq)]
pub struct ReplayTerminalCheckpoint {
    pub success: bool,
    pub termination: RunTermination,
    pub summary: String,
    pub prompt_id: String,
    pub usage: TokenUsage,
    pub cost: Option<CostEstimate>,
    pub finalized: bool,
    pub artifact_dir: Option<String>,
}

/// Why a replay was refused.
#[derive(Debug)]
pub enum ReplayError {
    Invalid(String),
    BindingMismatch { surface: String },
    GovernanceEvidenceUnsupported(String),
    Io(String),
    Checkpoint(String),
    Registry(String),
    Run(String),
}

impl ReplayError {
    /// The text of the error.
    pub open spec fn text(self) -> Seq<char> {
        match self {
            ReplayError::Invalid(m) => "replay manifest: "@ + m@,
            ReplayError::BindingMismatch { surface } => "replay binding `"@ + surface@
                + "` changed"@,
            ReplayError::GovernanceEvidenceUnsupported(a) =>
                "governed replay evidence cannot be verified by adapter `"@ + a@ + "`"@,
            ReplayError::Io(m) => "replay input I/O: "@ + m@,
            ReplayError::Checkpoint(m) => m@,
            ReplayError::Registry(m) => m@,
            ReplayError::Run(m) => m@,
        }
    }

    /// The text of the error.
    pub fn message(&self) -> (s: String)
        ensures
            s@ == self.text(),
    {
        match self {
            ReplayError::Invalid(m) => labelled("replay manifest: ", m),
            ReplayError::BindingMismatch { surface } => {
                let mut s = labelled("replay binding `", surface);
                s.append("` changed");
                s
            },
            ReplayError::GovernanceEvidenceUnsupported(a) => {
                let mut s = labelled("governed replay evidence cannot be verified by adapter `", a);
                s.append("`");
                s
            },
            ReplayError::Io(m) => labelled("replay input I/O: ", m),
            ReplayError::Checkpoint(m) => m.clone(),
            ReplayError::Registry(m) => m.clone(),
            ReplayError::Run(m) => m.clone(),
        }
    }
}

impl ReplayBindings {
    /// The same bindings again.
    pub fn duplicate(&self) -> (r: ReplayBindings)
        ensures
            r == *self,
    {
        ReplayBindings {
            task_digest: self.task_digest.clone(),
            inputs_digest: self.inputs_digest.clone(),
            prompt_digest: self.prompt_digest.clone(),
            model_digest: self.model_digest.clone(),
            tool_catalog_digest: self.tool_catalog_digest.clone(),
            policy_evidence_digest: self.policy_evidence_digest.clone(),
            retained_evidence_digest: self.retained_evidence_digest.clone(),
        }
    }

    /// Whether two sets of bindings agree on every digest.
    pub fn agree(&self, other: &ReplayBindings) -> (r: bool)
        ensures
            r == (self@ == other@),
    {
        same(self.task_digest.as_str(), other.task_digest.as_str()) && same(
            self.inputs_digest.as_str(),
            other.inputs_digest.as_str(),
        ) && same(self.prompt_digest.as_str(), other.prompt_digest.as_str()) && same(
            self.model_digest.as_str(),
            other.model_digest.as_str(),
        ) && same(self.tool_catalog_digest.as_str(), other.tool_catalog_digest.as_str()) && same(
            self.policy_evidence_digest.as_str(),
            other.policy_evidence_digest.as_str(),
        ) && same(
            self.retained_evidence_digest.as_str(),
            other.retained_evidence_digest.as_str(),
        )
    }
}

impl ReplayStepEvidence {
    /// The same step again.
    pub fn duplicate(&self) -> (r: ReplayStepEvidence)
        ensures
            r == *self,
    {
        ReplayStepEvidence {
            kind: self.kind,
            name: self.name.clone(),
            content_digest: self.content_digest.clone(),
        }
    }
}

impl ReplayTerminalEvidence {
    /// The same evidence again.
    pub fn duplicate(&self) -> (r: ReplayTerminalEvidence)
        ensures
            r == *self,
    {
        ReplayTerminalEvidence {
            success: self.success,
            termination: self.termination.clone(),
            summary_digest: self.summary_digest.clone(),
        }
    }

    /// Whether two runs ended alike.
    pub fn agree(&self, other: &ReplayTerminalEvidence) -> (r: bool)
        ensures
            r == (self@ == other@),
    {
        self.success == other.success && same(
            self.termination.as_str(),
            other.termination.as_str(),
        ) && same(self.summary_digest.as_str(), other.summary_digest.as_str())
    }
}

fn duplicate_steps(v: &Vec<ReplayStepEvidence>) -> (r: Vec<ReplayStepEvidence>)
    ensures
        r@ == v@,
{
    let mut r: Vec<ReplayStepEvidence> = Vec::new();
    let mut i: usize = 0;
    while i < v.len()
        invariant
            i <= v@.len(),
            r@ == v@.take(i as int),
        decreases v@.len() - i,
    {
        r.push(v[i].duplicate());
        i = i + 1;
        assert(v@.take(i as int) =~= v@.take(i - 1).push(v@[i - 1]));
    }
    assert(v@.take(v@.len() as int) =~= v@);
    r
}

pub(crate) fn duplicate_option(o: &Option<String>) -> (r: Option<String>)
    ensures
        opt_view(r) == opt_view(*o),
{
    match o {
        Some(s) => Some(s.clone()),
        None => None,
    }
}

// ---------------------------------------------------------------------------
// Canonical texts
// ---------------------------------------------------------------------------

/// The canonical text of bindings.
pub open spec fn bindings_text(b: BindingsView) -> Seq<char> {
    "{\"task_digest\":"@ + json_quoted(b.task_digest) + ",\"inputs_digest\":"@ + json_quoted(
        b.inputs_digest,
    ) + ",\"prompt_digest\":"@ + json_quoted(b.prompt_digest) + ",\"model_digest\":"@ + json_quoted(
        b.model_digest,
    ) + ",\"tool_catalog_digest\":"@ + json_quoted(b.tool_catalog_digest)
        + ",\"policy_evidence_digest\":"@ + json_quoted(b.policy_evidence_digest)
        + ",\"retained_evidence_digest\":"@ + json_quoted(b.retained_evidence_digest) + "}"@
}

/// The canonical text of a step. An empty name is left out.
pub open spec fn step_text(s: StepView) -> Seq<char> {
    (match s.kind {
        ReplayStepKind::Model => "{\"kind\":\"model\""@,
        ReplayStepKind::Tool => "{\"kind\":\"tool\""@,
    }) + (if s.name.len() == 0 {
        Seq::empty()
    } else {
        ",\"name\":"@ + json_quoted(s.name)
    }) + ",\"content_digest\":"@ + json_quoted(s.content_digest) + "}"@
}

pub open spec fn step_texts(v: Seq<StepView>) -> Seq<Seq<char>> {
    Seq::new(v.len(), |i: int| step_text(v[i]))
}

/// The canonical text of terminal evidence.
pub open spec fn terminal_text(t: TerminalView) -> Seq<char> {
    "{\"success\":"@ + bool_text(t.success) + ",\"termination\":"@ + json_quoted(t.termination)
        + ",\"summary_digest\":"@ + json_quoted(t.summary_digest) + "}"@
}

/// The canonical text of evidence. A missing operation id is left out.
pub open spec fn evidence_text(e: EvidenceView) -> Seq<char> {
    "{\"schema_version\":"@ + decimal(e.schema_version as nat) + ",\"source_run_id\":"@
        + json_quoted(e.source_run_id) + (match e.source_logical_operation_id {
        Some(id) => ",\"source_logical_operation_id\":"@ + json_quoted(id),
        None => Seq::empty(),
    }) + ",\"task\":"@ + json_quoted(e.task) + ",\"bindings\":"@ + bindings_text(e.bindings)
        + ",\"expected_steps\":"@ + list_text(step_texts(e.expected_steps))
        + ",\"expected_terminal\":"@ + terminal_text(e.expected_terminal) + "}"@
}

/// The canonical text of a manifest.
pub open spec fn manifest_text(m: ManifestView) -> Seq<char> {
    "{\"schema_version\":"@ + decimal(m.schema_version as nat) + ",\"evidence_digest\":"@
        + json_quoted(m.evidence_digest) + ",\"bindings\":"@ + bindings_text(m.bindings) + "}"@
}

/// The labelled digest of a canonical text.
pub open spec fn canonical_digest(text: Seq<char>) -> Seq<char> {
    sha256_label(encode_utf8(text))
}

fn write_bindings(b: &ReplayBindings) -> (s: String)
    ensures
        s@ == bindings_text(b@),
{
    let mut s = "{\"task_digest\":".to_owned();
    push_quoted(&mut s, b.task_digest.as_str());
    s.append(",\"inputs_digest\":");
    push_quoted(&mut s, b.inputs_digest.as_str());
    s.append(",\"prompt_digest\":");
    push_quoted(&mut s, b.prompt_digest.as_str());
    s.append(",\"model_digest\":");
    push_quoted(&mut s, b.model_digest.as_str());
    s.append(",\"tool_catalog_digest\":");
    push_quoted(&mut s, b.tool_catalog_digest.as_str());
    s.append(",\"policy_evidence_digest\":");
    push_quoted(&mut s, b.policy_evidence_digest.as_str());
    s.append(",\"retained_evidence_digest\":");
    push_quoted(&mut s, b.retained_evidence_digest.as_str());
    s.append("}");
    s
}

fn write_step(step: &ReplayStepEvidence) -> (s: String)
    ensures
        s@ == step_text(step@),
{
    let mut s = match step.kind {
        ReplayStepKind::Model => "{\"kind\":\"model\"".to_owned(),
        ReplayStepKind::Tool => "{\"kind\":\"tool\"".to_owned(),
    };
    let ghost head = s@;
    if !step.name.as_str().is_empty() {
        s.append(",\"name\":");
        push_quoted(&mut s, step.name.as_str());
        assert(s@ =~= head + (",\"name\":"@ + json_quoted(step.name@)));
    } else {
        assert(s@ =~= head + Seq::<char>::empty());
    }
    s.append(",\"content_digest\":");
    push_quoted(&mut s, step.content_digest.as_str());
    s.append("}");
    s
}

fn write_steps(steps: &Vec<ReplayStepEvidence>) -> (s: String)
    ensures
        s@ == list_text(step_texts(step_views(steps@))),
{
    let ghost all = step_texts(step_views(steps@));
    let mut parts: Vec<String> = Vec::new();
    let mut i: usize = 0;
    while i < steps.len()
        invariant
            i <= steps@.len(),
            all == step_texts(step_views(steps@)),
            texts(parts@) =~= all.take(i as int),
        decreases steps@.len() - i,
    {
        let part = write_step(&steps[i]);
        let ghost before = parts@;
        parts.push(part);
        i = i + 1;
        assert(texts(parts@) =~= texts(before).push(part@));
        assert(all.take(i as int) =~= all.take(i - 1).push(all[i - 1]));
    }
    assert(all.take(all.len() as int) =~= all);
    list_of(&parts)
}

fn write_terminal(t: &ReplayTerminalEvidence) -> (s: String)
    ensures
        s@ == terminal_text(t@),
{
    let mut s = "{\"success\":".to_owned();
    push_bool(&mut s, t.success);
    s.append(",\"termination\":");
    push_quoted(&mut s, t.termination.as_str());
    s.append(",\"summary_digest\":");
    push_quoted(&mut s, t.summary_digest.as_str());
    s.append("}");
    s
}

impl ReplayEvidenceBundle {
    /// The canonical text of the evidence: the bytes that a manifest binds.
    pub fn canonical_json(&self) -> (s: String)
        ensures
            s@ == evidence_text(self@),
    {
        let mut s = "{\"schema_version\":".to_owned();
        push_number(&mut s, self.schema_version as u64);
        s.append(",\"source_run_id\":");
        push_quoted(&mut s, self.source_run_id.as_str());
        let ghost head = s@;
        match &self.source_logical_operation_id {
            Some(id) => {
                s.append(",\"source_logical_operation_id\":");
                push_quoted(&mut s, id.as_str());
                assert(s@ =~= head + (",\"source_logical_operation_id\":"@ + json_quoted(id@)));
            },
            None => {
                assert(s@ =~= head + Seq::<char>::empty());
            },
        }
        let bindings = write_bindings(&self.bindings);
        let steps = write_steps(&self.expected_steps);
        let terminal = write_terminal(&self.expected_terminal);
        s.append(",\"task\":");
        push_quoted(&mut s, self.task.as_str());
        s.append(",\"bindings\":");
        s.append(bindings.as_str());
        s.append(",\"expected_steps\":");
        s.append(steps.as_str());
        s.append(",\"expected_terminal\":");
        s.append(terminal.as_str());
        s.append("}");
        s
    }
}

impl ReplayManifest {
    /// The canonical text of the manifest.
    pub fn canonical_json(&self) -> (s: String)
        ensures
            s@ == manifest_text(self@),
    {
        let bindings = write_bindings(&self.bindings);
        let mut s = "{\"schema_version\":".to_owned();
        push_number(&mut s, self.schema_version as u64);
        s.append(",\"evidence_digest\":");
        push_quoted(&mut s, self.evidence_digest.as_str());
        s.append(",\"bindings\":");
        s.append(bindings.as_str());
        s.append("}");
        s
    }
}

// ---------------------------------------------------------------------------
// Digests
// ---------------------------------------------------------------------------

/// The digest of a text, whatever its line ends are.
pub open spec fn text_digest_of(text: Seq<char>) -> Seq<char> {
    sha256_label(encode_utf8(unix_lines(text)))
}

/// The digest of a text, whatever its line ends are. It is a valid digest.
pub fn text_digest(text: &str) -> (s: String)
    ensures
        s@ == text_digest_of(text@),
        valid_digest(s@),
{
    let normalized = to_unix_lines(text);
    let s = text_label(normalized.as_str());
    proof {
        labels_are_valid(s@);
    }
    s
}

/// The labelled digest of bytes. It is a valid digest.
pub fn digest_bytes(bytes: &[u8]) -> (s: String)
    ensures
        s@ == sha256_label(bytes@),
        valid_digest(s@),
{
    let s = digest_label(bytes);
    proof {
        labels_are_valid(s@);
    }
    s
}

/// An ASCII hexadecimal digit of either case.
pub open spec fn hex_digit(c: char) -> bool {
    ('0' <= c && c <= '9') || ('a' <= c && c <= 'f') || ('A' <= c && c <= 'F')
}

/// Whether a text is `sha256:` plus 64 hexadecimal characters.
pub open spec fn valid_digest(s: Seq<char>) -> bool {
    &&& s.len() == 71
    &&& starts(s, "sha256:"@)
    &&& forall|i: int| 7 <= i < 71 ==> hex_digit(#[trigger] s[i])
}

proof fn labels_are_valid(s: Seq<char>)
    requires
        is_digest(s),
    ensures
        valid_digest(s),
{
    reveal_strlit("sha256:");
    assert forall|i: int| 7 <= i < 71 implies hex_digit(#[trigger] s[i]) by {
        assert(is_hex(s[i]));
    }
}

fn is_valid_digest(s: &str) -> (r: bool)
    ensures
        r == valid_digest(s@),
{
    let v = chars_of(s);
    if v.len() != 71 || !starts_with(s, "sha256:") {
        return false;
    }
    let mut i: usize = 7;
    while i < 71
        invariant
            v@ == s@,
            v@.len() == 71,
            7 <= i <= 71,
            forall|j: int| 7 <= j < i ==> hex_digit(#[trigger] v@[j]),
        decreases 71 - i,
    {
        let c = v[i];
        if !(('0' <= c && c <= '9') || ('a' <= c && c <= 'f') || ('A' <= c && c <= 'F')) {
            assert(!hex_digit(v@[i as int]));
            return false;
        }
        i = i + 1;
    }
    true
}

/// The refusal of a digest.
pub open spec fn digest_fault(name: Seq<char>, digest: Seq<char>) -> Option<Seq<char>> {
    if valid_digest(digest) {
        None
    } else {
        Some(name + " digest must be `sha256:` plus 64 hexadecimal characters"@)
    }
}

/// Whether a result is `Ok` exactly when there is no fault, and else the fault.
pub open spec fn told(r: Result<(), ReplayError>, fault: Option<Seq<char>>) -> bool {
    match fault {
        None => r is Ok,
        Some(m) => r matches Err(ReplayError::Invalid(t)) && t@ == m,
    }
}

/// Refuses a digest that is not `sha256:` plus 64 hexadecimal characters.
pub fn validate_digest(name: &str, digest: &str) -> (r: Result<(), ReplayError>)
    ensures
        told(r, digest_fault(name@, digest@)),
{
    if is_valid_digest(digest) {
        Ok(())
    } else {
        let mut m = name.to_owned();
        m.append(" digest must be `sha256:` plus 64 hexadecimal characters");
        Err(ReplayError::Invalid(m))
    }
}

/// The first of two faults.
pub open spec fn first_fault(a: Option<Seq<char>>, b: Option<Seq<char>>) -> Option<Seq<char>> {
    match a {
        Some(m) => Some(m),
        None => b,
    }
}

/// The first fault of bindings, in the order of the fields.
pub open spec fn bindings_fault(b: BindingsView) -> Option<Seq<char>> {
    first_fault(
        digest_fault("task"@, b.task_digest),
        first_fault(
            digest_fault("inputs"@, b.inputs_digest),
            first_fault(
                digest_fault("prompt"@, b.prompt_digest),
                first_fault(
                    digest_fault("model"@, b.model_digest),
                    first_fault(
                        digest_fault("tool catalog"@, b.tool_catalog_digest),
                        first_fault(
                            digest_fault("policy evidence"@, b.policy_evidence_digest),
                            digest_fault("retained evidence"@, b.retained_evidence_digest),
                        ),
                    ),
                ),
            ),
        ),
    )
}

/// Refuses bindings with a digest that is none.
pub fn validate_bindings(b: &ReplayBindings) -> (r: Result<(), ReplayError>)
    ensures
        told(r, bindings_fault(b@)),
{
    match validate_digest("task", b.task_digest.as_str()) {
        Err(e) => return Err(e),
        Ok(_) => {},
    }
    match validate_digest("inputs", b.inputs_digest.as_str()) {
        Err(e) => return Err(e),
        Ok(_) => {},
    }
    match validate_digest("prompt", b.prompt_digest.as_str()) {
        Err(e) => return Err(e),
        Ok(_) => {},
    }
    match validate_digest("model", b.model_digest.as_str()) {
        Err(e) => return Err(e),
        Ok(_) => {},
    }
    match validate_digest("tool catalog", b.tool_catalog_digest.as_str()) {
        Err(e) => return Err(e),
        Ok(_) => {},
    }
    match validate_digest("policy evidence", b.policy_evidence_digest.as_str()) {
        Err(e) => return Err(e),
        Ok(_) => {},
    }
    validate_digest("retained evidence", b.retained_evidence_digest.as_str())
}

// ---------------------------------------------------------------------------
// Validation and admission
// ---------------------------------------------------------------------------

/// The fault of one step.
pub open spec fn step_fault(s: StepView) -> Option<Seq<char>> {
    first_fault(
        digest_fault("step content"@, s.content_digest),
        if byte_len(s.name) > 256 {
            Some("step name exceeds 256 bytes"@)
        } else if leaks(s.name) {
            Some("evidence bundle contains credential-shaped material"@)
        } else {
            None
        },
    )
}

/// The first fault among the steps from `i` on.
pub open spec fn steps_fault(v: Seq<StepView>, i: int) -> Option<Seq<char>>
    decreases v.len() - i,
{
    if i < 0 || i >= v.len() {
        None
    } else {
        first_fault(step_fault(v[i]), steps_fault(v, i + 1))
    }
}

/// The first fault of evidence; valid evidence has none.
pub open spec fn evidence_fault(e: EvidenceView) -> Option<Seq<char>> {
    if e.schema_version != REPLAY_SCHEMA_VERSION {
        Some(
            "unsupported evidence schema version "@ + decimal(e.schema_version as nat)
                + "; expected "@ + decimal(REPLAY_SCHEMA_VERSION as nat),
        )
    } else if !safe_run_id(e.source_run_id) {
        Some("source_run_id must be a non-empty opaque ASCII identifier"@)
    } else if e.task.len() == 0 || byte_len(e.task) > MAX_REPLAY_TASK_BYTES {
        Some("task must be 1..=262144 bytes"@)
    } else if leaks(e.source_run_id) || (e.source_logical_operation_id is Some && leaks(
        e.source_logical_operation_id->0,
    )) || leaks(e.task) {
        Some("evidence bundle contains credential-shaped material"@)
    } else if e.expected_steps.len() > MAX_REPLAY_STEPS {
        Some("expected_steps exceeds 1024"@)
    } else {
        first_fault(
            bindings_fault(e.bindings),
            first_fault(
                steps_fault(e.expected_steps, 0),
                first_fault(
                    digest_fault("terminal summary"@, e.expected_terminal.summary_digest),
                    if byte_len(evidence_text(e)) > MAX_REPLAY_BUNDLE_BYTES {
                        Some("evidence bundle exceeds 1048576 bytes"@)
                    } else {
                        None
                    },
                ),
            ),
        )
    }
}

fn invalid(m: &str) -> (r: Result<(), ReplayError>)
    ensures
        told(r, Some(m@)),
{
    Err(ReplayError::Invalid(m.to_owned()))
}

fn validate_steps(steps: &Vec<ReplayStepEvidence>) -> (r: Result<(), ReplayError>)
    ensures
        told(r, steps_fault(step_views(steps@), 0)),
{
    let ghost v = step_views(steps@);
    let mut i: usize = 0;
    while i < steps.len()
        invariant
            i <= steps@.len(),
            v == step_views(steps@),
            steps_fault(v, 0) == steps_fault(v, i as int),
        decreases steps@.len() - i,
    {
        let step = &steps[i];
        match validate_digest("step content", step.content_digest.as_str()) {
            Err(e) => {
                return Err(e);
            },
            Ok(_) => {},
        }
        if longer_than(step.name.as_str(), 256) {
            return invalid("step name exceeds 256 bytes");
        }
        if contains_credential_material(step.name.as_str()) {
            return invalid("evidence bundle contains credential-shaped material");
        }
        i = i + 1;
    }
    Ok(())
}

impl ReplayEvidenceBundle {
    /// Refuses evidence of another version, without a safe source, outside its
    /// size bounds, with credential material or with a digest that is none.
    pub fn validate(&self) -> (r: Result<(), ReplayError>)
        ensures
            told(r, evidence_fault(self@)),
    {
        if self.schema_version != REPLAY_SCHEMA_VERSION {
            let mut m = "unsupported evidence schema version ".to_owned();
            push_number(&mut m, self.schema_version as u64);
            m.append("; expected ");
            push_number(&mut m, REPLAY_SCHEMA_VERSION as u64);
            return Err(ReplayError::Invalid(m));
        }
        if !is_safe_run_id(self.source_run_id.as_str()) {
            return invalid("source_run_id must be a non-empty opaque ASCII identifier");
        }
        if self.task.as_str().is_empty() || longer_than(
            self.task.as_str(),
            MAX_REPLAY_TASK_BYTES,
        ) {
            return invalid("task must be 1..=262144 bytes");
        }
        let operation_leaks = match &self.source_logical_operation_id {
            Some(id) => contains_credential_material(id.as_str()),
            None => false,
        };
        if contains_credential_material(self.source_run_id.as_str()) || operation_leaks
            || contains_credential_material(self.task.as_str()) {
            return invalid("evidence bundle contains credential-shaped material");
        }
        if self.expected_steps.len() > MAX_REPLAY_STEPS {
            return invalid("expected_steps exceeds 1024");
        }
        match validate_bindings(&self.bindings) {
            Err(e) => return Err(e),
            Ok(_) => {},
        }
        match validate_steps(&self.expected_steps) {
            Err(e) => return Err(e),
            Ok(_) => {},
        }
        match validate_digest("terminal summary", self.expected_terminal.summary_digest.as_str()) {
            Err(e) => return Err(e),
            Ok(_) => {},
        }
        let encoded = self.canonical_json();
        if longer_than(encoded.as_str(), MAX_REPLAY_BUNDLE_BYTES) {
            return invalid("evidence bundle exceeds 1048576 bytes");
        }
        Ok(())
    }
}

/// The manifest of evidence.
pub open spec fn manifest_of(e: EvidenceView) -> ManifestView {
    ManifestView {
        schema_version: REPLAY_SCHEMA_VERSION,
        evidence_digest: canonical_digest(evidence_text(e)),
        bindings: e.bindings,
    }
}

/// The first fault of a manifest with its evidence; an admitted pair has none.
pub open spec fn admission_fault(m: ManifestView, e: EvidenceView) -> Option<Seq<char>> {
    if m.schema_version != REPLAY_SCHEMA_VERSION {
        Some(
            "unsupported manifest schema version "@ + decimal(m.schema_version as nat)
                + "; expected "@ + decimal(REPLAY_SCHEMA_VERSION as nat),
        )
    } else {
        first_fault(
            evidence_fault(e),
            first_fault(
                digest_fault("evidence"@, m.evidence_digest),
                first_fault(
                    bindings_fault(m.bindings),
                    if m.bindings != e.bindings {
                        Some("manifest bindings do not match the evidence bundle"@)
                    } else if m.evidence_digest != canonical_digest(evidence_text(e)) {
                        Some("evidence bundle digest does not match the manifest"@)
                    } else {
                        None
                    },
                ),
            ),
        )
    }
}

impl ReplayManifest {
    /// The manifest of valid evidence. The evidence is then admitted under it.
    pub fn for_evidence(evidence: &ReplayEvidenceBundle) -> (r: Result<Self, ReplayError>)
        ensures
            match evidence_fault(evidence@) {
                None => r matches Ok(m) && m@ == manifest_of(evidence@) && admission_fault(
                    m@,
                    evidence@,
                ) is None,
                Some(t) => r matches Err(ReplayError::Invalid(m)) && m@ == t,
            },
    {
        match evidence.validate() {
            Err(e) => Err(e),
            Ok(_) => {
                let text = evidence.canonical_json();
                let digest = digest_bytes(text.as_str().as_bytes());
                let m = ReplayManifest {
                    schema_version: REPLAY_SCHEMA_VERSION,
                    evidence_digest: digest,
                    bindings: evidence.bindings.duplicate(),
                };
                assert(m@ =~= manifest_of(evidence@));
                Ok(m)
            },
        }
    }
}

/// A replay that a host asks for.
#[derive(Debug, Clone)]
pub struct ReplayRequest {
    pub manifest: ReplayManifest,
    pub evidence: ReplayEvidenceBundle,
    pub keep_workspace: bool,
    /// Restart a previously admitted replay attempt, never the source run.
    pub resume_run_id: Option<String>,
}

/// What an admitted replay is run and compared with.
#[derive(Debug, Clone)]
pub struct ReplayExecution {
    pub manifest_digest: String,
    pub source_run_id: String,
    pub logical_operation_id: Option<String>,
    pub bindings: ReplayBindings,
    pub expected_steps: Vec<ReplayStepEvidence>,
    pub expected_terminal: ReplayTerminalEvidence,
}

impl ReplayRequest {
    /// A request that keeps its workspace: replay workspaces are comparative
    /// evidence.
    pub fn new(manifest: ReplayManifest, evidence: ReplayEvidenceBundle) -> (r: Self)
        ensures
            r == (ReplayRequest { manifest, evidence, keep_workspace: true, resume_run_id: None }),
    {
        ReplayRequest { manifest, evidence, keep_workspace: true, resume_run_id: None }
    }

    /// Admits evidence under its manifest: both valid, and bound to each other
    /// digest by digest and byte by byte.
    pub fn admitted(&self) -> (r: Result<ReplayExecution, ReplayError>)
        ensures
            match admission_fault(self.manifest@, self.evidence@) {
                Some(t) => r matches Err(ReplayError::Invalid(m)) && m@ == t,
                None => r matches Ok(x) && x.manifest_digest@ == canonical_digest(
                    manifest_text(self.manifest@),
                ) && x.source_run_id@ == self.evidence.source_run_id@ && opt_view(
                    x.logical_operation_id,
                ) == opt_view(self.evidence.source_logical_operation_id) && x.bindings@
                    == self.manifest.bindings@ && x.expected_steps@
                    == self.evidence.expected_steps@ && x.expected_terminal@
                    == self.evidence.expected_terminal@,
            },
    {
        if self.manifest.schema_version != REPLAY_SCHEMA_VERSION {
            let mut m = "unsupported manifest schema version ".to_owned();
            push_number(&mut m, self.manifest.schema_version as u64);
            m.append("; expected ");
            push_number(&mut m, REPLAY_SCHEMA_VERSION as u64);
            return Err(ReplayError::Invalid(m));
        }
        match self.evidence.validate() {
            Err(e) => return Err(e),
            Ok(_) => {},
        }
        match validate_digest("evidence", self.manifest.evidence_digest.as_str()) {
            Err(e) => return Err(e),
            Ok(_) => {},
        }
        match validate_bindings(&self.manifest.bindings) {
            Err(e) => return Err(e),
            Ok(_) => {},
        }
        if !self.manifest.bindings.agree(&self.evidence.bindings) {
            return Err(
                ReplayError::Invalid(
                    "manifest bindings do not match the evidence bundle".to_owned(),
                ),
            );
        }
        let text = self.evidence.canonical_json();
        let actual = digest_bytes(text.as_str().as_bytes());
        if !same(self.manifest.evidence_digest.as_str(), actual.as_str()) {
            return Err(
                ReplayError::Invalid(
                    "evidence bundle digest does not match the manifest".to_owned(),
                ),
            );
        }
        let manifest = self.manifest.canonical_json();
        Ok(
            ReplayExecution {
                manifest_digest: digest_bytes(manifest.as_str().as_bytes()),
                source_run_id: self.evidence.source_run_id.clone(),
                logical_operation_id: duplicate_option(&self.evidence.source_logical_operation_id),
                bindings: self.manifest.bindings.duplicate(),
                expected_steps: duplicate_steps(&self.evidence.expected_steps),
                expected_terminal: self.evidence.expected_terminal.duplicate(),
            },
        )
    }
}

/// A manifest whose bindings differ from those of the evidence in any digest is
/// refused, whatever else it holds.
pub proof fn changed_binding_is_refused(m: ManifestView, e: EvidenceView)
    requires
        m.bindings != e.bindings,
    ensures
        admission_fault(m, e) is Some,
{
}

/// Evidence whose canonical bytes have another digest than the manifest names is
/// refused.
pub proof fn changed_evidence_is_refused(m: ManifestView, e: EvidenceView)
    requires
        m.evidence_digest != canonical_digest(evidence_text(e)),
    ensures
        admission_fault(m, e) is Some,
{
}

// ---------------------------------------------------------------------------
// Steps
// ---------------------------------------------------------------------------

/// What a call's arguments count as: the JSON value, or the text where they are
/// no JSON.
pub open spec fn arguments_text(args: Seq<char>) -> Seq<char> {
    match json_reading(args) {
        Ok(v) => json_writing(v),
        Err(_) => json_writing(JsonModel::Text(args)),
    }
}

/// A call as it counts for a comparison: its name and arguments, not its id.
pub open spec fn normalized_call(c: ToolCallView) -> Seq<char> {
    "["@ + json_quoted(c.name) + ","@ + arguments_text(c.args_json) + "]"@
}

pub open spec fn normalized_calls(v: Seq<ToolCallView>) -> Seq<Seq<char>> {
    Seq::new(v.len(), |i: int| normalized_call(v[i]))
}

/// The canonical text of an assistant message.
pub open spec fn turn_text(m: ChatMessageView) -> Seq<char> {
    "["@ + json_quoted(m.content) + ","@ + list_text(normalized_calls(m.tool_calls)) + "]"@
}

/// The name of the last call with the id among the first `n`.
pub open spec fn last_named(calls: Seq<ToolCallView>, id: Seq<char>, n: int) -> Option<Seq<char>>
    decreases n,
{
    if n <= 0 || n > calls.len() {
        None
    } else if calls[n - 1].id == id {
        Some(calls[n - 1].name)
    } else {
        last_named(calls, id, n - 1)
    }
}

/// The name of the last assistant call with the id among the first `n` messages.
pub open spec fn tool_name(m: Seq<ChatMessageView>, id: Seq<char>, n: int) -> Option<Seq<char>>
    decreases n,
{
    if n <= 0 || n > m.len() {
        None
    } else if m[n - 1].role == "assistant"@ && last_named(
        m[n - 1].tool_calls,
        id,
        m[n - 1].tool_calls.len() as int,
    ) is Some {
        last_named(m[n - 1].tool_calls, id, m[n - 1].tool_calls.len() as int)
    } else {
        tool_name(m, id, n - 1)
    }
}

/// The step of the message at index `i`, if it is one.
pub open spec fn step_of(m: Seq<ChatMessageView>, i: int) -> Option<StepView> {
    if m[i].role == "assistant"@ {
        Some(
            StepView {
                kind: ReplayStepKind::Model,
                name: Seq::empty(),
                content_digest: canonical_digest(turn_text(m[i])),
            },
        )
    } else if m[i].role == "tool"@ {
        Some(
            StepView {
                kind: ReplayStepKind::Tool,
                name: match tool_name(m, m[i].tool_call_id, i) {
                    Some(n) => n,
                    None => "unknown"@,
                },
                content_digest: text_digest_of(m[i].content),
            },
        )
    } else {
        None
    }
}

/// The steps of the first `n` messages, in order.
pub open spec fn steps_of(m: Seq<ChatMessageView>, n: int) -> Seq<StepView>
    decreases n,
{
    if n <= 0 || n > m.len() {
        Seq::empty()
    } else {
        match step_of(m, n - 1) {
            Some(s) => steps_of(m, n - 1).push(s),
            None => steps_of(m, n - 1),
        }
    }
}

fn normalize_call(c: &ToolCall) -> (s: String)
    ensures
        s@ == normalized_call(c@),
{
    let arguments = match read_json(c.args_json.as_str()) {
        Ok(v) => write_json(&v),
        Err(_) => {
            let v = Json::string(c.args_json.as_str());
            write_json(&v)
        },
    };
    let mut s = "[".to_owned();
    push_quoted(&mut s, c.name.as_str());
    s.append(",");
    s.append(arguments.as_str());
    s.append("]");
    s
}

fn write_turn(m: &ChatMessage) -> (s: String)
    ensures
        s@ == turn_text(m@),
{
    let ghost all = normalized_calls(m@.tool_calls);
    let mut parts: Vec<String> = Vec::new();
    let mut i: usize = 0;
    while i < m.tool_calls.len()
        invariant
            i <= m.tool_calls@.len(),
            all == normalized_calls(m@.tool_calls),
            texts(parts@) =~= all.take(i as int),
        decreases m.tool_calls@.len() - i,
    {
        let part = normalize_call(&m.tool_calls[i]);
        let ghost before = parts@;
        parts.push(part);
        i = i + 1;
        assert(texts(parts@) =~= texts(before).push(part@));
        assert(all.take(i as int) =~= all.take(i - 1).push(all[i - 1]));
    }
    assert(all.take(all.len() as int) =~= all);
    let calls = list_of(&parts);
    let mut s = "[".to_owned();
    push_quoted(&mut s, m.content.as_str());
    s.append(",");
    s.append(calls.as_str());
    s.append("]");
    s
}

fn find_named(calls: &Vec<ToolCall>, id: &str) -> (r: Option<String>)
    ensures
        opt_view(r) == last_named(call_views(calls@), id@, calls@.len() as int),
{
    let ghost v = call_views(calls@);
    let mut n: usize = calls.len();
    while n > 0
        invariant
            n <= calls@.len(),
            v == call_views(calls@),
            last_named(v, id@, calls@.len() as int) == last_named(v, id@, n as int),
        decreases n,
    {
        if same(calls[n - 1].id.as_str(), id) {
            return Some(calls[n - 1].name.clone());
        }
        n = n - 1;
    }
    None
}

fn find_tool_name(messages: &Vec<ChatMessage>, id: &str, upto: usize) -> (r: Option<String>)
    requires
        upto <= messages@.len(),
    ensures
        opt_view(r) == tool_name(message_views(messages@), id@, upto as int),
{
    let ghost m = message_views(messages@);
    let mut n: usize = upto;
    while n > 0
        invariant
            n <= upto <= messages@.len(),
            m == message_views(messages@),
            tool_name(m, id@, upto as int) == tool_name(m, id@, n as int),
        decreases n,
    {
        if same(messages[n - 1].role.as_str(), "assistant") {
            let found = find_named(&messages[n - 1].tool_calls, id);
            if found.is_some() {
                return found;
            }
        }
        n = n - 1;
    }
    None
}

/// The ordered, digest-only evidence of a conversation: one step for each
/// assistant and each tool message. Provider call ids do not enter it.
pub fn steps_from_messages(messages: &Vec<ChatMessage>) -> (r: Vec<ReplayStepEvidence>)
    ensures
        step_views(r@) == steps_of(message_views(messages@), messages@.len() as int),
{
    let ghost m = message_views(messages@);
    let mut out: Vec<ReplayStepEvidence> = Vec::new();
    let mut i: usize = 0;
    assert(step_views(out@) =~= steps_of(m, 0));
    while i < messages.len()
        invariant
            i <= messages@.len(),
            m == message_views(messages@),
            step_views(out@) == steps_of(m, i as int),
        decreases messages@.len() - i,
    {
        let message = &messages[i];
        assert(m[i as int] == message@);
        let ghost before = out@;
        if same(message.role.as_str(), "assistant") {
            let text = write_turn(message);
            let step = ReplayStepEvidence {
                kind: ReplayStepKind::Model,
                name: String::new(),
                content_digest: digest_bytes(text.as_str().as_bytes()),
            };
            out.push(step);
            assert(step@ =~= step_of(m, i as int)->0);
            assert(step_views(out@) =~= step_views(before).push(step@));
        } else if same(message.role.as_str(), "tool") {
            let name = match find_tool_name(messages, message.tool_call_id.as_str(), i) {
                Some(n) => n,
                None => "unknown".to_owned(),
            };
            let step = ReplayStepEvidence {
                kind: ReplayStepKind::Tool,
                name,
                content_digest: text_digest(message.content.as_str()),
            };
            out.push(step);
            assert(step@ =~= step_of(m, i as int)->0);
            assert(step_views(out@) =~= step_views(before).push(step@));
        }
        i = i + 1;
    }
    out
}

/// The step of an assistant message depends on its content and on the names and
/// arguments of its calls, but not on the ids that the provider gave them.
pub proof fn model_step_ignores_call_ids(
    m: Seq<ChatMessageView>,
    w: Seq<ChatMessageView>,
    i: int,
)
    requires
        0 <= i < m.len(),
        0 <= i < w.len(),
        m[i].role == "assistant"@,
        w[i].role == "assistant"@,
        m[i].content == w[i].content,
        m[i].tool_calls.len() == w[i].tool_calls.len(),
        forall|k: int|
            0 <= k < m[i].tool_calls.len() ==> (#[trigger] m[i].tool_calls[k]).name
                == w[i].tool_calls[k].name && m[i].tool_calls[k].args_json
                == w[i].tool_calls[k].args_json,
    ensures
        step_of(m, i) == step_of(w, i),
{
    assert(normalized_calls(m[i].tool_calls) =~= normalized_calls(w[i].tool_calls));
}

// ---------------------------------------------------------------------------
// Comparison
// ---------------------------------------------------------------------------

/// How two steps at one position compare.
pub open spec fn status_of(
    expected: Option<StepView>,
    actual: Option<StepView>,
) -> ReplayComparisonStatus {
    match (expected, actual) {
        (Some(e), Some(a)) => if e == a {
            ReplayComparisonStatus::Equal
        } else if e.kind != a.kind || e.name != a.name {
            ReplayComparisonStatus::Unsupported
        } else {
            ReplayComparisonStatus::Changed
        },
        _ => ReplayComparisonStatus::Missing,
    }
}

/// The step at an index, if there is one.
pub open spec fn step_at(v: Seq<ReplayStepEvidence>, i: int) -> Option<ReplayStepEvidence> {
    if 0 <= i < v.len() {
        Some(v[i])
    } else {
        None
    }
}

pub open spec fn opt_step(o: Option<ReplayStepEvidence>) -> Option<StepView> {
    match o {
        Some(s) => Some(s@),
        None => None,
    }
}

/// Whether a comparison goes through two lists position by position, over the longer
/// one.
pub open spec fn compared(
    r: Seq<ReplayStepComparison>,
    expected: Seq<ReplayStepEvidence>,
    actual: Seq<ReplayStepEvidence>,
) -> bool {
    &&& r.len() == if expected.len() >= actual.len() {
        expected.len()
    } else {
        actual.len()
    }
    &&& forall|i: int|
        0 <= i < r.len() ==> (#[trigger] r[i]).index == i && r[i].expected == step_at(expected, i)
            && r[i].actual == step_at(actual, i) && r[i].status == status_of(
            opt_step(step_at(expected, i)),
            opt_step(step_at(actual, i)),
        )
}

/// Compares two ordered step lists position by position, over the longer one.
pub fn compare_steps(
    expected: &Vec<ReplayStepEvidence>,
    actual: &Vec<ReplayStepEvidence>,
) -> (r: Vec<ReplayStepComparison>)
    ensures
        compared(r@, expected@, actual@),
{
    let count: usize = if expected.len() >= actual.len() {
        expected.len()
    } else {
        actual.len()
    };
    let mut out: Vec<ReplayStepComparison> = Vec::new();
    let mut i: usize = 0;
    while i < count
        invariant
            i <= count,
            count == if expected@.len() >= actual@.len() {
                expected@.len()
            } else {
                actual@.len()
            },
            out@.len() == i,
            forall|k: int|
                0 <= k < i ==> (#[trigger] out@[k]).index == k && out@[k].expected == step_at(
                    expected@,
                    k,
                ) && out@[k].actual == step_at(actual@, k) && out@[k].status == status_of(
                    opt_step(step_at(expected@, k)),
                    opt_step(step_at(actual@, k)),
                ),
        decreases count - i,
    {
        let e: Option<ReplayStepEvidence> = if i < expected.len() {
            Some(expected[i].duplicate())
        } else {
            None
        };
        let a: Option<ReplayStepEvidence> = if i < actual.len() {
            Some(actual[i].duplicate())
        } else {
            None
        };
        let status = match (&e, &a) {
            (Some(x), Some(y)) => {
                let alike = x.kind == y.kind && same(x.name.as_str(), y.name.as_str());
                if !alike {
                    ReplayComparisonStatus::Unsupported
                } else if same(x.content_digest.as_str(), y.content_digest.as_str()) {
                    assert(x@ =~= y@);
                    ReplayComparisonStatus::Equal
                } else {
                    ReplayComparisonStatus::Changed
                }
            },
            _ => ReplayComparisonStatus::Missing,
        };
        out.push(ReplayStepComparison { index: i, status, expected: e, actual: a });
        i = i + 1;
    }
    out
}

/// Two runs are equal in every step if and only if their steps are the same.
pub proof fn same_steps_are_equal(
    r: Seq<ReplayStepComparison>,
    expected: Seq<ReplayStepEvidence>,
    actual: Seq<ReplayStepEvidence>,
)
    requires
        compared(r, expected, actual),
    ensures
        step_views(expected) == step_views(actual) <==> forall|i: int|
            0 <= i < r.len() ==> (#[trigger] r[i]).status == ReplayComparisonStatus::Equal,
{
    if step_views(expected) == step_views(actual) {
        assert(step_views(expected).len() == step_views(actual).len());
        assert forall|i: int| 0 <= i < r.len() implies (#[trigger] r[i]).status
            == ReplayComparisonStatus::Equal by {
            assert(step_views(expected)[i] == step_views(actual)[i]);
        }
    }
    if forall|i: int| 0 <= i < r.len() ==> (#[trigger] r[i]).status == ReplayComparisonStatus::Equal {
        assert(expected.len() == actual.len()) by {
            if expected.len() != actual.len() {
                let last = r.len() - 1;
                assert(r[last].status == ReplayComparisonStatus::Missing);
            }
        }
        assert forall|i: int| 0 <= i < expected.len() implies step_views(expected)[i]
            == step_views(actual)[i] by {
            assert(r[i].status == ReplayComparisonStatus::Equal);
        }
        assert(step_views(expected) =~= step_views(actual));
    }
}

/// What a replay came to.
#[derive(Debug, Clone)]
pub struct ReplayResult {
    pub run: RunResult,
    pub manifest_digest: String,
    pub steps: Vec<ReplayStepComparison>,
    pub terminal: ReplayTerminalComparison,
}

/// Credential-free projection of a replay.
#[derive(Debug, Clone, PartialEq, Eq)]
pub struct ReplayReport {
    pub schema_version: u32,
    pub run_id: String,
    pub success: bool,
    pub summary: String,
    pub turns: u32,
    pub workspace: String,
    pub termination: String,
    pub manifest_digest: String,
    pub steps: Vec<ReplayStepComparison>,
    pub terminal: ReplayTerminalComparison,
}

fn duplicate_comparison(c: &ReplayStepComparison) -> (r: ReplayStepComparison)
    ensures
        r == *c,
{
    ReplayStepComparison {
        index: c.index,
        status: c.status,
        expected: match &c.expected {
            Some(s) => Some(s.duplicate()),
            None => None,
        },
        actual: match &c.actual {
            Some(s) => Some(s.duplicate()),
            None => None,
        },
    }
}

impl ReplayResult {
    /// Credential-free projection of the replay.
    pub fn report(&self) -> (r: ReplayReport)
        ensures
            r.schema_version == REPLAY_REPORT_SCHEMA_VERSION,
            r.run_id == self.run.run_id,
            r.success == self.run.success,
            r.summary == self.run.summary,
            r.turns == self.run.turns,
            r.workspace == self.run.workspace,
            r.termination@ == self.run.termination.name(),
            r.manifest_digest == self.manifest_digest,
            r.steps@ == self.steps@,
            r.terminal == self.terminal,
    {
        let mut steps: Vec<ReplayStepComparison> = Vec::new();
        let mut i: usize = 0;
        while i < self.steps.len()
            invariant
                i <= self.steps@.len(),
                steps@ == self.steps@.take(i as int),
            decreases self.steps@.len() - i,
        {
            steps.push(duplicate_comparison(&self.steps[i]));
            i = i + 1;
            assert(self.steps@.take(i as int) =~= self.steps@.take(i - 1).push(self.steps@[i - 1]));
        }
        assert(self.steps@.take(self.steps@.len() as int) =~= self.steps@);
        ReplayReport {
            schema_version: REPLAY_REPORT_SCHEMA_VERSION,
            run_id: self.run.run_id.clone(),
            success: self.run.success,
            summary: self.run.summary.clone(),
            turns: self.run.turns,
            workspace: self.run.workspace.clone(),
            termination: self.run.termination.as_str().to_owned(),
            manifest_digest: self.manifest_digest.clone(),
            steps,
            terminal: ReplayTerminalComparison {
                status: self.terminal.status,
                expected: self.terminal.expected.duplicate(),
                actual: self.terminal.actual.duplicate(),
            },
        }
    }
}

/// The evidence of how a run ended.
pub open spec fn terminal_of(run: RunResult) -> TerminalView {
    TerminalView {
        success: run.success,
        termination: run.termination.name(),
        summary_digest: text_digest_of(run.summary@),
    }
}

/// Compares a finished replay attempt with its evidence.
pub fn complete_replay(
    messages: &Vec<ChatMessage>,
    run: RunResult,
    execution: ReplayExecution,
) -> (r: ReplayResult)
    ensures
        r.run == run,
        r.manifest_digest == execution.manifest_digest,
        exists|actual: Seq<ReplayStepEvidence>|
            step_views(actual) == steps_of(message_views(messages@), messages@.len() as int)
                && #[trigger] compared(r.steps@, execution.expected_steps@, actual),
        r.terminal.expected == execution.expected_terminal,
        r.terminal.actual@ == terminal_of(run),
        r.terminal.status == if execution.expected_terminal@ == terminal_of(run) {
            ReplayComparisonStatus::Equal
        } else {
            ReplayComparisonStatus::Changed
        },
{
    let actual_steps = steps_from_messages(messages);
    let steps = compare_steps(&execution.expected_steps, &actual_steps);
    let actual = ReplayTerminalEvidence {
        success: run.success,
        termination: run.termination.as_str().to_owned(),
        summary_digest: text_digest(run.summary.as_str()),
    };
    assert(actual@ =~= terminal_of(run));
    let status = if execution.expected_terminal.agree(&actual) {
        ReplayComparisonStatus::Equal
    } else {
        ReplayComparisonStatus::Changed
    };
    let ghost found = actual_steps@;
    let ghost expected = execution.expected_steps@;
    assert(compared(steps@, expected, found));
    let result = ReplayResult {
        run,
        manifest_digest: execution.manifest_digest,
        steps,
        terminal: ReplayTerminalComparison {
            status,
            expected: execution.expected_terminal,
            actual,
        },
    };
    assert(compared(result.steps@, expected, found));
    result
}

/// A digest is the label and 64 hexadecimal digits behind it, and nothing else is one.
pub proof fn digest_is_a_label_and_its_digits(h: Seq<char>)
    ensures
        valid_digest("sha256:"@ + h) <==> h.len() == 64 && forall|i: int|
            0 <= i < h.len() ==> hex_digit(#[trigger] h[i]),
{
    reveal_strlit("sha256:");
    let s = "sha256:"@ + h;
    assert(s.subrange(0, 7) =~= "sha256:"@);
    if valid_digest(s) {
        assert forall|i: int| 0 <= i < h.len() implies hex_digit(#[trigger] h[i]) by {
            assert(s[i + 7] == h[i]);
        }
    }
    if h.len() == 64 && forall|i: int| 0 <= i < h.len() ==> hex_digit(#[trigger] h[i]) {
        assert forall|i: int| 7 <= i < 71 implies hex_digit(#[trigger] s[i]) by {
            assert(s[i] == h[i - 7]);
        }
    }
}

/// Bindings are sound just where each of the seven digests is one.
pub proof fn bindings_are_seven_digests(b: BindingsView)
    ensures
        bindings_fault(b) is None <==> valid_digest(b.task_digest) && valid_digest(b.inputs_digest)
            && valid_digest(b.prompt_digest) && valid_digest(b.model_digest) && valid_digest(
            b.tool_catalog_digest,
        ) && valid_digest(b.policy_evidence_digest) && valid_digest(b.retained_evidence_digest),
{
}

/// The steps are sound just where each has a digest and a name of at most 256 bytes that
/// holds no credential.
pub proof fn steps_are_sound_one_by_one(v: Seq<StepView>, i: int)
    requires
        0 <= i <= v.len(),
    ensures
        steps_fault(v, i) is None <==> forall|k: int|
            i <= k < v.len() ==> valid_digest((#[trigger] v[k]).content_digest) && byte_len(
                v[k].name,
            ) <= 256 && !leaks(v[k].name),
    decreases v.len() - i,
{
    if i < v.len() {
        steps_are_sound_one_by_one(v, i + 1);
        assert(step_fault(v[i]) is None <==> valid_digest(v[i].content_digest) && byte_len(
            v[i].name,
        ) <= 256 && !leaks(v[i].name));
    }
}

/// Evidence is accepted just where it is of this version, names its run, has a task within
/// its limit, holds no credential, and its bindings, steps and terminal are sound and within
/// their limits.
pub proof fn sound_evidence_is_accepted(e: EvidenceView)
    ensures
        evidence_fault(e) is None <==> e.schema_version == REPLAY_SCHEMA_VERSION && safe_run_id(
            e.source_run_id,
        ) && e.task.len() > 0 && byte_len(e.task) <= MAX_REPLAY_TASK_BYTES && !leaks(
            e.source_run_id,
        ) && (e.source_logical_operation_id is Some ==> !leaks(e.source_logical_operation_id->0))
            && !leaks(e.task) && e.expected_steps.len() <= MAX_REPLAY_STEPS && bindings_fault(
            e.bindings,
        ) is None && steps_fault(e.expected_steps, 0) is None && valid_digest(
            e.expected_terminal.summary_digest,
        ) && byte_len(evidence_text(e)) <= MAX_REPLAY_BUNDLE_BYTES,
{
}

/// A manifest admits evidence just where it is of this version, the evidence is sound, their
/// bindings are the same, and its digest is that of the evidence.
pub proof fn manifest_admits_its_evidence(m: ManifestView, e: EvidenceView)
    ensures
        admission_fault(m, e) is None <==> m.schema_version == REPLAY_SCHEMA_VERSION
            && evidence_fault(e) is None && m.bindings == e.bindings && m.evidence_digest
            == canonical_digest(evidence_text(e)) && valid_digest(m.evidence_digest),
{
}

/// Two steps compare as equal just where they are the same, as missing just where one of them
/// is not there, as not comparable just where kind or name differ, and else as changed.
pub proof fn comparison_has_one_status(expected: Option<StepView>, actual: Option<StepView>)
    ensures
        ({
            let s = status_of(expected, actual);
            let both = expected is Some && actual is Some;
            &&& s == ReplayComparisonStatus::Missing <==> !both
            &&& s == ReplayComparisonStatus::Equal <==> both && expected->0 == actual->0
            &&& s == ReplayComparisonStatus::Unsupported <==> both && (expected->0.kind
                != actual->0.kind || expected->0.name != actual->0.name)
            &&& s == ReplayComparisonStatus::Changed <==> both && expected->0 != actual->0
                && expected->0.kind == actual->0.kind && expected->0.name == actual->0.name
        }),
{
}

/// How the arguments of a call are written does not count: calls of one name whose arguments
/// read the same are the same step.
pub proof fn formatting_of_arguments_does_not_count(a: ToolCallView, b: ToolCallView)
    requires
        a.name == b.name,
        json_reading(a.args_json) is Ok,
        json_reading(a.args_json) == json_reading(b.args_json),
    ensures
        normalized_call(a) == normalized_call(b),
{
}

/// Bindings are written with each digest under its own name.
pub proof fn written_bindings_name_their_digests(b: BindingsView)
    ensures
        contains(bindings_text(b), "{\"task_digest\":"@ + json_quoted(b.task_digest)),
        contains(bindings_text(b), ",\"inputs_digest\":"@ + json_quoted(b.inputs_digest)),
        contains(bindings_text(b), ",\"prompt_digest\":"@ + json_quoted(b.prompt_digest)),
        contains(bindings_text(b), ",\"model_digest\":"@ + json_quoted(b.model_digest)),
        contains(bindings_text(b), ",\"tool_catalog_digest\":"@ + json_quoted(b.tool_catalog_digest)),
        contains(
            bindings_text(b),
            ",\"policy_evidence_digest\":"@ + json_quoted(b.policy_evidence_digest),
        ),
        contains(
            bindings_text(b),
            ",\"retained_evidence_digest\":"@ + json_quoted(b.retained_evidence_digest),
        ),
{
    let s0 = "{\"task_digest\":"@ + json_quoted(b.task_digest);
    text_holds_what_is_added(Seq::empty(), s0);
    assert(Seq::<char>::empty() + s0 =~= s0);
    let s1 = field_added(s0, ",\"inputs_digest\":"@, json_quoted(b.inputs_digest));
    let s2 = field_added(s1, ",\"prompt_digest\":"@, json_quoted(b.prompt_digest));
    let s3 = field_added(s2, ",\"model_digest\":"@, json_quoted(b.model_digest));
    let s4 = field_added(s3, ",\"tool_catalog_digest\":"@, json_quoted(b.tool_catalog_digest));
    let s5 = field_added(
        s4,
        ",\"policy_evidence_digest\":"@,
        json_quoted(b.policy_evidence_digest),
    );
    let s6 = field_added(
        s5,
        ",\"retained_evidence_digest\":"@,
        json_quoted(b.retained_evidence_digest),
    );
    text_keeps_what_it_holds(s6, "}"@);
}

/// Evidence is written with its run, its operation where it has one, its task, its bindings,
/// its steps and its terminal, each under its own name.
pub proof fn written_evidence_names_its_parts(e: EvidenceView)
    ensures
        contains(evidence_text(e), "{\"schema_version\":"@ + decimal(e.schema_version as nat)),
        contains(evidence_text(e), ",\"source_run_id\":"@ + json_quoted(e.source_run_id)),
        e.source_logical_operation_id is Some ==> contains(
            evidence_text(e),
            ",\"source_logical_operation_id\":"@ + json_quoted(e.source_logical_operation_id->0),
        ),
        contains(evidence_text(e), ",\"task\":"@ + json_quoted(e.task)),
        contains(evidence_text(e), ",\"bindings\":"@ + bindings_text(e.bindings)),
        contains(
            evidence_text(e),
            ",\"expected_steps\":"@ + list_text(step_texts(e.expected_steps)),
        ),
        contains(evidence_text(e), ",\"expected_terminal\":"@ + terminal_text(e.expected_terminal)),
{
    let s0 = "{\"schema_version\":"@ + decimal(e.schema_version as nat);
    text_holds_what_is_added(Seq::empty(), s0);
    assert(Seq::<char>::empty() + s0 =~= s0);
    let s1 = field_added(s0, ",\"source_run_id\":"@, json_quoted(e.source_run_id));
    let operation = match e.source_logical_operation_id {
        Some(id) => ",\"source_logical_operation_id\":"@ + json_quoted(id),
        None => Seq::empty(),
    };
    let s2 = s1 + operation;
    text_keeps_what_it_holds(s1, operation);
    text_holds_what_is_added(s1, operation);
    let s3 = field_added(s2, ",\"task\":"@, json_quoted(e.task));
    let s4 = field_added(s3, ",\"bindings\":"@, bindings_text(e.bindings));
    let s5 = field_added(
        s4,
        ",\"expected_steps\":"@,
        list_text(step_texts(e.expected_steps)),
    );
    let s6 = field_added(s5, ",\"expected_terminal\":"@, terminal_text(e.expected_terminal));
    text_keeps_what_it_holds(s6, "}"@);
}

/// A manifest is written with the digest of its evidence and its bindings; a terminal with
/// its verdict, its end and the digest of its summary; a step with its kind and its digest.
pub proof fn written_manifest_names_its_parts(m: ManifestView, t: TerminalView, s: StepView)
    ensures
        contains(manifest_text(m), ",\"evidence_digest\":"@ + json_quoted(m.evidence_digest)),
        contains(manifest_text(m), ",\"bindings\":"@ + bindings_text(m.bindings)),
        contains(terminal_text(t), "{\"success\":"@ + bool_text(t.success)),
        contains(terminal_text(t), ",\"termination\":"@ + json_quoted(t.termination)),
        contains(terminal_text(t), ",\"summary_digest\":"@ + json_quoted(t.summary_digest)),
        contains(step_text(s), ",\"content_digest\":"@ + json_quoted(s.content_digest)),
        s.name.len() > 0 ==> contains(step_text(s), ",\"name\":"@ + json_quoted(s.name)),
        s.kind == ReplayStepKind::Model ==> contains(step_text(s), "{\"kind\":\"model\""@),
        s.kind == ReplayStepKind::Tool ==> contains(step_text(s), "{\"kind\":\"tool\""@),
{
    let m0 = "{\"schema_version\":"@ + decimal(m.schema_version as nat);
    let m1 = field_added(m0, ",\"evidence_digest\":"@, json_quoted(m.evidence_digest));
    let m2 = field_added(m1, ",\"bindings\":"@, bindings_text(m.bindings));
    text_keeps_what_it_holds(m2, "}"@);
    let t0 = "{\"success\":"@ + bool_text(t.success);
    text_holds_what_is_added(Seq::empty(), t0);
    assert(Seq::<char>::empty() + t0 =~= t0);
    let t1 = field_added(t0, ",\"termination\":"@, json_quoted(t.termination));
    let t2 = field_added(t1, ",\"summary_digest\":"@, json_quoted(t.summary_digest));
    text_keeps_what_it_holds(t2, "}"@);
    let kind = match s.kind {
        ReplayStepKind::Model => "{\"kind\":\"model\""@,
        ReplayStepKind::Tool => "{\"kind\":\"tool\""@,
    };
    text_holds_what_is_added(Seq::empty(), kind);
    assert(Seq::<char>::empty() + kind =~= kind);
    let name = if s.name.len() == 0 {
        Seq::empty()
    } else {
        ",\"name\":"@ + json_quoted(s.name)
    };
    let s1 = kind + name;
    text_keeps_what_it_holds(kind, name);
    text_holds_what_is_added(kind, name);
    let s2 = field_added(s1, ",\"content_digest\":"@, json_quoted(s.content_digest));
    text_keeps_what_it_holds(s2, "}"@);
}

/// A hexadecimal digit is a decimal one or one of the first six letters, in either case.
pub proof fn hexadecimal_digits_have_either_case(c: char)
    ensures
        '0' <= c && c <= '9' || 'a' <= c && c <= 'f' || 'A' <= c && c <= 'F' <==> hex_digit(c),
{
}

} // verus!
