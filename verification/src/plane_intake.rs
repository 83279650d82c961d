//! Validated mapping from plane-claimed `runtime_dispatch` work to
//! [`RunRequest`], and the intake loop around it.
//!
//! This module makes no plane calls and admits no work itself. A thin host
//! supplies a claimed effect plus its Action parameters and runs the mapped
//! request. Times are in nanoseconds unless their names say otherwise.
use vstd::prelude::*;
use vstd::string::*;
#[allow(unused_imports)]
use vstd::utf8::*;

use crate::digest::digest_hex;
#[allow(unused_imports)]
use crate::digest::sha256_hex;
use crate::events::push_number;
use crate::json::{read_json, Json};
#[allow(unused_imports)]
use crate::json::{as_text, items, json_reading, list_model, member, JsonModel};
use crate::run::RunRequest;
use crate::text::{debug_quoted, is_blank, same};
#[allow(unused_imports)]
use crate::text::{blank, byte_len, debug_text, decimal, opt_view};

pub mod claimed_run;
pub mod receipt_artifact;
pub mod serve_loop;

verus! {

pub const RUNTIME_DISPATCH_KIND: &'static str = "runtime_dispatch";

pub const CLAIMED_STATUS: &'static str = "claimed";

pub const DEFAULT_MAX_CLAIMED_TASK_BYTES: usize = 65536;

pub const DEFAULT_MAX_CONTINUATION_BYTES: usize = 16384;

/// Plane data required to map one claimed Action effect into a harness run.
#[derive(Debug, Clone, PartialEq, Eq)]
pub struct ClaimedPlaneWork {
    /// Identity of the claim, used for heartbeat and acknowledgement.
    pub effect_id: String,
    pub instance_id: String,
    pub operation_id: String,
    pub kind: String,
    pub status: String,
    pub payload_json: String,
    pub parameters_json: String,
    /// The task that `artifact_refs` were resolved to under the host's own
    /// authorization.
    pub resolved_task: Option<String>,
    /// Immutable plane-owned continuation, returned only after a governed
    /// parked-work resolution has made the same effect ready again.
    pub continuation: Option<PlaneWorkContinuation>,
}

#[derive(Debug, Clone, PartialEq, Eq)]
pub struct PlaneCheckpoint {
    pub store_id: String,
    pub reference: String,
    pub digest: String,
}

#[derive(Debug, Clone, PartialEq, Eq)]
pub struct PlaneWorkContinuation {
    pub resolution_id: String,
    pub park_id: String,
    pub effect_id: String,
    pub operation_id: String,
    pub park_generation: u64,
    pub input_json: String,
    pub input_digest: String,
    pub checkpoint: Option<PlaneCheckpoint>,
}

/// Host-owned constraints applied after plane admission. A claimed timeout may
/// narrow `host_timeout_ms`, never expand it.
#[derive(Debug, Clone, PartialEq, Eq)]
pub struct ClaimedWorkPolicy {
    pub expected_runtime: String,
    pub max_task_bytes: usize,
    pub max_continuation_bytes: usize,
    pub host_timeout_ms: Option<u64>,
    pub allow_keep_workspace: bool,
}

impl Default for ClaimedWorkPolicy {
    fn default() -> (p: Self)
        ensures
            p.expected_runtime@ == "shikigami"@,
            p.max_task_bytes == DEFAULT_MAX_CLAIMED_TASK_BYTES,
            p.max_continuation_bytes == DEFAULT_MAX_CONTINUATION_BYTES,
            p.host_timeout_ms is None,
            !p.allow_keep_workspace,
    {
        ClaimedWorkPolicy {
            expected_runtime: "shikigami".to_owned(),
            max_task_bytes: DEFAULT_MAX_CLAIMED_TASK_BYTES,
            max_continuation_bytes: DEFAULT_MAX_CONTINUATION_BYTES,
            host_timeout_ms: None,
            allow_keep_workspace: false,
        }
    }
}

/// Why claimed work is mapped to no run.
#[derive(Debug, PartialEq, Eq)]
pub enum ClaimedWorkMappingError {
    MissingField { field: &'static str },
    InvalidKind(String),
    InvalidStatus(String),
    InvalidPayload(String),
    InvalidParameters(String),
    CorrelationMismatch { field: &'static str },
    RuntimeMismatch { expected: String, actual: String },
    ParametersDigestMismatch,
    MissingTask,
    ArtifactResolutionRequired,
    TaskTooLarge { actual: usize, maximum: usize },
    InvalidTimeout,
    InvalidKeepWorkspace,
    InvalidArtifactRefs,
}

/// Why claimed work is mapped to no run.
pub enum MappingFault {
    MissingField(Seq<char>),
    InvalidKind(Seq<char>),
    InvalidStatus(Seq<char>),
    InvalidPayload(Seq<char>),
    InvalidParameters(Seq<char>),
    CorrelationMismatch(Seq<char>),
    RuntimeMismatch { expected: Seq<char>, actual: Seq<char> },
    ParametersDigestMismatch,
    MissingTask,
    ArtifactResolutionRequired,
    TaskTooLarge { actual: nat, maximum: nat },
    InvalidTimeout,
    InvalidKeepWorkspace,
    InvalidArtifactRefs,
}

impl View for ClaimedWorkMappingError {
    type V = MappingFault;

    open spec fn view(&self) -> MappingFault {
        match self {
            ClaimedWorkMappingError::MissingField { field } => MappingFault::MissingField(field@),
            ClaimedWorkMappingError::InvalidKind(s) => MappingFault::InvalidKind(s@),
            ClaimedWorkMappingError::InvalidStatus(s) => MappingFault::InvalidStatus(s@),
            ClaimedWorkMappingError::InvalidPayload(s) => MappingFault::InvalidPayload(s@),
            ClaimedWorkMappingError::InvalidParameters(s) => MappingFault::InvalidParameters(s@),
            ClaimedWorkMappingError::CorrelationMismatch { field } => {
                MappingFault::CorrelationMismatch(field@)
            },
            ClaimedWorkMappingError::RuntimeMismatch { expected, actual } => {
                MappingFault::RuntimeMismatch { expected: expected@, actual: actual@ }
            },
            ClaimedWorkMappingError::ParametersDigestMismatch => {
                MappingFault::ParametersDigestMismatch
            },
            ClaimedWorkMappingError::MissingTask => MappingFault::MissingTask,
            ClaimedWorkMappingError::ArtifactResolutionRequired => {
                MappingFault::ArtifactResolutionRequired
            },
            ClaimedWorkMappingError::TaskTooLarge { actual, maximum } => {
                MappingFault::TaskTooLarge { actual: *actual as nat, maximum: *maximum as nat }
            },
            ClaimedWorkMappingError::InvalidTimeout => MappingFault::InvalidTimeout,
            ClaimedWorkMappingError::InvalidKeepWorkspace => MappingFault::InvalidKeepWorkspace,
            ClaimedWorkMappingError::InvalidArtifactRefs => MappingFault::InvalidArtifactRefs,
        }
    }
}

impl MappingFault {
    /// The message of the fault.
    pub open spec fn text(self) -> Seq<char> {
        match self {
            MappingFault::MissingField(f) => "claimed work "@ + f + " is required"@,
            MappingFault::InvalidKind(s) => "claimed effect kind must be runtime_dispatch, got "@
                + debug_text(s),
            MappingFault::InvalidStatus(s) => "claimed effect status must be claimed, got "@
                + debug_text(s),
            MappingFault::InvalidPayload(s) => "claimed effect payload must be a JSON object: "@ + s,
            MappingFault::InvalidParameters(s) => {
                "claimed Action parameters must be a JSON object: "@ + s
            },
            MappingFault::CorrelationMismatch(f) => "claimed effect payload "@ + f
                + " does not match the claim envelope"@,
            MappingFault::RuntimeMismatch { expected, actual } => "claimed effect runtime "@
                + debug_text(actual) + " does not match host runtime "@ + debug_text(expected),
            MappingFault::ParametersDigestMismatch => {
                "claimed Action parameters digest does not match the effect payload"@
            },
            MappingFault::MissingTask => "claimed Action task is required"@,
            MappingFault::ArtifactResolutionRequired => {
                "artifact_refs require an authorized host resolution result"@
            },
            MappingFault::TaskTooLarge { actual, maximum } => "claimed Action task is "@ + decimal(
                actual,
            ) + " bytes; maximum is "@ + decimal(maximum),
            MappingFault::InvalidTimeout => {
                "claimed Action timeout_secs must be a positive integer"@
            },
            MappingFault::InvalidKeepWorkspace => {
                "claimed Action keep_workspace must be a boolean"@
            },
            MappingFault::InvalidArtifactRefs => {
                "claimed Action artifact_refs must be an array of non-empty strings"@
            },
        }
    }
}

fn between(before: &str, middle: &str, after: &str) -> (s: String)
    ensures
        s@ == before@ + middle@ + after@,
{
    let mut s = before.to_owned();
    s.append(middle);
    s.append(after);
    s
}

fn behind(before: &str, rest: &str) -> (s: String)
    ensures
        s@ == before@ + rest@,
{
    let mut s = before.to_owned();
    s.append(rest);
    s
}

impl ClaimedWorkMappingError {
    /// The message of the error.
    pub fn message(&self) -> (s: String)
        ensures
            s@ == self@.text(),
    {
        match self {
            ClaimedWorkMappingError::MissingField { field } => between(
                "claimed work ",
                field,
                " is required",
            ),
            ClaimedWorkMappingError::InvalidKind(k) => {
                let q = debug_quoted(k.as_str());
                behind("claimed effect kind must be runtime_dispatch, got ", q.as_str())
            },
            ClaimedWorkMappingError::InvalidStatus(k) => {
                let q = debug_quoted(k.as_str());
                behind("claimed effect status must be claimed, got ", q.as_str())
            },
            ClaimedWorkMappingError::InvalidPayload(m) => behind(
                "claimed effect payload must be a JSON object: ",
                m.as_str(),
            ),
            ClaimedWorkMappingError::InvalidParameters(m) => behind(
                "claimed Action parameters must be a JSON object: ",
                m.as_str(),
            ),
            ClaimedWorkMappingError::CorrelationMismatch { field } => between(
                "claimed effect payload ",
                field,
                " does not match the claim envelope",
            ),
            ClaimedWorkMappingError::RuntimeMismatch { expected, actual } => {
                let a = debug_quoted(actual.as_str());
                let e = debug_quoted(expected.as_str());
                let mut s = behind("claimed effect runtime ", a.as_str());
                s.append(" does not match host runtime ");
                s.append(e.as_str());
                s
            },
            ClaimedWorkMappingError::ParametersDigestMismatch => {
                "claimed Action parameters digest does not match the effect payload".to_owned()
            },
            ClaimedWorkMappingError::MissingTask => "claimed Action task is required".to_owned(),
            ClaimedWorkMappingError::ArtifactResolutionRequired => {
                "artifact_refs require an authorized host resolution result".to_owned()
            },
            ClaimedWorkMappingError::TaskTooLarge { actual, maximum } => {
                let mut s = "claimed Action task is ".to_owned();
                push_number(&mut s, *actual as u64);
                s.append(" bytes; maximum is ");
                push_number(&mut s, *maximum as u64);
                s
            },
            ClaimedWorkMappingError::InvalidTimeout => {
                "claimed Action timeout_secs must be a positive integer".to_owned()
            },
            ClaimedWorkMappingError::InvalidKeepWorkspace => {
                "claimed Action keep_workspace must be a boolean".to_owned()
            },
            ClaimedWorkMappingError::InvalidArtifactRefs => {
                "claimed Action artifact_refs must be an array of non-empty strings".to_owned()
            },
        }
    }
}

// ---------------------------------------------------------------------------
// Mapping
// ---------------------------------------------------------------------------

/// What JSON text says, where it is an object; else why it is not one.
pub open spec fn object_of(reading: Result<JsonModel, Seq<char>>) -> Result<JsonModel, Seq<char>> {
    match reading {
        Err(m) => Err(m),
        Ok(v) => if v is Object {
            Ok(v)
        } else {
            Err("expected object"@)
        },
    }
}

/// A payload text that is not blank.
pub open spec fn payload_text(payload: JsonModel, field: Seq<char>) -> Option<Seq<char>> {
    match as_text(member(payload, field)) {
        Some(t) => if blank(t) {
            None
        } else {
            Some(t)
        },
        None => None,
    }
}

/// Why a payload field does not match the claim envelope.
pub open spec fn mismatch(payload: JsonModel, field: Seq<char>, expected: Seq<char>) -> Option<
    MappingFault,
> {
    match payload_text(payload, field) {
        None => Some(MappingFault::MissingField(field)),
        Some(t) => if t != expected {
            Some(MappingFault::CorrelationMismatch(field))
        } else {
            None
        },
    }
}

/// What is wrong with the claim envelope.
pub open spec fn envelope_fault(work: ClaimedPlaneWork, policy: ClaimedWorkPolicy) -> Option<
    MappingFault,
> {
    if blank(work.effect_id@) {
        Some(MappingFault::MissingField("effect_id"@))
    } else if blank(work.instance_id@) {
        Some(MappingFault::MissingField("instance_id"@))
    } else if blank(work.operation_id@) {
        Some(MappingFault::MissingField("operation_id"@))
    } else if work.kind@ != RUNTIME_DISPATCH_KIND@ {
        Some(MappingFault::InvalidKind(work.kind@))
    } else if work.status@ != CLAIMED_STATUS@ {
        Some(MappingFault::InvalidStatus(work.status@))
    } else if blank(policy.expected_runtime@) {
        Some(MappingFault::MissingField("expected_runtime"@))
    } else {
        None
    }
}

/// What is wrong with the payload of a claim.
pub open spec fn payload_fault(
    work: ClaimedPlaneWork,
    policy: ClaimedWorkPolicy,
    payload: JsonModel,
) -> Option<
    MappingFault,
> {
    let instance = mismatch(payload, "instance_id"@, work.instance_id@);
    let operation = mismatch(payload, "operation_id"@, work.operation_id@);
    if instance is Some {
        instance
    } else if operation is Some {
        operation
    } else {
        match payload_text(payload, "runtime"@) {
            None => Some(MappingFault::MissingField("runtime"@)),
            Some(runtime) => if runtime != policy.expected_runtime@ {
                Some(
                    MappingFault::RuntimeMismatch {
                        expected: policy.expected_runtime@,
                        actual: runtime,
                    },
                )
            } else {
                match payload_text(payload, "parameters_digest"@) {
                    None => Some(MappingFault::MissingField("parameters_digest"@)),
                    Some(d) => if d != sha256_hex(encode_utf8(work.parameters_json@)) {
                        Some(MappingFault::ParametersDigestMismatch)
                    } else {
                        None
                    },
                }
            },
        }
    }
}

/// Whether references are a list of texts that are not blank.
pub open spec fn refs_valid(v: Seq<JsonModel>) -> bool {
    forall|i: int| 0 <= i < v.len() ==> (#[trigger] v[i] matches JsonModel::Text(t) && !blank(t))
}

/// How many artifact references there are, where they are valid.
pub open spec fn ref_count(value: Option<JsonModel>) -> Option<nat> {
    match value {
        None => Some(0),
        Some(JsonModel::List(v)) => if refs_valid(v) {
            Some(v.len())
        } else {
            None
        },
        Some(_) => None,
    }
}

/// The task of a claim: the inline one, else the one that its artifact
/// references were resolved to.
pub open spec fn claimed_task(params: JsonModel, resolved: Option<Seq<char>>) -> Result<
    Seq<char>,
    MappingFault,
> {
    let inline = member(params, "task"@);
    match inline {
        Some(JsonModel::Text(t)) if !blank(t) => Ok(t),
        Some(JsonModel::Text(_)) | Some(JsonModel::Null) | None => match ref_count(
            member(params, "artifact_refs"@),
        ) {
            None => Err(MappingFault::InvalidArtifactRefs),
            Some(n) => if n == 0 {
                Err(MappingFault::MissingTask)
            } else if resolved is Some && !blank(resolved->0) {
                Ok(resolved->0)
            } else {
                Err(MappingFault::ArtifactResolutionRequired)
            },
        },
        Some(_) => Err(MappingFault::MissingTask),
    }
}

/// Seconds in milliseconds. A time that is too long to be counted is the longest
/// one.
pub open spec fn in_millis(seconds: u64) -> u64 {
    if seconds * 1000 > u64::MAX {
        u64::MAX
    } else {
        (seconds * 1000) as u64
    }
}

/// The timeout that a claim asks for.
pub open spec fn claimed_timeout(value: Option<JsonModel>) -> Result<Option<u64>, MappingFault> {
    match value {
        None | Some(JsonModel::Null) => Ok(None),
        Some(JsonModel::Unsigned(n)) => if n > 0 {
            Ok(Some(in_millis(n)))
        } else {
            Err(MappingFault::InvalidTimeout)
        },
        Some(_) => Err(MappingFault::InvalidTimeout),
    }
}

/// The shorter of the host's timeout and the claimed one.
pub open spec fn narrowed(host: Option<u64>, claimed: Option<u64>) -> Option<u64> {
    match (host, claimed) {
        (Some(h), Some(c)) => Some(
            if c < h {
                c
            } else {
                h
            },
        ),
        (Some(h), None) => Some(h),
        (None, Some(c)) => Some(c),
        (None, None) => None,
    }
}

/// Whether a claim asks to keep its workspace.
pub open spec fn claimed_keep(value: Option<JsonModel>) -> Result<bool, MappingFault> {
    match value {
        None | Some(JsonModel::Null) => Ok(false),
        Some(JsonModel::Bool(b)) => Ok(b),
        Some(_) => Err(MappingFault::InvalidKeepWorkspace),
    }
}

/// The run that claimed work is mapped to.
#[verifier::ext_equal]
pub struct MappedRun {
    pub task: Seq<char>,
    pub timeout_ms: Option<u64>,
    pub keep_workspace: bool,
}

/// The run that valid parameters ask for.
pub open spec fn map_parameters(
    work: ClaimedPlaneWork,
    policy: ClaimedWorkPolicy,
    params: JsonModel,
) -> Result<
    MappedRun,
    MappingFault,
> {
    match claimed_task(params, opt_view(work.resolved_task)) {
        Err(f) => Err(f),
        Ok(task) => if byte_len(task) > policy.max_task_bytes {
            Err(
                MappingFault::TaskTooLarge {
                    actual: byte_len(task),
                    maximum: policy.max_task_bytes as nat,
                },
            )
        } else {
            match claimed_timeout(member(params, "timeout_secs"@)) {
                Err(f) => Err(f),
                Ok(timeout) => match claimed_keep(member(params, "keep_workspace"@)) {
                    Err(f) => Err(f),
                    Ok(keep) => Ok(
                        MappedRun {
                            task,
                            timeout_ms: narrowed(policy.host_timeout_ms, timeout),
                            keep_workspace: policy.allow_keep_workspace && keep,
                        },
                    ),
                },
            }
        },
    }
}

/// What claimed work is mapped to, once its payload and parameters were read.
pub open spec fn mapping(
    work: ClaimedPlaneWork,
    policy: ClaimedWorkPolicy,
    payload: Result<JsonModel, Seq<char>>,
    params: Result<JsonModel, Seq<char>>,
) -> Result<MappedRun, MappingFault> {
    match envelope_fault(work, policy) {
        Some(f) => Err(f),
        None => match object_of(payload) {
            Err(m) => Err(MappingFault::InvalidPayload(m)),
            Ok(payload) => match payload_fault(work, policy, payload) {
                Some(f) => Err(f),
                None => match object_of(params) {
                    Err(m) => Err(MappingFault::InvalidParameters(m)),
                    Ok(params) => map_parameters(work, policy, params),
                },
            },
        },
    }
}

/// Whether a request is the mapped one, under the operation of the claim.
pub open spec fn maps_to(r: RunRequest, run: MappedRun, operation_id: Seq<char>) -> bool {
    &&& r.task@ == run.task
    &&& r.timeout_ms == run.timeout_ms
    &&& r.keep_workspace == run.keep_workspace
    &&& opt_view(r.logical_operation_id) == Some(operation_id)
    &&& r.resume_run_id is None
    &&& r.resume_answer is None
    &&& r.restore_snapshot is None
}

/// Whether a result is that of a mapping.
pub open spec fn mapped(
    r: Result<RunRequest, ClaimedWorkMappingError>,
    stated: Result<MappedRun, MappingFault>,
    operation_id: Seq<char>,
) -> bool {
    match stated {
        Ok(run) => r matches Ok(q) && maps_to(q, run, operation_id),
        Err(f) => r matches Err(e) && e@ == f,
    }
}

/// What a read value models.
pub open spec fn reading_of(r: Result<Json, String>) -> Result<JsonModel, Seq<char>> {
    match r {
        Ok(j) => Ok(j.model()),
        Err(m) => Err(m@),
    }
}

fn missing(field: &'static str) -> (e: ClaimedWorkMappingError)
    ensures
        e@ == MappingFault::MissingField(field@),
{
    ClaimedWorkMappingError::MissingField { field }
}

fn check_envelope(work: &ClaimedPlaneWork, policy: &ClaimedWorkPolicy) -> (r: Result<
    (),
    ClaimedWorkMappingError,
>)
    ensures
        match envelope_fault(*work, *policy) {
            Some(f) => r matches Err(e) && e@ == f,
            None => r is Ok,
        },
{
    if is_blank(work.effect_id.as_str()) {
        return Err(missing("effect_id"));
    }
    if is_blank(work.instance_id.as_str()) {
        return Err(missing("instance_id"));
    }
    if is_blank(work.operation_id.as_str()) {
        return Err(missing("operation_id"));
    }
    if !same(work.kind.as_str(), RUNTIME_DISPATCH_KIND) {
        return Err(ClaimedWorkMappingError::InvalidKind(work.kind.clone()));
    }
    if !same(work.status.as_str(), CLAIMED_STATUS) {
        return Err(ClaimedWorkMappingError::InvalidStatus(work.status.clone()));
    }
    if is_blank(policy.expected_runtime.as_str()) {
        return Err(missing("expected_runtime"));
    }
    Ok(())
}

fn required_payload_string(payload: &Json, field: &'static str) -> (r: Result<
    String,
    ClaimedWorkMappingError,
>)
    ensures
        match payload_text(payload.model(), field@) {
            Some(t) => r matches Ok(s) && s@ == t,
            None => r matches Err(e) && e@ == MappingFault::MissingField(field@),
        },
{
    match payload.get(field) {
        None => Err(missing(field)),
        Some(v) => match v.as_str() {
            None => Err(missing(field)),
            Some(s) => {
                if is_blank(s) {
                    return Err(missing(field));
                }
                Ok(s.to_owned())
            },
        },
    }
}

fn matching_payload_string(payload: &Json, field: &'static str, expected: &str) -> (r: Result<
    (),
    ClaimedWorkMappingError,
>)
    ensures
        match mismatch(payload.model(), field@, expected@) {
            Some(f) => r matches Err(e) && e@ == f,
            None => r is Ok,
        },
{
    match required_payload_string(payload, field) {
        Err(e) => Err(e),
        Ok(s) => {
            if !same(s.as_str(), expected) {
                return Err(ClaimedWorkMappingError::CorrelationMismatch { field });
            }
            Ok(())
        },
    }
}

fn check_payload(work: &ClaimedPlaneWork, policy: &ClaimedWorkPolicy, payload: &Json) -> (r: Result<
    (),
    ClaimedWorkMappingError,
>)
    ensures
        match payload_fault(*work, *policy, payload.model()) {
            Some(f) => r matches Err(e) && e@ == f,
            None => r is Ok,
        },
{
    if let Err(e) = matching_payload_string(payload, "instance_id", work.instance_id.as_str()) {
        return Err(e);
    }
    if let Err(e) = matching_payload_string(payload, "operation_id", work.operation_id.as_str()) {
        return Err(e);
    }
    match required_payload_string(payload, "runtime") {
        Err(e) => {
            return Err(e);
        },
        Ok(runtime) => {
            if !same(runtime.as_str(), policy.expected_runtime.as_str()) {
                return Err(
                    ClaimedWorkMappingError::RuntimeMismatch {
                        expected: policy.expected_runtime.clone(),
                        actual: runtime,
                    },
                );
            }
        },
    }
    match required_payload_string(payload, "parameters_digest") {
        Err(e) => Err(e),
        Ok(expected) => {
            let actual = digest_hex(work.parameters_json.as_str().as_bytes());
            if !same(expected.as_str(), actual.as_str()) {
                return Err(ClaimedWorkMappingError::ParametersDigestMismatch);
            }
            Ok(())
        },
    }
}

fn artifact_refs(value: Option<&Json>) -> (r: Result<usize, ClaimedWorkMappingError>)
    ensures
        match ref_count(crate::json::opt_model(value)) {
            Some(n) => r matches Ok(k) && k == n,
            None => r matches Err(e) && e@ == MappingFault::InvalidArtifactRefs,
        },
{
    broadcast use list_model;

    match value {
        None => Ok(0),
        Some(v) => match v.as_list() {
            None => Err(ClaimedWorkMappingError::InvalidArtifactRefs),
            Some(refs) => {
                let ghost models = items(refs@);
                let mut i: usize = 0;
                while i < refs.len()
                    invariant
                        i <= refs@.len(),
                        models == items(refs@),
                        v.model() == JsonModel::List(models),
                        value == Some(v),
                        forall|j: int|
                            0 <= j < i ==> (#[trigger] models[j] matches JsonModel::Text(t)
                                && !blank(t)),
                    decreases refs@.len() - i,
                {
                    assert(models[i as int] == refs@[i as int].model());
                    let valid = match refs[i].as_str() {
                        Some(s) => !is_blank(s),
                        None => false,
                    };
                    if !valid {
                        assert(!refs_valid(models));
                        return Err(ClaimedWorkMappingError::InvalidArtifactRefs);
                    }
                    i = i + 1;
                }
                Ok(refs.len())
            },
        },
    }
}

fn resolve_task(work: &ClaimedPlaneWork, params: &Json) -> (r: Result<
    String,
    ClaimedWorkMappingError,
>)
    ensures
        match claimed_task(params.model(), opt_view(work.resolved_task)) {
            Ok(t) => r matches Ok(s) && s@ == t,
            Err(f) => r matches Err(e) && e@ == f,
        },
{
    match params.get("task") {
        None => {},
        Some(v) => match v {
            Json::Text(t) => {
                if !is_blank(t.as_str()) {
                    return Ok(t.clone());
                }
            },
            Json::Null => {},
            _ => {
                return Err(ClaimedWorkMappingError::MissingTask);
            },
        },
    }
    match artifact_refs(params.get("artifact_refs")) {
        Err(e) => Err(e),
        Ok(n) => {
            if n == 0 {
                return Err(ClaimedWorkMappingError::MissingTask);
            }
            match &work.resolved_task {
                Some(t) => {
                    if is_blank(t.as_str()) {
                        return Err(ClaimedWorkMappingError::ArtifactResolutionRequired);
                    }
                    Ok(t.clone())
                },
                None => Err(ClaimedWorkMappingError::ArtifactResolutionRequired),
            }
        },
    }
}

fn requested_timeout(params: &Json) -> (r: Result<Option<u64>, ClaimedWorkMappingError>)
    ensures
        match claimed_timeout(member(params.model(), "timeout_secs"@)) {
            Ok(t) => r == Ok::<Option<u64>, ClaimedWorkMappingError>(t),
            Err(f) => r matches Err(e) && e@ == f,
        },
{
    match params.get("timeout_secs") {
        None => Ok(None),
        Some(v) => match v {
            Json::Null => Ok(None),
            Json::Unsigned(n) => {
                if *n == 0 {
                    return Err(ClaimedWorkMappingError::InvalidTimeout);
                }
                match n.checked_mul(1000) {
                    Some(ms) => Ok(Some(ms)),
                    None => Ok(Some(u64::MAX)),
                }
            },
            _ => Err(ClaimedWorkMappingError::InvalidTimeout),
        },
    }
}

fn requested_keep_workspace(params: &Json) -> (r: Result<bool, ClaimedWorkMappingError>)
    ensures
        match claimed_keep(member(params.model(), "keep_workspace"@)) {
            Ok(b) => r == Ok::<bool, ClaimedWorkMappingError>(b),
            Err(f) => r matches Err(e) && e@ == f,
        },
{
    match params.get("keep_workspace") {
        None => Ok(false),
        Some(v) => match v {
            Json::Null => Ok(false),
            Json::Bool(b) => Ok(*b),
            _ => Err(ClaimedWorkMappingError::InvalidKeepWorkspace),
        },
    }
}

fn map_object(work: &ClaimedPlaneWork, policy: &ClaimedWorkPolicy, params: &Json) -> (r: Result<
    RunRequest,
    ClaimedWorkMappingError,
>)
    ensures
        mapped(r, map_parameters(*work, *policy, params.model()), work.operation_id@),
{
    let task = match resolve_task(work, params) {
        Err(e) => {
            return Err(e);
        },
        Ok(t) => t,
    };
    let bytes: usize = task.as_str().as_bytes().len();
    if bytes > policy.max_task_bytes {
        return Err(
            ClaimedWorkMappingError::TaskTooLarge {
                actual: bytes,
                maximum: policy.max_task_bytes,
            },
        );
    }
    let requested = match requested_timeout(params) {
        Err(e) => {
            return Err(e);
        },
        Ok(t) => t,
    };
    let timeout_ms = match (policy.host_timeout_ms, requested) {
        (Some(h), Some(c)) => if c < h {
            Some(c)
        } else {
            Some(h)
        },
        (Some(h), None) => Some(h),
        (None, Some(c)) => Some(c),
        (None, None) => None,
    };
    let keep = match requested_keep_workspace(params) {
        Err(e) => {
            return Err(e);
        },
        Ok(b) => b,
    };
    let mut request = RunRequest::new(task);
    request.logical_operation_id = Some(work.operation_id.clone());
    request.timeout_ms = timeout_ms;
    request.keep_workspace = policy.allow_keep_workspace && keep;
    Ok(request)
}

/// Maps claimed work whose payload and parameters were read. Fields that are not
/// known are ignored: they can neither configure the host nor grant authority.
pub fn map_read_work(
    work: &ClaimedPlaneWork,
    policy: &ClaimedWorkPolicy,
    payload: &Result<Json, String>,
    parameters: &Result<Json, String>,
) -> (r: Result<RunRequest, ClaimedWorkMappingError>)
    ensures
        mapped(
            r,
            mapping(*work, *policy, reading_of(*payload), reading_of(*parameters)),
            work.operation_id@,
        ),
{
    if let Err(e) = check_envelope(work, policy) {
        return Err(e);
    }
    match payload {
        Err(m) => {
            return Err(ClaimedWorkMappingError::InvalidPayload(m.clone()));
        },
        Ok(p) => {
            if !is_object(p) {
                return Err(ClaimedWorkMappingError::InvalidPayload("expected object".to_owned()));
            }
            if let Err(e) = check_payload(work, policy, p) {
                return Err(e);
            }
        },
    }
    match parameters {
        Err(m) => Err(ClaimedWorkMappingError::InvalidParameters(m.clone())),
        Ok(p) => {
            if !is_object(p) {
                return Err(
                    ClaimedWorkMappingError::InvalidParameters("expected object".to_owned()),
                );
            }
            map_object(work, policy, p)
        },
    }
}

pub(crate) fn is_object(j: &Json) -> (r: bool)
    ensures
        r == (j.model() is Object),
{
    match j {
        Json::Object(_) => true,
        _ => false,
    }
}

/// Maps a fenced, already-claimed plane effect into the harness request.
pub fn map_claimed_work(work: &ClaimedPlaneWork, policy: &ClaimedWorkPolicy) -> (r: Result<
    RunRequest,
    ClaimedWorkMappingError,
>)
    ensures
        mapped(
            r,
            mapping(
                *work,
                *policy,
                json_reading(work.payload_json@),
                json_reading(work.parameters_json@),
            ),
            work.operation_id@,
        ),
{
    let payload = read_json(work.payload_json.as_str());
    let parameters = read_json(work.parameters_json.as_str());
    map_read_work(work, policy, &payload, &parameters)
}

/// A claimed timeout never exceeds the host's.
pub proof fn claimed_timeout_narrows(
    work: ClaimedPlaneWork,
    policy: ClaimedWorkPolicy,
    payload: Result<JsonModel, Seq<char>>,
    params: Result<JsonModel, Seq<char>>,
)
    requires
        mapping(work, policy, payload, params) is Ok,
        policy.host_timeout_ms is Some,
    ensures
        mapping(work, policy, payload, params)->Ok_0.timeout_ms is Some,
        mapping(work, policy, payload, params)->Ok_0.timeout_ms->0 <= policy.host_timeout_ms->0,
{
}

/// A workspace is kept only where the host permits it.
pub proof fn workspace_is_kept_only_with_permission(
    work: ClaimedPlaneWork,
    policy: ClaimedWorkPolicy,
    payload: Result<JsonModel, Seq<char>>,
    params: Result<JsonModel, Seq<char>>,
)
    requires
        mapping(work, policy, payload, params) is Ok,
        mapping(work, policy, payload, params)->Ok_0.keep_workspace,
    ensures
        policy.allow_keep_workspace,
{
}

/// Work that is mapped carries the runtime, the ids and the parameter digest
/// that its payload names.
pub proof fn mapped_work_is_correlated(
    work: ClaimedPlaneWork,
    policy: ClaimedWorkPolicy,
    payload: Result<JsonModel, Seq<char>>,
    params: Result<JsonModel, Seq<char>>,
)
    requires
        mapping(work, policy, payload, params) is Ok,
    ensures
        payload is Ok,
        as_text(member(payload->Ok_0, "instance_id"@)) == Some(work.instance_id@),
        as_text(member(payload->Ok_0, "operation_id"@)) == Some(work.operation_id@),
        as_text(member(payload->Ok_0, "runtime"@)) == Some(policy.expected_runtime@),
        as_text(member(payload->Ok_0, "parameters_digest"@)) == Some(
            sha256_hex(encode_utf8(work.parameters_json@)),
        ),
        byte_len(mapping(work, policy, payload, params)->Ok_0.task) <= policy.max_task_bytes,
{
}

/// The request that work is mapped to runs for the shorter of the host's time and the
/// claimed one: with both it is the smaller of the two, with one it is that one, and with
/// none there is no limit.
pub proof fn mapped_request_runs_for_the_shorter_time(
    r: Result<RunRequest, ClaimedWorkMappingError>,
    work: ClaimedPlaneWork,
    policy: ClaimedWorkPolicy,
    payload: Result<JsonModel, Seq<char>>,
    params: Result<JsonModel, Seq<char>>,
)
    requires
        mapped(r, mapping(work, policy, payload, params), work.operation_id@),
        r is Ok,
    ensures
        ({
            let asked = member(params->Ok_0, "timeout_secs"@);
            let got = r->Ok_0.timeout_ms;
            match asked {
                Some(JsonModel::Unsigned(n)) => {
                    &&& n > 0
                    &&& got is Some
                    &&& got->0 <= n * 1000
                    &&& policy.host_timeout_ms is Some ==> got->0 <= policy.host_timeout_ms->0
                    &&& got->0 == n * 1000 || policy.host_timeout_ms == got || (n * 1000 > u64::MAX
                        && got->0 == u64::MAX)
                },
                _ => got == policy.host_timeout_ms && (asked is None || asked == Some(
                    JsonModel::Null,
                )),
            }
        }),
{
}

/// The request that work is mapped to has the claimed task, or the one that its artifacts
/// were resolved to where the claim names none; it goes under the claimed operation, is
/// fresh, and keeps its workspace just where both claim and host say so.
pub proof fn mapped_request_is_what_was_claimed(
    r: Result<RunRequest, ClaimedWorkMappingError>,
    work: ClaimedPlaneWork,
    policy: ClaimedWorkPolicy,
    payload: Result<JsonModel, Seq<char>>,
    params: Result<JsonModel, Seq<char>>,
)
    requires
        mapped(r, mapping(work, policy, payload, params), work.operation_id@),
        r is Ok,
    ensures
        ({
            let q = r->Ok_0;
            &&& !blank(q.task@)
            &&& match member(params->Ok_0, "task"@) {
                Some(JsonModel::Text(t)) if !blank(t) => q.task@ == t,
                _ => work.resolved_task is Some && q.task@ == work.resolved_task->0@,
            }
            &&& q.keep_workspace <==> policy.allow_keep_workspace && member(
                params->Ok_0,
                "keep_workspace"@,
            ) == Some(JsonModel::Bool(true))
            &&& q.logical_operation_id is Some
            &&& q.logical_operation_id->0@ == work.operation_id@
            &&& q.resume_run_id is None
            &&& q.resume_answer is None
        }),
{
}

/// Work is mapped wherever its envelope is complete, its payload agrees with it and its
/// parameters are sound: nothing else refuses it.
pub proof fn sound_work_is_mapped(
    work: ClaimedPlaneWork,
    policy: ClaimedWorkPolicy,
    payload: JsonModel,
    params: JsonModel,
    task: Seq<char>,
)
    requires
        !blank(work.effect_id@),
        !blank(work.instance_id@),
        !blank(work.operation_id@),
        !blank(policy.expected_runtime@),
        work.kind@ == RUNTIME_DISPATCH_KIND@,
        work.status@ == CLAIMED_STATUS@,
        payload is Object,
        as_text(member(payload, "instance_id"@)) == Some(work.instance_id@),
        as_text(member(payload, "operation_id"@)) == Some(work.operation_id@),
        as_text(member(payload, "runtime"@)) == Some(policy.expected_runtime@),
        as_text(member(payload, "parameters_digest"@)) == Some(
            sha256_hex(encode_utf8(work.parameters_json@)),
        ),
        !blank(sha256_hex(encode_utf8(work.parameters_json@))),
        params is Object,
        member(params, "task"@) == Some(JsonModel::Text(task)),
        !blank(task),
        byte_len(task) <= policy.max_task_bytes,
        match member(params, "timeout_secs"@) {
            None => true,
            Some(JsonModel::Null) => true,
            Some(JsonModel::Unsigned(n)) => n > 0,
            _ => false,
        },
        match member(params, "keep_workspace"@) {
            None => true,
            Some(JsonModel::Null) => true,
            Some(JsonModel::Bool(_)) => true,
            _ => false,
        },
    ensures
        mapping(work, policy, Ok(payload), Ok(params)) is Ok,
{
}

/// Work of another kind, status, instance, operation, runtime or with other parameters
/// than its payload names is refused, and so is a task that is too long and a timeout
/// that is no positive number.
pub proof fn unsound_work_is_refused(
    work: ClaimedPlaneWork,
    policy: ClaimedWorkPolicy,
    payload: Result<JsonModel, Seq<char>>,
    params: Result<JsonModel, Seq<char>>,
)
    requires
        ({
            ||| work.kind@ != RUNTIME_DISPATCH_KIND@
            ||| work.status@ != CLAIMED_STATUS@
            ||| blank(work.effect_id@)
            ||| blank(work.instance_id@)
            ||| blank(work.operation_id@)
            ||| payload is Err
            ||| params is Err
            ||| as_text(member(payload->Ok_0, "instance_id"@)) != Some(work.instance_id@)
            ||| as_text(member(payload->Ok_0, "operation_id"@)) != Some(work.operation_id@)
            ||| as_text(member(payload->Ok_0, "runtime"@)) != Some(policy.expected_runtime@)
            ||| as_text(member(payload->Ok_0, "parameters_digest"@)) != Some(
                sha256_hex(encode_utf8(work.parameters_json@)),
            )
            ||| member(params->Ok_0, "timeout_secs"@) == Some(JsonModel::Unsigned(0))
            ||| member(params->Ok_0, "timeout_secs"@) matches Some(JsonModel::Text(_))
            ||| member(params->Ok_0, "timeout_secs"@) matches Some(JsonModel::Negative(_))
            ||| member(params->Ok_0, "keep_workspace"@) matches Some(JsonModel::Text(_))
            ||| member(params->Ok_0, "task"@) matches Some(JsonModel::Text(t)) && byte_len(t)
                > policy.max_task_bytes && !blank(t)
        }),
    ensures
        mapping(work, policy, payload, params) is Err,
{
}

// ---------------------------------------------------------------------------
// Claims
// ---------------------------------------------------------------------------

#[derive(Debug, Clone, PartialEq, Eq)]
pub struct PlaneClaimLease {
    pub runtime_id: String,
    pub generation: u64,
    pub fencing_token: String,
    pub expires_at_ms: i64,
    /// Local monotonic deadline, bounded from the start of the acquiring or
    /// renewing call. Fencing never compares the clocks of host and plane.
    pub valid_until: u64,
}

#[derive(Debug, Clone, PartialEq, Eq)]
pub struct PlaneClaim {
    pub work: ClaimedPlaneWork,
    pub lease: PlaneClaimLease,
}

#[derive(Debug, Clone, Copy, PartialEq, Eq, Structural)]
pub enum PlaneAckOutcome {
    Completed,
    Failed,
    Parked,
}

impl PlaneAckOutcome {
    pub open spec fn name(self) -> Seq<char> {
        match self {
            PlaneAckOutcome::Completed => "completed"@,
            PlaneAckOutcome::Failed => "failed"@,
            PlaneAckOutcome::Parked => "parked"@,
        }
    }

    /// The outcome as text.
    pub fn as_str(self) -> (s: &'static str)
        ensures
            s@ == self.name(),
    {
        match self {
            PlaneAckOutcome::Completed => "completed",
            PlaneAckOutcome::Failed => "failed",
            PlaneAckOutcome::Parked => "parked",
        }
    }
}

#[derive(Debug, Clone, PartialEq, Eq)]
pub struct PlaneAck {
    pub outcome: PlaneAckOutcome,
    pub reason: String,
    pub request_id: String,
    pub checkpoint: Option<PlaneCheckpoint>,
}

#[derive(Debug, Clone, Copy, PartialEq, Eq, Structural)]
pub enum PlaneClaimEventKind {
    ResumeStarted,
    ResumeSucceeded,
    CheckpointUnavailable,
    ReplacementStarted,
}

impl PlaneClaimEventKind {
    pub open spec fn name(self) -> Seq<char> {
        match self {
            PlaneClaimEventKind::ResumeStarted => "resume_started"@,
            PlaneClaimEventKind::ResumeSucceeded => "resume_succeeded"@,
            PlaneClaimEventKind::CheckpointUnavailable => "checkpoint_unavailable"@,
            PlaneClaimEventKind::ReplacementStarted => "replacement_started"@,
        }
    }

    /// The kind as text.
    pub fn as_str(self) -> (s: &'static str)
        ensures
            s@ == self.name(),
    {
        match self {
            PlaneClaimEventKind::ResumeStarted => "resume_started",
            PlaneClaimEventKind::ResumeSucceeded => "resume_succeeded",
            PlaneClaimEventKind::CheckpointUnavailable => "checkpoint_unavailable",
            PlaneClaimEventKind::ReplacementStarted => "replacement_started",
        }
    }
}

/// Why intake stops.
#[derive(Debug)]
pub enum PlaneIntakeError {
    Source(String),
    FenceLost(String),
    Mapping(ClaimedWorkMappingError),
    /// A harness failure, as text.
    Harness(String),
}

impl PlaneIntakeError {
    /// The message of the error.
    pub open spec fn text(self) -> Seq<char> {
        match self {
            PlaneIntakeError::Source(m) => "plane intake: "@ + m@,
            PlaneIntakeError::FenceLost(m) => "plane intake fence lost: "@ + m@,
            PlaneIntakeError::Mapping(e) => e@.text(),
            PlaneIntakeError::Harness(m) => m@,
        }
    }

    /// The message of the error.
    pub fn message(&self) -> (s: String)
        ensures
            s@ == self.text(),
    {
        match self {
            PlaneIntakeError::Source(m) => behind("plane intake: ", m.as_str()),
            PlaneIntakeError::FenceLost(m) => behind("plane intake fence lost: ", m.as_str()),
            PlaneIntakeError::Mapping(e) => e.message(),
            PlaneIntakeError::Harness(m) => m.clone(),
        }
    }
}

/// Whether an error is a source failure with a message.
pub open spec fn source_error(e: PlaneIntakeError, text: Seq<char>) -> bool {
    e matches PlaneIntakeError::Source(m) && m@ == text
}

/// Whether an error is a lost fence with a message.
pub open spec fn fence_error(e: PlaneIntakeError, text: Seq<char>) -> bool {
    e matches PlaneIntakeError::FenceLost(m) && m@ == text
}

pub(crate) fn source(text: &str) -> (e: PlaneIntakeError)
    ensures
        source_error(e, text@),
{
    PlaneIntakeError::Source(text.to_owned())
}

/// How plane work is served.
#[derive(Debug, Clone)]
pub struct PlaneServeOptions {
    pub poll_interval: u64,
    pub max_jobs: Option<u64>,
    pub claim_ttl: u64,
    pub heartbeat_interval: u64,
    pub ack_retry_limit: u32,
    /// Logical plane allowlist id for checkpoints stored under this host's state
    /// root. When absent, parks carry no checkpoint and resolved work starts a
    /// replacement attempt.
    pub checkpoint_store_id: Option<String>,
    pub policy: ClaimedWorkPolicy,
}

pub const MILLISECOND: u64 = 1000000;

pub const SECOND: u64 = 1000000000;

impl Default for PlaneServeOptions {
    fn default() -> (o: Self)
        ensures
            o.poll_interval == 200 * MILLISECOND,
            o.max_jobs is None,
            o.claim_ttl == 60 * SECOND,
            o.heartbeat_interval == 20 * SECOND,
            o.ack_retry_limit == 5,
            o.checkpoint_store_id is None,
            o.policy.expected_runtime@ == "shikigami"@,
            o.policy.max_task_bytes == DEFAULT_MAX_CLAIMED_TASK_BYTES,
            o.policy.max_continuation_bytes == DEFAULT_MAX_CONTINUATION_BYTES,
            o.policy.host_timeout_ms is None,
            !o.policy.allow_keep_workspace,
            serve_fault(o) is None,
    {
        let policy = ClaimedWorkPolicy::default();
        PlaneServeOptions {
            poll_interval: 200 * MILLISECOND,
            max_jobs: None,
            claim_ttl: 60 * SECOND,
            heartbeat_interval: 60 * SECOND / 3,
            ack_retry_limit: 5,
            checkpoint_store_id: None,
            policy,
        }
    }
}

/// Why options cannot be served with.
pub open spec fn serve_fault(o: PlaneServeOptions) -> Option<Seq<char>> {
    if o.claim_ttl == 0 {
        Some("claim_ttl must be greater than zero"@)
    } else if o.heartbeat_interval == 0 || o.heartbeat_interval >= o.claim_ttl {
        Some("heartbeat_interval must be positive and shorter than claim_ttl"@)
    } else if o.ack_retry_limit == 0 {
        Some("ack_retry_limit must be greater than zero"@)
    } else {
        None
    }
}

/// Whether plane work can be served with the options.
pub fn check_serve_options(options: &PlaneServeOptions) -> (r: Result<(), PlaneIntakeError>)
    ensures
        match serve_fault(*options) {
            Some(m) => r matches Err(e) && source_error(e, m),
            None => r is Ok,
        },
{
    if options.claim_ttl == 0 {
        return Err(source("claim_ttl must be greater than zero"));
    }
    if options.heartbeat_interval == 0 || options.heartbeat_interval >= options.claim_ttl {
        return Err(source("heartbeat_interval must be positive and shorter than claim_ttl"));
    }
    if options.ack_retry_limit == 0 {
        return Err(source("ack_retry_limit must be greater than zero"));
    }
    Ok(())
}

/// Work that names no task of its own has the one that its artifacts were resolved to: it
/// needs at least one artifact, each named by a text that is not blank, and a resolution that
/// is not blank. What lacks is told.
pub proof fn task_is_resolved_from_artifacts(params: JsonModel, resolved: Option<Seq<char>>)
    requires
        member(params, "task"@) is None || member(params, "task"@) == Some(JsonModel::Null),
    ensures
        ({
            let refs = member(params, "artifact_refs"@);
            let named = refs is Some && refs->0 is List && forall|i: int|
                0 <= i < refs->0->List_0.len() ==> (#[trigger] refs->0->List_0[i]) is Text
                    && !blank(refs->0->List_0[i]->Text_0);
            let task = claimed_task(params, resolved);
            &&& refs is None || (named && refs->0->List_0.len() == 0) ==> task
                == Err::<Seq<char>, MappingFault>(MappingFault::MissingTask)
            &&& refs is Some && !named ==> task == Err::<Seq<char>, MappingFault>(
                MappingFault::InvalidArtifactRefs,
            )
            &&& named && refs->0->List_0.len() > 0 && resolved is Some && !blank(resolved->0)
                ==> task == Ok::<Seq<char>, MappingFault>(resolved->0)
            &&& named && refs->0->List_0.len() > 0 && (resolved is None || blank(resolved->0))
                ==> task == Err::<Seq<char>, MappingFault>(
                MappingFault::ArtifactResolutionRequired,
            )
        }),
{
    let refs = member(params, "artifact_refs"@);
    if refs is Some && refs->0 is List {
        let v = refs->0->List_0;
        let named = forall|i: int|
            0 <= i < v.len() ==> (#[trigger] v[i]) is Text && !blank(v[i]->Text_0);
        assert(refs_valid(v) == named);
    }
}

/// A refusal names what was wrong: the field that is blank, the kind, the status or the
/// runtime that is another, the length of the task.
pub proof fn refusal_names_its_cause(
    work: ClaimedPlaneWork,
    policy: ClaimedWorkPolicy,
    payload: JsonModel,
    params: JsonModel,
)
    ensures
        envelope_fault(work, policy) matches Some(MappingFault::InvalidKind(k)) ==> k == work.kind@
            && k != RUNTIME_DISPATCH_KIND@,
        envelope_fault(work, policy) matches Some(MappingFault::InvalidStatus(s)) ==> s
            == work.status@ && s != CLAIMED_STATUS@,
        envelope_fault(work, policy) is None <==> !blank(work.effect_id@) && !blank(
            work.instance_id@,
        ) && !blank(work.operation_id@) && work.kind@ == RUNTIME_DISPATCH_KIND@ && work.status@
            == CLAIMED_STATUS@ && !blank(policy.expected_runtime@),
        payload_fault(work, policy, payload) matches Some(
            MappingFault::RuntimeMismatch { expected, actual },
        ) ==> expected == policy.expected_runtime@ && actual != expected,
        map_parameters(work, policy, params) matches Err(
            MappingFault::TaskTooLarge { actual, maximum },
        ) ==> maximum == policy.max_task_bytes && actual > maximum,
{
}

/// Plane work is served just where a claim lasts, its heartbeat beats within its life, and an
/// acknowledgement is tried at least once.
pub proof fn work_is_served_with_a_beating_heart(o: PlaneServeOptions)
    ensures
        serve_fault(o) is None <==> o.claim_ttl > 0 && 0 < o.heartbeat_interval < o.claim_ttl
            && o.ack_retry_limit > 0,
{
}

} // verus!
