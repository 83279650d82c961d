//! Durable local run registry and control markers.
//!
//! The registry is host-local operational state. Governed operation truth still
//! belongs to the configured governance plane. What stands on disk for one run
//! is a [`RunSlot`]; the registry decides how each operation changes it.
use vstd::prelude::*;
use vstd::string::*;
#[allow(unused_imports)]
use vstd::utf8::*;

use crate::checkpoint::is_safe_run_id;
#[allow(unused_imports)]
use crate::checkpoint::safe_run_id;
use crate::digest::text_label;
#[allow(unused_imports)]
use crate::digest::sha256_label;
use crate::events::{event_detail, event_name, HarnessEvent};
use crate::model::{labelled, CostEstimate, TokenUsage};
use crate::run::resume::join_path;
#[allow(unused_imports)]
use crate::run::resume::joined;
use crate::run::{RunError, RunResult};
use crate::text::same;
#[allow(unused_imports)]
use crate::text::opt_view;

verus! {

pub const RUN_REGISTRY_SCHEMA_VERSION: u32 = 1;

pub const ACTIVE_HEARTBEAT_TTL_MS: u64 = 120000;

/// Why a registry operation was refused.
#[derive(Debug)]
pub enum RegistryError {
    Io(String),
    Parse(String),
    InvalidRunId,
    Missing(String),
    Active(String),
    NotActive(String),
    Lock,
}

impl RegistryError {
    /// The text of the error.
    pub open spec fn text(self) -> Seq<char> {
        match self {
            RegistryError::Io(m) => "run registry I/O: "@ + m@,
            RegistryError::Parse(m) => "run registry parse: "@ + m@,
            RegistryError::InvalidRunId => "invalid run id"@,
            RegistryError::Missing(id) => "run not found: "@ + id@,
            RegistryError::Active(id) => "run "@ + id@
                + " is still active; wait for it to terminate before cleanup or resume"@,
            RegistryError::NotActive(id) => "run "@ + id@ + " is not active"@,
            RegistryError::Lock => "run registry lock poisoned"@,
        }
    }

    /// The text of the error.
    pub fn message(&self) -> (s: String)
        ensures
            s@ == self.text(),
    {
        match self {
            RegistryError::Io(m) => labelled("run registry I/O: ", m),
            RegistryError::Parse(m) => labelled("run registry parse: ", m),
            RegistryError::InvalidRunId => "invalid run id".to_owned(),
            RegistryError::Missing(id) => labelled("run not found: ", id),
            RegistryError::Active(id) => {
                let mut s = labelled("run ", id);
                s.append(" is still active; wait for it to terminate before cleanup or resume");
                s
            },
            RegistryError::NotActive(id) => {
                let mut s = labelled("run ", id);
                s.append(" is not active");
                s
            },
            RegistryError::Lock => "run registry lock poisoned".to_owned(),
        }
    }

    /// Whether the error is `Missing` of the run.
    pub open spec fn is_missing(self, run_id: Seq<char>) -> bool {
        self matches RegistryError::Missing(id) && id@ == run_id
    }

    /// Whether the error is `Active` of the run.
    pub open spec fn is_active(self, run_id: Seq<char>) -> bool {
        self matches RegistryError::Active(id) && id@ == run_id
    }

    /// Whether the error is `NotActive` of the run.
    pub open spec fn is_not_active(self, run_id: Seq<char>) -> bool {
        self matches RegistryError::NotActive(id) && id@ == run_id
    }
}

/// What the registry keeps of a run. The task is kept as a digest only.
#[derive(Debug, Clone, PartialEq, Eq)]
pub struct RunRecord {
    pub schema_version: u32,
    pub run_id: String,
    /// `starting`, `running` or a terminal status.
    pub status: String,
    pub success: Option<bool>,
    pub termination: Option<String>,
    pub summary: String,
    pub task_digest: String,
    pub logical_operation_id: Option<String>,
    pub workspace: Option<String>,
    pub artifact_dir: Option<String>,
    pub started_at_ms: u64,
    pub last_started_at_ms: u64,
    pub finished_at_ms: Option<u64>,
    /// Informational: process ids can be reused.
    pub process_id: u32,
    /// Last local owner heartbeat: the resume and cleanup ownership lease.
    pub last_heartbeat_at_ms: u64,
    pub turns: u32,
    pub usage: TokenUsage,
    pub cost: Option<CostEstimate>,
    pub cancel_requested: bool,
}

/// What a record holds.
#[verifier::ext_equal]
pub struct RecordView {
    pub schema_version: u32,
    pub run_id: Seq<char>,
    pub status: Seq<char>,
    pub success: Option<bool>,
    pub termination: Option<Seq<char>>,
    pub summary: Seq<char>,
    pub task_digest: Seq<char>,
    pub logical_operation_id: Option<Seq<char>>,
    pub workspace: Option<Seq<char>>,
    pub artifact_dir: Option<Seq<char>>,
    pub started_at_ms: u64,
    pub last_started_at_ms: u64,
    pub finished_at_ms: Option<u64>,
    pub process_id: u32,
    pub last_heartbeat_at_ms: u64,
    pub turns: u32,
    pub usage: TokenUsage,
    pub cost: Option<Seq<char>>,
    pub cancel_requested: bool,
}

pub open spec fn cost_view(c: Option<CostEstimate>) -> Option<Seq<char>> {
    match c {
        Some(e) => Some(e.text@),
        None => None,
    }
}

impl View for RunRecord {
    type V = RecordView;

    open spec fn view(&self) -> RecordView {
        RecordView {
            schema_version: self.schema_version,
            run_id: self.run_id@,
            status: self.status@,
            success: self.success,
            termination: opt_view(self.termination),
            summary: self.summary@,
            task_digest: self.task_digest@,
            logical_operation_id: opt_view(self.logical_operation_id),
            workspace: opt_view(self.workspace),
            artifact_dir: opt_view(self.artifact_dir),
            started_at_ms: self.started_at_ms,
            last_started_at_ms: self.last_started_at_ms,
            finished_at_ms: self.finished_at_ms,
            process_id: self.process_id,
            last_heartbeat_at_ms: self.last_heartbeat_at_ms,
            turns: self.turns,
            usage: self.usage,
            cost: cost_view(self.cost),
            cancel_requested: self.cancel_requested,
        }
    }
}

pub open spec fn record_views(v: Seq<RunRecord>) -> Seq<RecordView> {
    Seq::new(v.len(), |i: int| v[i]@)
}

/// One line of a run's journal.
#[derive(Debug, Clone, PartialEq, Eq)]
pub struct RunEventRecord {
    pub schema_version: u32,
    pub timestamp_ms: u64,
    pub event: String,
    pub detail: Option<String>,
}

/// What stands on disk for one run: its record, whether a cancel marker is set,
/// and when the owner lease was last written.
#[derive(Debug)]
pub struct RunSlot {
    pub record: Option<RunRecord>,
    pub cancel_marker: bool,
    pub owner_ms: Option<u64>,
}

/// What a slot holds.
#[verifier::ext_equal]
pub struct SlotView {
    pub record: Option<RecordView>,
    pub cancel_marker: bool,
    pub owner_ms: Option<u64>,
}

impl View for RunSlot {
    type V = SlotView;

    open spec fn view(&self) -> SlotView {
        SlotView {
            record: match self.record {
                Some(r) => Some(r@),
                None => None,
            },
            cancel_marker: self.cancel_marker,
            owner_ms: self.owner_ms,
        }
    }
}

/// Whether a status is one of a run that goes on.
pub open spec fn active_status(status: Seq<char>) -> bool {
    status == "starting"@ || status == "running"@
}

/// The time that has passed since `then`; none where the clock went back.
pub open spec fn age(now: u64, then: u64) -> int {
    if now >= then {
        now - then
    } else {
        0
    }
}

/// Whether the record's heartbeat is within the lease time.
pub open spec fn heartbeat_recent(r: RecordView, now: u64) -> bool {
    age(now, r.last_heartbeat_at_ms) < ACTIVE_HEARTBEAT_TTL_MS
}

/// Whether an owner lease is known to be within the lease time.
pub open spec fn owner_recent(owner_ms: Option<u64>, now: u64) -> bool {
    owner_ms is Some && owner_ms->0 <= now && now - owner_ms->0 < ACTIVE_HEARTBEAT_TTL_MS
}

/// Whether an owner lease is known to have run out.
pub open spec fn owner_stale(owner_ms: Option<u64>, now: u64) -> bool {
    owner_ms is Some && owner_ms->0 <= now && now - owner_ms->0 >= ACTIVE_HEARTBEAT_TTL_MS
}

/// Whether a run may be started: it is not active, and nobody holds its lease.
pub open spec fn may_start(slot: SlotView, now: u64) -> bool {
    &&& !(slot.record is Some && active_status(slot.record->0.status) && heartbeat_recent(
        slot.record->0,
        now,
    ))
    &&& (slot.owner_ms is None || owner_stale(slot.owner_ms, now))
}

/// A non-empty operation id.
pub open spec fn given(id: Option<&str>) -> Option<Seq<char>> {
    match id {
        Some(s) => if s@.len() > 0 {
            Some(s@)
        } else {
            None
        },
        None => None,
    }
}

pub open spec fn str_view(o: Option<&str>) -> Option<Seq<char>> {
    match o {
        Some(s) => Some(s@),
        None => None,
    }
}

/// The record of a run that starts now: a new one, or the retained one with a
/// fresh attempt.
pub open spec fn started(
    existing: Option<RecordView>,
    run_id: Seq<char>,
    task: Seq<char>,
    operation: Option<Seq<char>>,
    workspace: Option<Seq<char>>,
    now: u64,
    process_id: u32,
) -> RecordView {
    RecordView {
        schema_version: match existing {
            Some(r) => r.schema_version,
            None => RUN_REGISTRY_SCHEMA_VERSION,
        },
        run_id: match existing {
            Some(r) => r.run_id,
            None => run_id,
        },
        status: "running"@,
        success: None,
        termination: None,
        summary: Seq::empty(),
        task_digest: sha256_label(encode_utf8(task)),
        logical_operation_id: match operation {
            Some(id) => Some(id),
            None => match existing {
                Some(r) => r.logical_operation_id,
                None => None,
            },
        },
        workspace,
        artifact_dir: None,
        started_at_ms: match existing {
            Some(r) => r.started_at_ms,
            None => now,
        },
        last_started_at_ms: now,
        finished_at_ms: None,
        process_id,
        last_heartbeat_at_ms: now,
        turns: 0,
        usage: (TokenUsage { input_tokens: 0, output_tokens: 0 }),
        cost: None,
        cancel_requested: false,
    }
}

/// The record of a run that ended with a result.
pub open spec fn finished(r: RecordView, result: RunResult, now: u64) -> RecordView {
    RecordView {
        status: result.termination.name(),
        success: Some(result.success),
        termination: Some(result.termination.name()),
        summary: result.summary@,
        workspace: Some(result.workspace@),
        artifact_dir: opt_view(result.artifact_dir),
        finished_at_ms: Some(now),
        turns: result.turns,
        usage: result.usage,
        cost: cost_view(result.cost),
        cancel_requested: false,
        last_heartbeat_at_ms: now,
        ..r
    }
}

/// The record of a run that ended with an error.
pub open spec fn failed(r: RecordView, error: RunError, now: u64) -> RecordView {
    RecordView {
        status: error.ends_as().name(),
        success: Some(false),
        termination: Some(error.ends_as().name()),
        summary: error.text(),
        finished_at_ms: Some(now),
        cancel_requested: false,
        last_heartbeat_at_ms: now,
        ..r
    }
}

fn copy_option(o: &Option<String>) -> (r: Option<String>)
    ensures
        opt_view(r) == opt_view(*o),
{
    match o {
        Some(s) => Some(s.clone()),
        None => None,
    }
}

fn own_option(o: Option<&str>) -> (r: Option<String>)
    ensures
        opt_view(r) == str_view(o),
{
    match o {
        Some(s) => Some(s.to_owned()),
        None => None,
    }
}

fn given_option(o: Option<&str>) -> (r: Option<String>)
    ensures
        opt_view(r) == given(o),
{
    match o {
        Some(s) => if s.is_empty() {
            None
        } else {
            Some(s.to_owned())
        },
        None => None,
    }
}

fn copy_cost(o: &Option<CostEstimate>) -> (r: Option<CostEstimate>)
    ensures
        cost_view(r) == cost_view(*o),
{
    match o {
        Some(c) => Some(CostEstimate { text: c.text.clone() }),
        None => None,
    }
}

impl RunRecord {
    /// The same record again.
    pub fn duplicate(&self) -> (r: RunRecord)
        ensures
            r@ == self@,
    {
        RunRecord {
            schema_version: self.schema_version,
            run_id: self.run_id.clone(),
            status: self.status.clone(),
            success: self.success,
            termination: copy_option(&self.termination),
            summary: self.summary.clone(),
            task_digest: self.task_digest.clone(),
            logical_operation_id: copy_option(&self.logical_operation_id),
            workspace: copy_option(&self.workspace),
            artifact_dir: copy_option(&self.artifact_dir),
            started_at_ms: self.started_at_ms,
            last_started_at_ms: self.last_started_at_ms,
            finished_at_ms: self.finished_at_ms,
            process_id: self.process_id,
            last_heartbeat_at_ms: self.last_heartbeat_at_ms,
            turns: self.turns,
            usage: self.usage,
            cost: copy_cost(&self.cost),
            cancel_requested: self.cancel_requested,
        }
    }

    /// Whether the run goes on.
    pub fn is_active(&self) -> (r: bool)
        ensures
            r == active_status(self.status@),
    {
        same(self.status.as_str(), "starting") || same(self.status.as_str(), "running")
    }

    fn is_recent(&self, now: u64) -> (r: bool)
        ensures
            r == heartbeat_recent(self@, now),
    {
        let passed: u64 = if now >= self.last_heartbeat_at_ms {
            now - self.last_heartbeat_at_ms
        } else {
            0
        };
        passed < ACTIVE_HEARTBEAT_TTL_MS
    }
}

fn validate_run_id(run_id: &str) -> (r: Result<(), RegistryError>)
    ensures
        if safe_run_id(run_id@) {
            r is Ok
        } else {
            r == Err::<(), RegistryError>(RegistryError::InvalidRunId)
        },
{
    if is_safe_run_id(run_id) {
        Ok(())
    } else {
        Err(RegistryError::InvalidRunId)
    }
}

/// Why an operation on the slot of a run cannot go on: a bad id or no record.
pub open spec fn refused_before(slot: SlotView, run_id: Seq<char>, e: RegistryError) -> bool {
    if !safe_run_id(run_id) {
        e == RegistryError::InvalidRunId
    } else {
        slot.record is None && e.is_missing(run_id)
    }
}

/// Whether the run has a record under a safe id.
pub open spec fn known(slot: SlotView, run_id: Seq<char>) -> bool {
    safe_run_id(run_id) && slot.record is Some
}

/// The error of an owner lease that is not there to be refreshed.
pub open spec fn lease_gone(e: RegistryError) -> bool {
    e matches RegistryError::Io(m) && m@ == "No such file or directory (os error 2)"@
}

/// Takes the record out of the slot of a known run.
fn take_record(slot: &mut RunSlot, run_id: &str) -> (r: Result<RunRecord, RegistryError>)
    ensures
        match r {
            Ok(record) => known(old(slot)@, run_id@) && old(slot)@.record == Some(record@)
                && final(slot)@ == (SlotView { record: None, ..old(slot)@ }),
            Err(e) => !known(old(slot)@, run_id@) && refused_before(old(slot)@, run_id@, e)
                && final(slot)@ == old(slot)@,
        },
{
    match validate_run_id(run_id) {
        Err(e) => return Err(e),
        Ok(_) => {},
    }
    match slot.record.take() {
        Some(record) => Ok(record),
        None => Err(RegistryError::Missing(run_id.to_owned())),
    }
}

fn touch_owner(slot: &mut RunSlot, now: u64) -> (r: Result<(), RegistryError>)
    ensures
        final(slot)@.record == old(slot)@.record,
        final(slot)@.cancel_marker == old(slot)@.cancel_marker,
        match r {
            Ok(_) => old(slot)@.owner_ms is Some && final(slot)@.owner_ms == Some(now),
            Err(e) => old(slot)@.owner_ms is None && final(slot)@.owner_ms is None && lease_gone(e),
        },
{
    if slot.owner_ms.is_none() {
        return Err(RegistryError::Io("No such file or directory (os error 2)".to_owned()));
    }
    slot.owner_ms = Some(now);
    Ok(())
}

/// The registry of one state root.
#[derive(Debug, Clone)]
pub struct RunRegistry {
    pub runs_root: String,
    pub cancel_root: String,
}

impl RunRegistry {
    /// The registry below a state root.
    pub fn new(state_root: &str) -> (r: Self)
        ensures
            r.runs_root@ == joined(state_root@, "runs"@),
            r.cancel_root@ == joined(state_root@, "run-controls"@),
    {
        RunRegistry {
            runs_root: join_path(state_root, "runs"),
            cancel_root: join_path(state_root, "run-controls"),
        }
    }

    /// The directory that holds all runs.
    pub fn runs_root(&self) -> (r: &str)
        ensures
            r@ == self.runs_root@,
    {
        self.runs_root.as_str()
    }

    /// The directory of a run. A safe id names a direct child of the root.
    pub fn run_dir(&self, run_id: &str) -> (r: Result<String, RegistryError>)
        ensures
            if safe_run_id(run_id@) {
                r matches Ok(d) && d@ == joined(self.runs_root@, run_id@)
            } else {
                r == Err::<String, RegistryError>(RegistryError::InvalidRunId)
            },
    {
        match validate_run_id(run_id) {
            Err(e) => Err(e),
            Ok(_) => Ok(join_path(self.runs_root.as_str(), run_id)),
        }
    }

    /// Starts an attempt of a run. A run that is active, or whose owner lease is
    /// not known to have run out, cannot be started again.
    pub fn start(
        &self,
        slot: &mut RunSlot,
        run_id: &str,
        task: &str,
        logical_operation_id: Option<&str>,
        workspace: Option<&str>,
        now: u64,
        process_id: u32,
    ) -> (r: Result<(), RegistryError>)
        ensures
            match r {
                Ok(_) => safe_run_id(run_id@) && may_start(old(slot)@, now) && final(slot)@ == (
                SlotView {
                    record: Some(
                        started(
                            old(slot)@.record,
                            run_id@,
                            task@,
                            given(logical_operation_id),
                            str_view(workspace),
                            now,
                            process_id,
                        ),
                    ),
                    cancel_marker: false,
                    owner_ms: Some(now),
                }),
                Err(e) => final(slot)@ == old(slot)@ && if !safe_run_id(run_id@) {
                    e == RegistryError::InvalidRunId
                } else {
                    !may_start(old(slot)@, now) && e.is_active(run_id@)
                },
            },
    {
        match validate_run_id(run_id) {
            Err(e) => return Err(e),
            Ok(_) => {},
        }
        let active = match &slot.record {
            Some(record) => record.is_active() && record.is_recent(now),
            None => false,
        };
        if active {
            return Err(RegistryError::Active(run_id.to_owned()));
        }
        if let Some(modified) = slot.owner_ms {
            let stale = now >= modified && now - modified >= ACTIVE_HEARTBEAT_TTL_MS;
            if !stale {
                return Err(RegistryError::Active(run_id.to_owned()));
            }
        }
        let digest = text_label(task);
        let operation = given_option(logical_operation_id);
        let place = own_option(workspace);
        let record = match slot.record.take() {
            Some(previous) => {
                let logical_operation_id = match operation {
                    Some(id) => Some(id),
                    None => previous.logical_operation_id,
                };
                RunRecord {
                    schema_version: previous.schema_version,
                    run_id: previous.run_id,
                    status: "running".to_owned(),
                    success: None,
                    termination: None,
                    summary: String::new(),
                    task_digest: digest,
                    logical_operation_id,
                    workspace: place,
                    artifact_dir: None,
                    started_at_ms: previous.started_at_ms,
                    last_started_at_ms: now,
                    finished_at_ms: None,
                    process_id,
                    last_heartbeat_at_ms: now,
                    turns: 0,
                    usage: TokenUsage { input_tokens: 0, output_tokens: 0 },
                    cost: None,
                    cancel_requested: false,
                }
            },
            None => RunRecord {
                schema_version: RUN_REGISTRY_SCHEMA_VERSION,
                run_id: run_id.to_owned(),
                status: "running".to_owned(),
                success: None,
                termination: None,
                summary: String::new(),
                task_digest: digest,
                logical_operation_id: operation,
                workspace: place,
                artifact_dir: None,
                started_at_ms: now,
                last_started_at_ms: now,
                finished_at_ms: None,
                process_id,
                last_heartbeat_at_ms: now,
                turns: 0,
                usage: TokenUsage { input_tokens: 0, output_tokens: 0 },
                cost: None,
                cancel_requested: false,
            },
        };
        assert(record@ =~= started(
            old(slot)@.record,
            run_id@,
            task@,
            given(logical_operation_id),
            str_view(workspace),
            now,
            process_id,
        ));
        slot.record = Some(record);
        slot.cancel_marker = false;
        slot.owner_ms = Some(now);
        Ok(())
    }

    /// Records where a run works.
    pub fn set_workspace(&self, slot: &mut RunSlot, run_id: &str, workspace: &str) -> (r: Result<
        (),
        RegistryError,
    >)
        ensures
            match r {
                Ok(_) => known(old(slot)@, run_id@) && final(slot)@ == (SlotView {
                    record: Some(
                        RecordView { workspace: Some(workspace@), ..old(slot)@.record->0 },
                    ),
                    ..old(slot)@
                }),
                Err(e) => !known(old(slot)@, run_id@) && refused_before(old(slot)@, run_id@, e)
                    && final(slot)@ == old(slot)@,
            },
    {
        match take_record(slot, run_id) {
            Err(e) => Err(e),
            Ok(mut record) => {
                record.workspace = Some(workspace.to_owned());
                assert(record@ =~= (RecordView {
                    workspace: Some(workspace@),
                    ..old(slot)@.record->0
                }));
                slot.record = Some(record);
                Ok(())
            },
        }
    }

    /// Records the progress of a running attempt and refreshes its lease.
    pub fn update_running(
        &self,
        slot: &mut RunSlot,
        run_id: &str,
        task: &str,
        logical_operation_id: Option<&str>,
        workspace: &str,
        turns: u32,
        now: u64,
    ) -> (r: Result<(), RegistryError>)
        ensures
            if known(old(slot)@, run_id@) {
                &&& final(slot)@.record == Some(
                    RecordView {
                        status: "running"@,
                        task_digest: sha256_label(encode_utf8(task@)),
                        logical_operation_id: match given(logical_operation_id) {
                            Some(id) => Some(id),
                            None => old(slot)@.record->0.logical_operation_id,
                        },
                        workspace: Some(workspace@),
                        turns,
                        last_heartbeat_at_ms: now,
                        ..old(slot)@.record->0
                    },
                )
                &&& final(slot)@.cancel_marker == old(slot)@.cancel_marker
                &&& match r {
                    Ok(_) => old(slot)@.owner_ms is Some && final(slot)@.owner_ms == Some(now),
                    Err(e) => old(slot)@.owner_ms is None && final(slot)@.owner_ms is None
                        && lease_gone(e),
                }
            } else {
                r matches Err(e) && refused_before(old(slot)@, run_id@, e) && final(slot)@ == old(
                    slot,
                )@
            },
    {
        match take_record(slot, run_id) {
            Err(e) => Err(e),
            Ok(mut record) => {
                record.status = "running".to_owned();
                record.task_digest = text_label(task);
                match given_option(logical_operation_id) {
                    Some(id) => {
                        record.logical_operation_id = Some(id);
                    },
                    None => {},
                }
                record.workspace = Some(workspace.to_owned());
                record.turns = turns;
                record.last_heartbeat_at_ms = now;
                assert(record@ =~= (RecordView {
                    status: "running"@,
                    task_digest: sha256_label(encode_utf8(task@)),
                    logical_operation_id: match given(logical_operation_id) {
                        Some(id) => Some(id),
                        None => old(slot)@.record->0.logical_operation_id,
                    },
                    workspace: Some(workspace@),
                    turns,
                    last_heartbeat_at_ms: now,
                    ..old(slot)@.record->0
                }));
                slot.record = Some(record);
                touch_owner(slot, now)
            },
        }
    }

    /// Refreshes the local ownership lease of an active run.
    pub fn heartbeat(&self, slot: &mut RunSlot, run_id: &str, now: u64) -> (r: Result<
        (),
        RegistryError,
    >)
        ensures
            if !known(old(slot)@, run_id@) {
                r matches Err(e) && refused_before(old(slot)@, run_id@, e) && final(slot)@ == old(
                    slot,
                )@
            } else if !active_status(old(slot)@.record->0.status) {
                r matches Err(e) && e.is_not_active(run_id@) && final(slot)@ == old(slot)@
            } else {
                &&& final(slot)@.record == Some(
                    RecordView { last_heartbeat_at_ms: now, ..old(slot)@.record->0 },
                )
                &&& final(slot)@.cancel_marker == old(slot)@.cancel_marker
                &&& match r {
                    Ok(_) => old(slot)@.owner_ms is Some && final(slot)@.owner_ms == Some(now),
                    Err(e) => old(slot)@.owner_ms is None && final(slot)@.owner_ms is None
                        && lease_gone(e),
                }
            },
    {
        match take_record(slot, run_id) {
            Err(e) => Err(e),
            Ok(mut record) => {
                if !record.is_active() {
                    slot.record = Some(record);
                    return Err(RegistryError::NotActive(run_id.to_owned()));
                }
                record.last_heartbeat_at_ms = now;
                assert(record@ =~= (RecordView {
                    last_heartbeat_at_ms: now,
                    ..old(slot)@.record->0
                }));
                slot.record = Some(record);
                touch_owner(slot, now)
            },
        }
    }

    /// Records where a run's artifacts are kept.
    pub fn set_artifact_dir(&self, slot: &mut RunSlot, run_id: &str, artifact_dir: &str) -> (r:
        Result<(), RegistryError>)
        ensures
            match r {
                Ok(_) => known(old(slot)@, run_id@) && final(slot)@ == (SlotView {
                    record: Some(
                        RecordView { artifact_dir: Some(artifact_dir@), ..old(slot)@.record->0 },
                    ),
                    ..old(slot)@
                }),
                Err(e) => !known(old(slot)@, run_id@) && refused_before(old(slot)@, run_id@, e)
                    && final(slot)@ == old(slot)@,
            },
    {
        match take_record(slot, run_id) {
            Err(e) => Err(e),
            Ok(mut record) => {
                record.artifact_dir = Some(artifact_dir.to_owned());
                assert(record@ =~= (RecordView {
                    artifact_dir: Some(artifact_dir@),
                    ..old(slot)@.record->0
                }));
                slot.record = Some(record);
                Ok(())
            },
        }
    }

    /// Records the result of a run: terminal status, no cancel request, and no
    /// owner lease any more.
    pub fn finish_result(&self, slot: &mut RunSlot, result: &RunResult, now: u64) -> (r: Result<
        (),
        RegistryError,
    >)
        ensures
            match r {
                Ok(_) => known(old(slot)@, result.run_id@) && final(slot)@ == (SlotView {
                    record: Some(finished(old(slot)@.record->0, *result, now)),
                    cancel_marker: false,
                    owner_ms: None,
                }),
                Err(e) => !known(old(slot)@, result.run_id@) && refused_before(
                    old(slot)@,
                    result.run_id@,
                    e,
                ) && final(slot)@ == old(slot)@,
            },
    {
        match take_record(slot, result.run_id.as_str()) {
            Err(e) => Err(e),
            Ok(mut record) => {
                record.status = result.termination.as_str().to_owned();
                record.success = Some(result.success);
                record.termination = Some(result.termination.as_str().to_owned());
                record.summary = result.summary.clone();
                record.workspace = Some(result.workspace.clone());
                record.artifact_dir = copy_option(&result.artifact_dir);
                record.finished_at_ms = Some(now);
                record.turns = result.turns;
                record.usage = result.usage;
                record.cost = copy_cost(&result.cost);
                record.cancel_requested = false;
                record.last_heartbeat_at_ms = now;
                assert(record@ =~= finished(old(slot)@.record->0, *result, now));
                slot.record = Some(record);
                slot.cancel_marker = false;
                slot.owner_ms = None;
                Ok(())
            },
        }
    }

    /// Records the failure of a run.
    pub fn finish_error(&self, slot: &mut RunSlot, run_id: &str, error: &RunError, now: u64) -> (r:
        Result<(), RegistryError>)
        ensures
            match r {
                Ok(_) => known(old(slot)@, run_id@) && final(slot)@ == (SlotView {
                    record: Some(failed(old(slot)@.record->0, *error, now)),
                    cancel_marker: false,
                    owner_ms: None,
                }),
                Err(e) => !known(old(slot)@, run_id@) && refused_before(old(slot)@, run_id@, e)
                    && final(slot)@ == old(slot)@,
            },
    {
        match take_record(slot, run_id) {
            Err(e) => Err(e),
            Ok(mut record) => {
                record.status = error.termination().as_str().to_owned();
                record.success = Some(false);
                record.termination = Some(error.termination().as_str().to_owned());
                record.summary = error.message();
                record.finished_at_ms = Some(now);
                record.cancel_requested = false;
                record.last_heartbeat_at_ms = now;
                assert(record@ =~= failed(old(slot)@.record->0, *error, now));
                slot.record = Some(record);
                slot.cancel_marker = false;
                slot.owner_ms = None;
                Ok(())
            },
        }
    }

    /// The record of a run.
    pub fn load(&self, slot: &RunSlot, run_id: &str) -> (r: Result<RunRecord, RegistryError>)
        ensures
            match r {
                Ok(record) => known(slot@, run_id@) && slot@.record == Some(record@),
                Err(e) => !known(slot@, run_id@) && refused_before(slot@, run_id@, e),
            },
    {
        match validate_run_id(run_id) {
            Err(e) => return Err(e),
            Ok(_) => {},
        }
        match &slot.record {
            Some(record) => Ok(record.duplicate()),
            None => Err(RegistryError::Missing(run_id.to_owned())),
        }
    }

    /// Asks an active run to stop.
    pub fn cancel(&self, slot: &mut RunSlot, run_id: &str) -> (r: Result<(), RegistryError>)
        ensures
            if !known(old(slot)@, run_id@) {
                r matches Err(e) && refused_before(old(slot)@, run_id@, e) && final(slot)@ == old(
                    slot,
                )@
            } else if !active_status(old(slot)@.record->0.status) {
                r matches Err(e) && e.is_not_active(run_id@) && final(slot)@ == old(slot)@
            } else {
                r is Ok && final(slot)@ == (SlotView {
                    record: Some(RecordView { cancel_requested: true, ..old(slot)@.record->0 }),
                    cancel_marker: true,
                    owner_ms: old(slot)@.owner_ms,
                })
            },
    {
        match take_record(slot, run_id) {
            Err(e) => Err(e),
            Ok(mut record) => {
                if !record.is_active() {
                    slot.record = Some(record);
                    return Err(RegistryError::NotActive(run_id.to_owned()));
                }
                record.cancel_requested = true;
                assert(record@ =~= (RecordView {
                    cancel_requested: true,
                    ..old(slot)@.record->0
                }));
                slot.record = Some(record);
                slot.cancel_marker = true;
                Ok(())
            },
        }
    }

    /// Whether a cancel marker is set for a run.
    pub fn cancel_requested(&self, slot: &RunSlot) -> (r: bool)
        ensures
            r == slot@.cancel_marker,
    {
        slot.cancel_marker
    }

    /// Takes the cancel marker of a run away.
    pub fn clear_cancel(&self, slot: &mut RunSlot, run_id: &str) -> (r: Result<(), RegistryError>)
        ensures
            if safe_run_id(run_id@) {
                r is Ok && final(slot)@ == (SlotView { cancel_marker: false, ..old(slot)@ })
            } else {
                r == Err::<(), RegistryError>(RegistryError::InvalidRunId) && final(slot)@ == old(
                    slot,
                )@
            },
    {
        match validate_run_id(run_id) {
            Err(e) => Err(e),
            Ok(_) => {
                slot.cancel_marker = false;
                Ok(())
            },
        }
    }

    /// The journal of a run. A run without a journal has an empty one; a run
    /// without a record has none.
    pub fn event_log(&self, slot: &RunSlot, run_id: &str, journal: Option<String>) -> (r: Result<
        String,
        RegistryError,
    >)
        ensures
            if known(slot@, run_id@) {
                r matches Ok(text) && text@ == (match journal {
                    Some(t) => t@,
                    None => Seq::empty(),
                })
            } else {
                r matches Err(e) && refused_before(slot@, run_id@, e)
            },
    {
        match self.load(slot, run_id) {
            Err(e) => Err(e),
            Ok(_) => Ok(
                match journal {
                    Some(text) => text,
                    None => String::new(),
                },
            ),
        }
    }

    /// The journal line of an event. A run with an unsafe id has no journal.
    pub fn append_event(&self, run_id: &str, event: &HarnessEvent, now: u64) -> (r: Option<
        RunEventRecord,
    >)
        ensures
            match r {
                Some(line) => safe_run_id(run_id@) && line.schema_version
                    == RUN_REGISTRY_SCHEMA_VERSION && line.timestamp_ms == now && line.event@
                    == event.kind() && opt_view(line.detail) == Some(event.kept()),
                None => !safe_run_id(run_id@),
            },
    {
        if !is_safe_run_id(run_id) {
            return None;
        }
        Some(
            RunEventRecord {
                schema_version: RUN_REGISTRY_SCHEMA_VERSION,
                timestamp_ms: now,
                event: event_name(event).to_owned(),
                detail: event_detail(event),
            },
        )
    }

    /// Cleans a run up. A run with a live lease is not removed; with `force` it
    /// is asked to stop. A stale lease means that no live process can be using
    /// the run: it is then left with nothing, and its directory is to go.
    pub fn clean(&self, slot: &mut RunSlot, run_id: &str, force: bool, now: u64) -> (r: Result<
        (),
        RegistryError,
    >)
        ensures
            if !known(old(slot)@, run_id@) {
                r matches Err(e) && refused_before(old(slot)@, run_id@, e) && final(slot)@ == old(
                    slot,
                )@
            } else if lease_live(old(slot)@, now) {
                r matches Err(e) && e.is_active(run_id@) && final(slot)@ == if force {
                    SlotView {
                        record: Some(RecordView { cancel_requested: true, ..old(slot)@.record->0 }),
                        cancel_marker: true,
                        owner_ms: old(slot)@.owner_ms,
                    }
                } else {
                    old(slot)@
                }
            } else {
                r == Ok::<(), RegistryError>(()) && final(slot)@ == (
                SlotView { record: None, cancel_marker: false, owner_ms: None })
            },
    {
        match take_record(slot, run_id) {
            Err(e) => Err(e),
            Ok(mut record) => {
                let owner_is_recent = match slot.owner_ms {
                    Some(modified) => now >= modified && now - modified < ACTIVE_HEARTBEAT_TTL_MS,
                    None => false,
                };
                if record.is_active() && (record.is_recent(now) || owner_is_recent) {
                    if force {
                        record.cancel_requested = true;
                        assert(record@ =~= (RecordView {
                            cancel_requested: true,
                            ..old(slot)@.record->0
                        }));
                        slot.cancel_marker = true;
                    }
                    slot.record = Some(record);
                    return Err(RegistryError::Active(run_id.to_owned()));
                }
                slot.cancel_marker = false;
                slot.owner_ms = None;
                Ok(())
            },
        }
    }

    /// The records, the latest started first; records that started together keep
    /// their order.
    pub fn list(&self, records: Vec<RunRecord>) -> (out: Vec<RunRecord>)
        ensures
            latest_first(record_views(out@)),
            record_views(out@).to_multiset() == record_views(records@).to_multiset(),
            stable_from(record_views(records@), record_views(out@)),
    {
        let ghost all = record_views(records@);
        let mut rest = records;
        let mut out: Vec<RunRecord> = Vec::new();
        assert(record_views(rest@) =~= all.take(rest@.len() as int));
        assert(record_views(out@) =~= Seq::<RecordView>::empty());
        assert(all.skip(all.len() as int) =~= Seq::<RecordView>::empty());
        while rest.len() > 0
            invariant
                rest@.len() <= all.len(),
                record_views(rest@) == all.take(rest@.len() as int),
                latest_first(record_views(out@)),
                record_views(out@).to_multiset() == all.skip(rest@.len() as int).to_multiset(),
                stable_from(all.skip(rest@.len() as int), record_views(out@)),
            decreases rest@.len(),
        {
            let ghost n = rest@.len() as int;
            let record = match rest.pop() {
                Some(record) => record,
                None => {
                    return out;
                },
            };
            let ghost sorted = record_views(out@);
            assert(all.take(n)[n - 1] == record@);
            assert(all[n - 1] == record@);
            let mut i: usize = 0;
            while i < out.len() && out[i].last_started_at_ms > record.last_started_at_ms
                invariant
                    i <= out@.len(),
                    sorted == record_views(out@),
                    forall|k: int|
                        0 <= k < i ==> (#[trigger] sorted[k]).last_started_at_ms
                            > record@.last_started_at_ms,
                decreases out@.len() - i,
            {
                i = i + 1;
            }
            proof {
                insert_in_order(all.skip(n), sorted, i as int, record@);
                assert(all.skip(n - 1) =~= seq![record@] + all.skip(n));
            }
            out.insert(i, record);
            assert(record_views(out@) =~= sorted.insert(i as int, record@));
            assert(record_views(rest@) =~= all.take(n - 1));
        }
        assert(all.skip(0) =~= all);
        out
    }
}

/// Whether some process may still be using the run.
pub open spec fn lease_live(slot: SlotView, now: u64) -> bool {
    active_status(slot.record->0.status) && (heartbeat_recent(slot.record->0, now) || owner_recent(
        slot.owner_ms,
        now,
    ))
}

/// Whether records stand with the latest started first.
pub open spec fn latest_first(v: Seq<RecordView>) -> bool {
    forall|i: int, j: int|
        0 <= i < j < v.len() ==> (#[trigger] v[i]).last_started_at_ms >= (
        #[trigger] v[j]).last_started_at_ms
}

/// The records that started at a given time, in order.
pub open spec fn started_at(v: Seq<RecordView>, at: u64) -> Seq<RecordView> {
    v.filter(|r: RecordView| r.last_started_at_ms == at)
}

/// Whether records that started together stand in the same order in both.
pub open spec fn stable_from(v: Seq<RecordView>, out: Seq<RecordView>) -> bool {
    forall|at: u64| #[trigger] started_at(out, at) == started_at(v, at)
}

proof fn filter_concat(a: Seq<RecordView>, b: Seq<RecordView>, at: u64)
    ensures
        started_at(a + b, at) == started_at(a, at) + started_at(b, at),
    decreases b.len(),
{
    let p = |r: RecordView| r.last_started_at_ms == at;
    reveal(Seq::filter);
    if b.len() == 0 {
        assert(a + b =~= a);
        assert(b.filter(p) =~= Seq::<RecordView>::empty());
        assert(started_at(a, at) + started_at(b, at) =~= started_at(a, at));
    } else {
        filter_concat(a, b.drop_last(), at);
        assert((a + b).drop_last() =~= a + b.drop_last());
        assert((a + b).last() == b.last());
        if p(b.last()) {
            assert(started_at(a, at) + started_at(b.drop_last(), at).push(b.last()) =~= (started_at(
                a,
                at,
            ) + started_at(b.drop_last(), at)).push(b.last()));
        }
    }
}

proof fn filter_absent(a: Seq<RecordView>, at: u64)
    requires
        forall|i: int| 0 <= i < a.len() ==> (#[trigger] a[i]).last_started_at_ms != at,
    ensures
        started_at(a, at) == Seq::<RecordView>::empty(),
    decreases a.len(),
{
    reveal(Seq::filter);
    if a.len() > 0 {
        assert forall|i: int| 0 <= i < a.drop_last().len() implies (
        #[trigger] a.drop_last()[i]).last_started_at_ms != at by {
            assert(a[i].last_started_at_ms != at);
        }
        filter_absent(a.drop_last(), at);
        assert(a[a.len() - 1].last_started_at_ms != at);
    }
}

proof fn filter_single(x: RecordView, at: u64)
    ensures
        started_at(seq![x], at) == if x.last_started_at_ms == at {
            seq![x]
        } else {
            Seq::<RecordView>::empty()
        },
{
    reveal(Seq::filter);
    assert(seq![x].drop_last() =~= Seq::<RecordView>::empty());
    reveal_with_fuel(Seq::filter, 2);
    assert(Seq::<RecordView>::empty().push(x) =~= seq![x]);
}

/// Putting a record in front of those that are not later keeps the list ordered
/// and stable.
proof fn insert_in_order(v: Seq<RecordView>, sorted: Seq<RecordView>, i: int, x: RecordView)
    requires
        0 <= i <= sorted.len(),
        latest_first(sorted),
        sorted.to_multiset() == v.to_multiset(),
        stable_from(v, sorted),
        forall|k: int|
            0 <= k < i ==> (#[trigger] sorted[k]).last_started_at_ms > x.last_started_at_ms,
        i < sorted.len() ==> sorted[i].last_started_at_ms <= x.last_started_at_ms,
    ensures
        latest_first(sorted.insert(i, x)),
        sorted.insert(i, x).to_multiset() == (seq![x] + v).to_multiset(),
        stable_from(seq![x] + v, sorted.insert(i, x)),
{
    broadcast use vstd::seq_lib::group_to_multiset_ensures;

    let left = sorted.take(i);
    let right = sorted.skip(i);
    let out = sorted.insert(i, x);
    assert(sorted =~= left + right);
    assert(out =~= left.push(x) + right);
    assert(left.push(x) =~= left + seq![x]);
    vstd::seq_lib::lemma_multiset_commutative(left, right);
    vstd::seq_lib::lemma_multiset_commutative(left.push(x), right);
    vstd::seq_lib::lemma_multiset_commutative(seq![x], v);
    assert(seq![x].to_multiset() =~= vstd::multiset::Multiset::empty().insert(x)) by {
        assert(Seq::<RecordView>::empty().push(x) =~= seq![x]);
        assert(Seq::<RecordView>::empty().to_multiset() =~= vstd::multiset::Multiset::empty());
    }
    assert(out.to_multiset() =~= (seq![x] + v).to_multiset());
    assert forall|at: u64| #[trigger] started_at(out, at) == started_at(seq![x] + v, at) by {
        filter_concat(left.push(x), right, at);
        filter_concat(left, seq![x], at);
        filter_concat(left, right, at);
        filter_concat(seq![x], v, at);
        filter_single(x, at);
        assert(started_at(sorted, at) == started_at(v, at));
        if x.last_started_at_ms == at {
            assert forall|k: int| 0 <= k < left.len() implies (
            #[trigger] left[k]).last_started_at_ms != at by {
                assert(sorted[k].last_started_at_ms > x.last_started_at_ms);
            }
            filter_absent(left, at);
            assert(started_at(sorted, at) =~= started_at(right, at));
            assert(started_at(out, at) =~= seq![x] + started_at(right, at));
        } else {
            assert(started_at(out, at) =~= started_at(left, at) + started_at(right, at));
            assert(started_at(seq![x] + v, at) =~= started_at(v, at));
        }
    }
}

// ---------------------------------------------------------------------------
// Laws
// ---------------------------------------------------------------------------

/// Right after a start the run cannot be started again, at that time or at any
/// time before its lease has run out.
pub proof fn started_run_is_owned(
    slot: SlotView,
    run_id: Seq<char>,
    task: Seq<char>,
    operation: Option<Seq<char>>,
    workspace: Option<Seq<char>>,
    now: u64,
    process_id: u32,
    later: u64,
)
    requires
        now <= later,
        later - now < ACTIVE_HEARTBEAT_TTL_MS,
    ensures
        !may_start(
            SlotView {
                record: Some(
                    started(slot.record, run_id, task, operation, workspace, now, process_id),
                ),
                cancel_marker: false,
                owner_ms: Some(now),
            },
            later,
        ),
{
}

/// A run that finished, or ended with an error, can be started again at once.
pub proof fn finished_run_may_start(
    r: RecordView,
    result: RunResult,
    error: RunError,
    now: u64,
    later: u64,
)
    ensures
        may_start(
            SlotView {
                record: Some(finished(r, result, now)),
                cancel_marker: false,
                owner_ms: None,
            },
            later,
        ),
        may_start(
            SlotView {
                record: Some(failed(r, error, now)),
                cancel_marker: false,
                owner_ms: None,
            },
            later,
        ),
{
    reveal_strlit("starting");
    reveal_strlit("running");
    reveal_strlit("completed");
    reveal_strlit("cancelled");
    reveal_strlit("timed_out");
    reveal_strlit("max_turns");
    reveal_strlit("failed");
    reveal_strlit("parked");
    let s = result.termination.name();
    assert(s.len() == 9 || s.len() == 6);
    let t = error.ends_as().name();
    assert(t.len() == 9 || t.len() == 6);
    assert("starting"@.len() == 8 && "running"@.len() == 7);
}

/// Two tasks with the same digest leave the same record: nothing else of the
/// task is kept.
pub proof fn record_keeps_only_the_task_digest(
    existing: Option<RecordView>,
    run_id: Seq<char>,
    a: Seq<char>,
    b: Seq<char>,
    operation: Option<Seq<char>>,
    workspace: Option<Seq<char>>,
    now: u64,
    process_id: u32,
)
    requires
        sha256_label(encode_utf8(a)) == sha256_label(encode_utf8(b)),
    ensures
        started(existing, run_id, a, operation, workspace, now, process_id) == started(
            existing,
            run_id,
            b,
            operation,
            workspace,
            now,
            process_id,
        ),
{
}

/// A run that was never started begins under its own id, now, with nothing done yet.
pub proof fn first_start_begins_a_record(
    run_id: Seq<char>,
    task: Seq<char>,
    operation: Option<Seq<char>>,
    workspace: Option<Seq<char>>,
    now: u64,
    process_id: u32,
)
    ensures
        ({
            let r = started(None, run_id, task, operation, workspace, now, process_id);
            &&& r.run_id == run_id
            &&& active_status(r.status)
            &&& r.started_at_ms == now
            &&& r.last_started_at_ms == now
            &&& r.last_heartbeat_at_ms == now
            &&& r.logical_operation_id == operation
            &&& r.workspace == workspace
            &&& r.process_id == process_id
            &&& r.finished_at_ms is None
            &&& r.success is None
            &&& r.turns == 0
            &&& !r.cancel_requested
        }),
{
}

/// A run that is started again keeps its id, the time of its first start and, where none is
/// given, its operation; what an earlier attempt left as its outcome is gone.
pub proof fn next_start_keeps_what_the_run_is(
    old_record: RecordView,
    run_id: Seq<char>,
    task: Seq<char>,
    operation: Option<Seq<char>>,
    workspace: Option<Seq<char>>,
    now: u64,
    process_id: u32,
)
    ensures
        ({
            let r = started(
                Some(old_record),
                run_id,
                task,
                operation,
                workspace,
                now,
                process_id,
            );
            &&& r.run_id == old_record.run_id
            &&& r.started_at_ms == old_record.started_at_ms
            &&& r.schema_version == old_record.schema_version
            &&& r.last_started_at_ms == now
            &&& r.last_heartbeat_at_ms == now
            &&& operation is None ==> r.logical_operation_id == old_record.logical_operation_id
            &&& operation is Some ==> r.logical_operation_id == operation
            &&& active_status(r.status)
            &&& r.success is None && r.termination is None && r.finished_at_ms is None
            &&& r.artifact_dir is None && r.cost is None && r.summary.len() == 0
            &&& r.turns == 0 && r.usage.input_tokens == 0 && r.usage.output_tokens == 0
            &&& !r.cancel_requested
        }),
{
}

/// A finished run is recorded with its outcome, as what it ended, and is no longer active;
/// when it was started and under which operation stays as it was.
pub proof fn finish_records_the_outcome(r: RecordView, result: RunResult, now: u64)
    ensures
        ({
            let f = finished(r, result, now);
            &&& f.status == result.termination.name()
            &&& f.termination == Some(f.status)
            &&& !active_status(f.status)
            &&& f.success == Some(result.success)
            &&& f.summary == result.summary@
            &&& f.turns == result.turns
            &&& f.usage == result.usage
            &&& f.workspace == Some(result.workspace@)
            &&& f.finished_at_ms == Some(now)
            &&& !f.cancel_requested
            &&& f.run_id == r.run_id && f.started_at_ms == r.started_at_ms
            &&& f.task_digest == r.task_digest && f.logical_operation_id == r.logical_operation_id
            &&& f.last_started_at_ms == r.last_started_at_ms
        }),
{
    ended_run_is_not_active(result.termination);
}

/// A failed run is recorded as failed with its error, and is no longer active; what it did
/// before stays recorded.
pub proof fn failure_is_recorded(r: RecordView, error: RunError, now: u64)
    ensures
        ({
            let f = failed(r, error, now);
            &&& f.success == Some(false)
            &&& f.status == error.ends_as().name()
            &&& f.termination == Some(f.status)
            &&& !active_status(f.status)
            &&& f.summary == error.text()
            &&& f.finished_at_ms == Some(now)
            &&& !f.cancel_requested
            &&& f.run_id == r.run_id && f.started_at_ms == r.started_at_ms
            &&& f.turns == r.turns && f.usage == r.usage && f.workspace == r.workspace
            &&& f.artifact_dir == r.artifact_dir
        }),
{
    ended_run_is_not_active(error.ends_as());
}

/// No end of a run has the name of an active one.
pub proof fn ended_run_is_not_active(t: crate::run::RunTermination)
    ensures
        !active_status(t.name()),
{
    reveal_strlit("starting");
    reveal_strlit("running");
    reveal_strlit("completed");
    reveal_strlit("failed");
    reveal_strlit("parked");
    reveal_strlit("cancelled");
    reveal_strlit("timed_out");
    reveal_strlit("max_turns");
    let s = t.name();
    if s == "starting"@ {
        assert(s[0] == 's');
    }
    if s == "running"@ {
        assert(s[0] == 'r');
    }
}

/// A run may start just where it is not active or its heartbeat is as old as the limit, and
/// no owner holds it or the owner's lease is that old; a lease from the future is held.
pub proof fn run_starts_once_its_lease_is_over(slot: SlotView, now: u64)
    ensures
        may_start(slot, now) <==> (slot.record is Some && active_status(slot.record->0.status)
            ==> now - slot.record->0.last_heartbeat_at_ms >= ACTIVE_HEARTBEAT_TTL_MS) && (
        slot.owner_ms is Some ==> now - slot.owner_ms->0 >= ACTIVE_HEARTBEAT_TTL_MS),
{
}

/// A run is live just where it is active and its heartbeat or its lease is younger than the
/// limit; a live run may not start again.
pub proof fn live_run_is_active_and_recent(slot: SlotView, now: u64)
    requires
        slot.record is Some,
    ensures
        lease_live(slot, now) <==> active_status(slot.record->0.status) && (now
            - slot.record->0.last_heartbeat_at_ms < ACTIVE_HEARTBEAT_TTL_MS || (slot.owner_ms
            is Some && 0 <= now - slot.owner_ms->0 < ACTIVE_HEARTBEAT_TTL_MS)),
        lease_live(slot, now) ==> !may_start(slot, now),
{
}

/// An operation without a name counts as none.
pub proof fn unnamed_operation_is_none(id: &str)
    ensures
        id@.len() > 0 ==> given(Some(id)) == Some(id@),
        id@.len() == 0 ==> given(Some(id)) is None,
        given(None) is None,
{
}

} // verus!
