//! The run transaction: how turns and batches conclude, and the order in which
//! an ended run is completed, saved, inventoried and cleaned up.
use vstd::prelude::*;
use vstd::string::*;

use crate::config::Config;
use crate::model::{CostEstimate, ModelTurn, TokenUsage};
use crate::tools::TodoItem;

use super::tool_batch::ToolBatchOutcome;
use super::{ParkInfo, RunError, RunResult, RunTermination};

verus! {

/// The time limit of a configuration, in milliseconds. A limit that is too long
/// to be counted is the longest one.
pub open spec fn configured_timeout(config: Config) -> Option<u64> {
    match config.run.timeout_secs {
        None => None,
        Some(s) => Some(
            if s * 1000 > u64::MAX {
                u64::MAX
            } else {
                (s * 1000) as u64
            },
        ),
    }
}

/// The time limit of a run, in milliseconds: that of the request, else that of
/// the configuration.
pub fn effective_timeout(config: &Config, requested_ms: Option<u64>) -> (t: Option<u64>)
    ensures
        t == if requested_ms is Some {
            requested_ms
        } else {
            configured_timeout(*config)
        },
{
    if requested_ms.is_some() {
        return requested_ms;
    }
    match config.run.timeout_secs {
        None => None,
        Some(s) => match s.checked_mul(1000) {
            Some(ms) => Some(ms),
            None => Some(u64::MAX),
        },
    }
}

/// How a run ended without an error.
#[derive(Debug)]
pub struct RunEnding {
    pub success: bool,
    pub summary: String,
    pub termination: RunTermination,
    pub park: Option<ParkInfo>,
}

/// How a turn ends the run: one without tool calls completes it.
pub fn conclude_turn(turn: &ModelTurn) -> (r: Option<RunEnding>)
    ensures
        if turn.tool_calls@.len() > 0 {
            r is None
        } else {
            r matches Some(e) && e.success && e.termination == RunTermination::Completed && e.park
                is None && e.summary@ == if turn.content@.len() == 0 {
                "model finished without tools"@
            } else {
                turn.content@
            }
        },
{
    if turn.tool_calls.len() > 0 {
        return None;
    }
    let summary = if turn.content.as_str().is_empty() {
        "model finished without tools".to_owned()
    } else {
        turn.content.clone()
    };
    Some(RunEnding { success: true, summary, termination: RunTermination::Completed, park: None })
}

/// How a batch ends the run, if it does.
pub fn conclude_batch(outcome: ToolBatchOutcome) -> (r: Option<RunEnding>)
    ensures
        match outcome {
            ToolBatchOutcome::Continue => r is None,
            ToolBatchOutcome::Completed { summary, success } => r == Some(
                RunEnding {
                    success,
                    summary,
                    termination: RunTermination::Completed,
                    park: None,
                },
            ),
            ToolBatchOutcome::Parked { info, summary } => r == Some(
                RunEnding {
                    success: false,
                    summary,
                    termination: RunTermination::Parked,
                    park: Some(info),
                },
            ),
        },
{
    match outcome {
        ToolBatchOutcome::Continue => None,
        ToolBatchOutcome::Completed { summary, success } => Some(
            RunEnding { success, summary, termination: RunTermination::Completed, park: None },
        ),
        ToolBatchOutcome::Parked { info, summary } => Some(
            RunEnding {
                success: false,
                summary,
                termination: RunTermination::Parked,
                park: Some(info),
            },
        ),
    }
}

/// What governance is told of a run that has ended.
#[derive(Debug)]
pub struct RunOutcome {
    pub success: bool,
    pub summary: String,
    pub turns: u32,
    pub termination: String,
    pub workspace: String,
}

/// What governance is told of a run that ended without an error.
pub fn ended_outcome(ending: &RunEnding, turns: u32, workspace: &str) -> (o: RunOutcome)
    ensures
        o.success == ending.success,
        o.summary@ == ending.summary@,
        o.turns == turns,
        o.termination@ == ending.termination.name(),
        o.workspace@ == workspace@,
{
    RunOutcome {
        success: ending.success,
        summary: ending.summary.clone(),
        turns,
        termination: ending.termination.as_str().to_owned(),
        workspace: workspace.to_owned(),
    }
}

/// What governance is told of a run that ended with an error.
pub fn failed_outcome(error: &RunError, turns: u32, workspace: &str) -> (o: RunOutcome)
    ensures
        !o.success,
        o.summary@ == error.text(),
        o.turns == turns,
        o.termination@ == error.ends_as().name(),
        o.workspace@ == workspace@,
{
    RunOutcome {
        success: false,
        summary: error.message(),
        turns,
        termination: error.termination().as_str().to_owned(),
        workspace: workspace.to_owned(),
    }
}

/// What the end of a run depends on.
#[derive(Debug, Clone, Copy)]
pub struct EndPlan {
    /// The run ended with an error.
    pub failed: bool,
    /// The error leaves the governed receipt open for a resumed attempt.
    pub leaves_open: bool,
    pub parked: bool,
    pub success: bool,
    pub keep_workspace: bool,
}

/// The plan of a run that ended without an error.
pub open spec fn plan_of_ending(ending: RunEnding, keep_workspace: bool) -> EndPlan {
    EndPlan {
        failed: false,
        leaves_open: false,
        parked: ending.termination == RunTermination::Parked,
        success: ending.success,
        keep_workspace,
    }
}

/// The plan of a run that ended with an error.
pub open spec fn plan_of_failure(error: RunError, keep_workspace: bool) -> EndPlan {
    EndPlan {
        failed: true,
        leaves_open: error.stays_open(),
        parked: false,
        success: false,
        keep_workspace,
    }
}

/// The plan of a run that ended without an error.
pub fn plan_ending(ending: &RunEnding, keep_workspace: bool) -> (p: EndPlan)
    ensures
        p == plan_of_ending(*ending, keep_workspace),
{
    EndPlan {
        failed: false,
        leaves_open: false,
        parked: ending.termination == RunTermination::Parked,
        success: ending.success,
        keep_workspace,
    }
}

/// The plan of a run that ended with an error.
pub fn plan_failure(error: &RunError, keep_workspace: bool) -> (p: EndPlan)
    ensures
        p == plan_of_failure(*error, keep_workspace),
{
    EndPlan {
        failed: true,
        leaves_open: error.leaves_governance_open(),
        parked: false,
        success: false,
        keep_workspace,
    }
}

/// Where the host stands with an ended run.
#[derive(Debug, Clone, Copy, PartialEq, Eq, Structural)]
pub enum EndStage {
    /// Kill background jobs after an error.
    Reap,
    /// Save a checkpoint that can be resumed, with the pending park.
    Preserve,
    /// Complete the failed run with governance.
    CloseFailed,
    /// Save again, behind the completed or refused boundary.
    PreserveAgain,
    /// Announce the failure.
    AnnounceFailure,
    /// Capture the artifacts of the failed run.
    InventoryFailed,
    /// Complete the run with governance.
    Close,
    /// Save a checkpoint that can be resumed: governance did not complete.
    Rescue,
    /// Capture the artifacts of the run that was not completed.
    InventoryOpen,
    /// Save the completed run.
    Save,
    /// Capture the artifacts of the run that was not saved.
    InventoryUnsaved,
    /// Capture the artifacts.
    Inventory,
    /// Remove the workspace.
    Cleanup,
    /// Announce the result.
    Announce,
    /// Run the post-run hooks.
    PostHook,
    /// The run returns its result.
    Done,
    /// The run returns the error it ended with.
    Failed,
    /// The run returns the error of completing it.
    NotCompleted,
    /// The run returns the error of saving it.
    NotSaved,
}

/// Where the end of a run starts.
pub open spec fn end_start(p: EndPlan) -> EndStage {
    if p.failed {
        EndStage::Reap
    } else if p.parked {
        EndStage::Inventory
    } else {
        EndStage::Close
    }
}

/// Whether the workspace is removed: only after a success that is not parked,
/// unless it is kept.
pub open spec fn removes_workspace(p: EndPlan) -> bool {
    !p.keep_workspace && p.success && !p.parked
}

/// Where the end of a run goes once a step succeeded or failed.
pub open spec fn end_after(p: EndPlan, stage: EndStage, ok: bool) -> EndStage {
    match stage {
        EndStage::Reap => EndStage::Preserve,
        EndStage::Preserve => if p.leaves_open {
            EndStage::AnnounceFailure
        } else {
            EndStage::CloseFailed
        },
        EndStage::CloseFailed => EndStage::PreserveAgain,
        EndStage::PreserveAgain => EndStage::AnnounceFailure,
        EndStage::AnnounceFailure => EndStage::InventoryFailed,
        EndStage::InventoryFailed => EndStage::Failed,
        EndStage::Close => if ok {
            EndStage::Save
        } else {
            EndStage::Rescue
        },
        EndStage::Rescue => EndStage::InventoryOpen,
        EndStage::InventoryOpen => EndStage::NotCompleted,
        EndStage::Save => if ok {
            EndStage::Inventory
        } else {
            EndStage::InventoryUnsaved
        },
        EndStage::InventoryUnsaved => EndStage::NotSaved,
        EndStage::Inventory => if removes_workspace(p) {
            EndStage::Cleanup
        } else {
            EndStage::Announce
        },
        EndStage::Cleanup => EndStage::Announce,
        EndStage::Announce => EndStage::PostHook,
        EndStage::PostHook => EndStage::Done,
        last => last,
    }
}

/// Where the end of a run starts.
pub fn begin_end(p: &EndPlan) -> (s: EndStage)
    ensures
        s == end_start(*p),
{
    if p.failed {
        EndStage::Reap
    } else if p.parked {
        EndStage::Inventory
    } else {
        EndStage::Close
    }
}

/// Where the end of a run goes once a step succeeded or failed. Best-effort
/// steps go on either way.
pub fn advance_end(p: &EndPlan, stage: EndStage, ok: bool) -> (next: EndStage)
    ensures
        next == end_after(*p, stage, ok),
{
    match stage {
        EndStage::Reap => EndStage::Preserve,
        EndStage::Preserve => if p.leaves_open {
            EndStage::AnnounceFailure
        } else {
            EndStage::CloseFailed
        },
        EndStage::CloseFailed => EndStage::PreserveAgain,
        EndStage::PreserveAgain => EndStage::AnnounceFailure,
        EndStage::AnnounceFailure => EndStage::InventoryFailed,
        EndStage::InventoryFailed => EndStage::Failed,
        EndStage::Close => if ok {
            EndStage::Save
        } else {
            EndStage::Rescue
        },
        EndStage::Rescue => EndStage::InventoryOpen,
        EndStage::InventoryOpen => EndStage::NotCompleted,
        EndStage::Save => if ok {
            EndStage::Inventory
        } else {
            EndStage::InventoryUnsaved
        },
        EndStage::InventoryUnsaved => EndStage::NotSaved,
        EndStage::Inventory => if !p.keep_workspace && p.success && !p.parked {
            EndStage::Cleanup
        } else {
            EndStage::Announce
        },
        EndStage::Cleanup => EndStage::Announce,
        EndStage::Announce => EndStage::PostHook,
        EndStage::PostHook => EndStage::Done,
        last => last,
    }
}

/// The stage that a sequence of outcomes leads to.
pub open spec fn end_trace(p: EndPlan, oks: Seq<bool>) -> EndStage
    decreases oks.len(),
{
    if oks.len() == 0 {
        end_start(p)
    } else {
        end_after(p, end_trace(p, oks.drop_last()), oks.last())
    }
}

/// Whether a stage belongs to the end of a failed run.
spec fn failing(stage: EndStage) -> bool {
    stage == EndStage::Reap || stage == EndStage::Preserve || stage == EndStage::CloseFailed
        || stage == EndStage::PreserveAgain || stage == EndStage::AnnounceFailure || stage
        == EndStage::InventoryFailed || stage == EndStage::Failed
}

/// Whether a stage lies on the way on which governance completes the run.
spec fn closing(stage: EndStage) -> bool {
    stage == EndStage::Close || stage == EndStage::Rescue || stage == EndStage::InventoryOpen
        || stage == EndStage::Save || stage == EndStage::InventoryUnsaved || stage
        == EndStage::NotCompleted || stage == EndStage::NotSaved
}

proof fn end_facts(p: EndPlan, oks: Seq<bool>)
    ensures
        failing(end_trace(p, oks)) == p.failed,
        closing(end_trace(p, oks)) ==> !p.parked,
        end_trace(p, oks) == EndStage::Cleanup ==> removes_workspace(p),
        end_trace(p, oks) == EndStage::CloseFailed || end_trace(p, oks) == EndStage::PreserveAgain
            ==> !p.leaves_open,
    decreases oks.len(),
{
    if oks.len() > 0 {
        end_facts(p, oks.drop_last());
    }
}

/// A workspace is removed only once its run succeeded, is not parked and does
/// not keep it.
pub proof fn workspace_is_removed_only_after_success(p: EndPlan, oks: Seq<bool>)
    requires
        end_trace(p, oks) == EndStage::Cleanup,
    ensures
        !p.failed,
        p.success,
        !p.parked,
        !p.keep_workspace,
{
    end_facts(p, oks);
}

/// A parked run is never completed with governance: its receipt stays open for
/// the continuation.
pub proof fn parked_run_stays_open(p: EndPlan, oks: Seq<bool>)
    requires
        p.parked,
        !p.failed,
    ensures
        end_trace(p, oks) != EndStage::Close,
        end_trace(p, oks) != EndStage::CloseFailed,
{
    end_facts(p, oks);
}

/// A failure that leaves a resumable checkpoint leaves the receipt open too.
pub proof fn resumable_failure_stays_open(p: EndPlan, oks: Seq<bool>)
    requires
        p.failed,
        p.leaves_open,
    ensures
        end_trace(p, oks) != EndStage::Close,
        end_trace(p, oks) != EndStage::CloseFailed,
{
    end_facts(p, oks);
}

/// Whether artifacts are captured at a stage.
pub open spec fn inventories(stage: EndStage) -> bool {
    stage == EndStage::InventoryFailed || stage == EndStage::InventoryOpen || stage
        == EndStage::InventoryUnsaved || stage == EndStage::Inventory
}

/// Whether a run returns at a stage.
pub open spec fn returns_at(stage: EndStage) -> bool {
    stage == EndStage::Done || stage == EndStage::Failed || stage == EndStage::NotCompleted || stage
        == EndStage::NotSaved
}

spec fn behind_inventory(stage: EndStage) -> bool {
    returns_at(stage) || stage == EndStage::Cleanup || stage == EndStage::Announce || stage
        == EndStage::PostHook
}

proof fn inventory_lies_behind(p: EndPlan, oks: Seq<bool>) -> (k: int)
    requires
        behind_inventory(end_trace(p, oks)),
    ensures
        0 <= k < oks.len(),
        inventories(end_trace(p, oks.take(k))),
    decreases oks.len(),
{
    let before = oks.drop_last();
    assert(before =~= oks.take(oks.len() - 1));
    if inventories(end_trace(p, before)) {
        oks.len() - 1
    } else {
        let k = inventory_lies_behind(p, before);
        assert(before.take(k) =~= oks.take(k));
        k
    }
}

/// However a run ends, its artifacts were captured before it returns.
pub proof fn artifacts_are_always_captured(p: EndPlan, oks: Seq<bool>)
    requires
        returns_at(end_trace(p, oks)),
    ensures
        exists|k: int|
            0 <= k < oks.len() && inventories(#[trigger] end_trace(p, oks.take(k))),
{
    let k = inventory_lies_behind(p, oks);
    assert(inventories(end_trace(p, oks.take(k))));
}

/// A run returns after at most six steps.
pub proof fn end_is_reached(p: EndPlan, oks: Seq<bool>)
    requires
        oks.len() >= 6,
    ensures
        returns_at(end_trace(p, oks)),
    decreases oks.len(),
{
    if oks.len() > 6 {
        end_is_reached(p, oks.drop_last());
    } else {
        reveal_with_fuel(end_trace, 8);
    }
}

/// The result of a run that ended without an error.
pub fn run_result(
    run_id: String,
    ending: RunEnding,
    turns: u32,
    workspace: String,
    artifact_dir: Option<String>,
    prompt_id: String,
    usage: TokenUsage,
    cost: Option<CostEstimate>,
    todos: Vec<TodoItem>,
) -> (r: RunResult)
    ensures
        r == (RunResult {
            run_id,
            success: ending.success,
            summary: ending.summary,
            turns,
            workspace,
            artifact_dir,
            termination: ending.termination,
            park: ending.park,
            prompt_id,
            usage,
            cost,
            todos,
        }),
{
    RunResult {
        run_id,
        success: ending.success,
        summary: ending.summary,
        turns,
        workspace,
        artifact_dir,
        termination: ending.termination,
        park: ending.park,
        prompt_id,
        usage,
        cost,
        todos,
    }
}

/// The stages that the end of a run goes through, one for each outcome and the one it
/// then stands at.
pub open spec fn end_path(p: EndPlan, oks: Seq<bool>) -> Seq<EndStage> {
    Seq::new(oks.len() + 1, |i: int| end_trace(p, oks.take(i)))
}

proof fn end_step(p: EndPlan, oks: Seq<bool>, i: int)
    requires
        0 <= i < oks.len(),
    ensures
        end_trace(p, oks.take(i + 1)) == end_after(p, end_trace(p, oks.take(i)), oks[i]),
{
    assert(oks.take(i + 1).drop_last() =~= oks.take(i));
    assert(oks.take(i + 1).last() == oks[i]);
}

/// The stages that lie behind a completed and saved run.
spec fn behind_save(stage: EndStage) -> bool {
    stage == EndStage::Inventory || stage == EndStage::Cleanup || stage == EndStage::Announce
        || stage == EndStage::PostHook || stage == EndStage::Done
}

proof fn close_and_save_lie_behind(p: EndPlan, oks: Seq<bool>) -> (r: (int, int))
    requires
        !p.failed,
        !p.parked,
        behind_save(end_trace(p, oks)),
    ensures
        0 <= r.0 < r.1 < oks.len(),
        end_trace(p, oks.take(r.0)) == EndStage::Close,
        oks[r.0],
        end_trace(p, oks.take(r.1)) == EndStage::Save,
        oks[r.1],
    decreases oks.len(),
{
    let before = oks.drop_last();
    assert(before =~= oks.take(oks.len() - 1));
    if behind_save(end_trace(p, before)) {
        let r = close_and_save_lie_behind(p, before);
        assert(before.take(r.0) =~= oks.take(r.0));
        assert(before.take(r.1) =~= oks.take(r.1));
        r
    } else {
        let l = oks.len() - 1;
        let earlier = before.drop_last();
        assert(earlier =~= oks.take(l - 1));
        (l - 1, l)
    }
}

/// A run that ended without an error and without a park is done only once governance
/// completed it and, after that, it was saved.
pub proof fn done_run_was_completed_and_saved(p: EndPlan, oks: Seq<bool>)
    requires
        !p.failed,
        !p.parked,
        end_trace(p, oks) == EndStage::Done,
    ensures
        exists|k: int, l: int|
            0 <= k < l < oks.len() && #[trigger] end_trace(p, oks.take(k)) == EndStage::Close
                && oks[k] && #[trigger] end_trace(p, oks.take(l)) == EndStage::Save && oks[l],
{
    let (k, l) = close_and_save_lie_behind(p, oks);
    assert(end_trace(p, oks.take(k)) == EndStage::Close);
    assert(end_trace(p, oks.take(l)) == EndStage::Save);
}

/// What the end of a run that did not fail does, in order, where everything succeeds: it
/// is completed with governance and saved unless it is parked, its artifacts are captured,
/// the workspace of a success that does not keep it is removed, and the result is
/// announced before the hooks run.
pub proof fn ending_run_takes_every_step(p: EndPlan, oks: Seq<bool>)
    requires
        !p.failed,
        oks.len() == 6,
        forall|i: int| 0 <= i < oks.len() ==> #[trigger] oks[i],
    ensures
        p.parked ==> end_path(p, oks.take(3)) == seq![
            EndStage::Inventory,
            EndStage::Announce,
            EndStage::PostHook,
            EndStage::Done,
        ],
        !p.parked && p.success && !p.keep_workspace ==> end_path(p, oks) == seq![
            EndStage::Close,
            EndStage::Save,
            EndStage::Inventory,
            EndStage::Cleanup,
            EndStage::Announce,
            EndStage::PostHook,
            EndStage::Done,
        ],
        !p.parked && (!p.success || p.keep_workspace) ==> end_path(p, oks.take(5)) == seq![
            EndStage::Close,
            EndStage::Save,
            EndStage::Inventory,
            EndStage::Announce,
            EndStage::PostHook,
            EndStage::Done,
        ],
{
    end_steps_in_order(p, oks);
    assert forall|n: int, i: int| 0 <= i <= n <= 6 implies #[trigger] oks.take(n).take(i)
        =~= oks.take(i) by {}
    assert(oks.take(6) =~= oks);
    if p.parked {
        assert(end_path(p, oks.take(3)) =~= seq![
            EndStage::Inventory,
            EndStage::Announce,
            EndStage::PostHook,
            EndStage::Done,
        ]);
    } else if p.success && !p.keep_workspace {
        assert(end_path(p, oks) =~= seq![
            EndStage::Close,
            EndStage::Save,
            EndStage::Inventory,
            EndStage::Cleanup,
            EndStage::Announce,
            EndStage::PostHook,
            EndStage::Done,
        ]);
    } else {
        assert(end_path(p, oks.take(5)) =~= seq![
            EndStage::Close,
            EndStage::Save,
            EndStage::Inventory,
            EndStage::Announce,
            EndStage::PostHook,
            EndStage::Done,
        ]);
    }
}

proof fn end_steps_in_order(p: EndPlan, oks: Seq<bool>)
    requires
        oks.len() == 6,
    ensures
        end_trace(p, oks.take(0)) == end_start(p),
        forall|i: int|
            0 <= i < 6 ==> #[trigger] end_trace(p, oks.take(i + 1)) == end_after(
                p,
                end_trace(p, oks.take(i)),
                oks[i],
            ),
        end_trace(p, oks.take(1)) == end_after(p, end_trace(p, oks.take(0)), oks[0]),
        end_trace(p, oks.take(2)) == end_after(p, end_trace(p, oks.take(1)), oks[1]),
        end_trace(p, oks.take(3)) == end_after(p, end_trace(p, oks.take(2)), oks[2]),
        end_trace(p, oks.take(4)) == end_after(p, end_trace(p, oks.take(3)), oks[3]),
        end_trace(p, oks.take(5)) == end_after(p, end_trace(p, oks.take(4)), oks[4]),
        end_trace(p, oks.take(6)) == end_after(p, end_trace(p, oks.take(5)), oks[5]),
{
    assert forall|i: int| 0 <= i < 6 implies #[trigger] end_trace(p, oks.take(i + 1)) == end_after(
        p,
        end_trace(p, oks.take(i)),
        oks[i],
    ) by {
        end_step(p, oks, i);
    }
    end_step(p, oks, 0);
    end_step(p, oks, 1);
    end_step(p, oks, 2);
    end_step(p, oks, 3);
    end_step(p, oks, 4);
    end_step(p, oks, 5);
}

/// What the end of a failed run does, in order, whatever succeeds: jobs are killed, a
/// checkpoint that can be resumed is saved, the run is completed with governance and saved
/// again unless the error leaves it open, the failure is announced and the artifacts are
/// captured.
pub proof fn failed_run_takes_every_step(p: EndPlan, oks: Seq<bool>)
    requires
        p.failed,
        oks.len() == 6,
    ensures
        p.leaves_open ==> end_path(p, oks.take(4)) == seq![
            EndStage::Reap,
            EndStage::Preserve,
            EndStage::AnnounceFailure,
            EndStage::InventoryFailed,
            EndStage::Failed,
        ],
        !p.leaves_open ==> end_path(p, oks) == seq![
            EndStage::Reap,
            EndStage::Preserve,
            EndStage::CloseFailed,
            EndStage::PreserveAgain,
            EndStage::AnnounceFailure,
            EndStage::InventoryFailed,
            EndStage::Failed,
        ],
{
    end_steps_in_order(p, oks);
    assert forall|n: int, i: int| 0 <= i <= n <= 6 implies #[trigger] oks.take(n).take(i)
        =~= oks.take(i) by {}
    assert(oks.take(6) =~= oks);
    if p.leaves_open {
        assert(end_path(p, oks.take(4)) =~= seq![
            EndStage::Reap,
            EndStage::Preserve,
            EndStage::AnnounceFailure,
            EndStage::InventoryFailed,
            EndStage::Failed,
        ]);
    } else {
        assert(end_path(p, oks) =~= seq![
            EndStage::Reap,
            EndStage::Preserve,
            EndStage::CloseFailed,
            EndStage::PreserveAgain,
            EndStage::AnnounceFailure,
            EndStage::InventoryFailed,
            EndStage::Failed,
        ]);
    }
}

/// A run that governance does not complete is saved so that it can be resumed, and one
/// that cannot be saved still has its artifacts captured; neither is done.
pub proof fn uncompleted_run_is_rescued(p: EndPlan, a: bool, b: bool)
    requires
        !p.failed,
        !p.parked,
    ensures
        end_path(p, seq![false, a, b]) == seq![
            EndStage::Close,
            EndStage::Rescue,
            EndStage::InventoryOpen,
            EndStage::NotCompleted,
        ],
        end_path(p, seq![true, false, a]) == seq![
            EndStage::Close,
            EndStage::Save,
            EndStage::InventoryUnsaved,
            EndStage::NotSaved,
        ],
{
    let open = seq![false, a, b];
    end_step(p, open, 0);
    end_step(p, open, 1);
    end_step(p, open, 2);
    assert(end_trace(p, open.take(0)) == end_start(p));
    assert(end_path(p, open) =~= seq![
        EndStage::Close,
        EndStage::Rescue,
        EndStage::InventoryOpen,
        EndStage::NotCompleted,
    ]);
    let unsaved = seq![true, false, a];
    end_step(p, unsaved, 0);
    end_step(p, unsaved, 1);
    end_step(p, unsaved, 2);
    assert(end_trace(p, unsaved.take(0)) == end_start(p));
    assert(end_path(p, unsaved) =~= seq![
        EndStage::Close,
        EndStage::Save,
        EndStage::InventoryUnsaved,
        EndStage::NotSaved,
    ]);
}

/// A parked run is never completed with governance, and its workspace stays.
pub proof fn parked_ending_stays_open(e: RunEnding, keep: bool, oks: Seq<bool>)
    requires
        e.termination == RunTermination::Parked,
    ensures
        end_trace(plan_of_ending(e, keep), oks) != EndStage::Close,
        end_trace(plan_of_ending(e, keep), oks) != EndStage::CloseFailed,
        end_trace(plan_of_ending(e, keep), oks) != EndStage::Cleanup,
        oks.len() == 3 ==> end_trace(plan_of_ending(e, keep), oks) == EndStage::Done,
{
    end_facts(plan_of_ending(e, keep), oks);
    reveal_with_fuel(end_trace, 5);
}

/// A run that ended in any other way is done only once it was completed and saved; its
/// workspace is removed just where it succeeded and does not keep it.
pub proof fn finished_ending_is_completed(e: RunEnding, keep: bool, oks: Seq<bool>)
    requires
        e.termination != RunTermination::Parked,
        oks.len() == 6,
        forall|i: int| 0 <= i < oks.len() ==> #[trigger] oks[i],
    ensures
        end_path(plan_of_ending(e, keep), oks)[0] == EndStage::Close,
        end_path(plan_of_ending(e, keep), oks)[1] == EndStage::Save,
        end_path(plan_of_ending(e, keep), oks)[2] == EndStage::Inventory,
        end_path(plan_of_ending(e, keep), oks)[3] == EndStage::Cleanup <==> e.success && !keep,
        end_path(plan_of_ending(e, keep), oks)[6] == EndStage::Done,
{
    end_steps_in_order(plan_of_ending(e, keep), oks);
}

/// A failed run is completed with governance unless the error is a cancellation, a
/// timeout, the end of its turns, or a failure of governance that is no refusal.
pub proof fn failure_is_closed_unless_it_can_be_resumed(e: RunError, keep: bool, a: bool, b: bool)
    ensures
        end_trace(plan_of_failure(e, keep), seq![a, b]) == EndStage::AnnounceFailure <==> match e {
            RunError::Cancelled => true,
            RunError::TimedOut(_) => true,
            RunError::MaxTurns(_) => true,
            RunError::Governance(g) => !(g is Denied),
            _ => false,
        },
        end_trace(plan_of_failure(e, keep), seq![a, b]) == EndStage::AnnounceFailure || end_trace(
            plan_of_failure(e, keep),
            seq![a, b],
        ) == EndStage::CloseFailed,
{
    let p = plan_of_failure(e, keep);
    let oks = seq![a, b];
    end_step(p, oks, 0);
    end_step(p, oks, 1);
    assert(end_trace(p, oks.take(0)) == end_start(p));
    assert(oks.take(2) =~= oks);
}

/// A run without a time limit of its own has that of the configuration, a thousand
/// milliseconds for each second, up to the largest number.
pub proof fn configured_time_is_in_milliseconds(config: Config)
    ensures
        configured_timeout(config) is Some <==> config.run.timeout_secs is Some,
        config.run.timeout_secs is Some && config.run.timeout_secs->0 * 1000 <= u64::MAX
            ==> configured_timeout(config)->0 == config.run.timeout_secs->0 * 1000,
        config.run.timeout_secs is Some && config.run.timeout_secs->0 * 1000 > u64::MAX
            ==> configured_timeout(config)->0 == u64::MAX,
{
}

} // verus!
