//! Recovering and finalizing replay attempts.
use vstd::prelude::*;
use vstd::string::*;

use crate::checkpoint::Checkpoint;
use crate::model::{CostEstimate, TokenUsage};
#[allow(unused_imports)]
use crate::registry::{cost_view, str_view};
use crate::run::RunResult;
use crate::text::same;
#[allow(unused_imports)]
use crate::text::opt_view;
use crate::tools::duplicate_todos;

use super::{ReplayCheckpoint, ReplayError, ReplayExecution, ReplayTerminalCheckpoint};

verus! {

/// The progress of an attempt that has just been admitted.
pub fn replay_checkpoint(execution: &ReplayExecution, workspace: &str) -> (c: ReplayCheckpoint)
    ensures
        c.manifest_digest == execution.manifest_digest,
        c.source_run_id == execution.source_run_id,
        c.workspace@ == workspace@,
        c.comparison_cursor == 0,
        c.usage == (TokenUsage { input_tokens: 0, output_tokens: 0 }),
        c.terminal is None,
{
    ReplayCheckpoint {
        manifest_digest: execution.manifest_digest.clone(),
        source_run_id: execution.source_run_id.clone(),
        workspace: workspace.to_owned(),
        comparison_cursor: 0,
        usage: TokenUsage { input_tokens: 0, output_tokens: 0 },
        terminal: None,
    }
}

/// A terminal attempt that was found again.
#[derive(Debug)]
pub struct RecoveredReplay {
    pub run: RunResult,
    pub finalized: bool,
    pub keep_workspace: bool,
    pub workspace_adapter: String,
}

/// Why a replay checkpoint does not belong to an execution.
pub open spec fn recovery_fault(c: Checkpoint, r: ReplayCheckpoint, x: ReplayExecution) -> Option<
    Seq<char>,
> {
    if r.manifest_digest@ != x.manifest_digest@ {
        Some("replay manifest digest mismatch for run "@)
    } else if r.source_run_id@ != x.source_run_id@ {
        Some("replay source identity mismatch for run "@)
    } else if r.workspace@ != c.workspace@ {
        Some("replay workspace binding mismatch for run "@)
    } else {
        None
    }
}

/// Whether a recovered attempt is the terminal result of the checkpoint.
pub open spec fn recovered_from(
    out: RecoveredReplay,
    c: Checkpoint,
    t: ReplayTerminalCheckpoint,
    registry_artifacts: Option<Seq<char>>,
) -> bool {
    &&& out.run.run_id@ == c.run_id@
    &&& out.run.success == t.success
    &&& out.run.summary@ == t.summary@
    &&& out.run.turns == c.completed_turns
    &&& out.run.workspace@ == c.workspace@
    &&& opt_view(out.run.artifact_dir) == (match t.artifact_dir {
        Some(d) => Some(d@),
        None => registry_artifacts,
    })
    &&& out.run.termination == t.termination
    &&& out.run.park is None
    &&& out.run.prompt_id@ == t.prompt_id@
    &&& out.run.usage == t.usage
    &&& cost_view(out.run.cost) == cost_view(t.cost)
    &&& out.run.todos@ == c.todos@
    &&& out.finalized == t.finalized
    &&& out.keep_workspace == c.keep_workspace
    &&& out.workspace_adapter@ == c.workspace_adapter@
}

fn copy_cost(o: &Option<CostEstimate>) -> (r: Option<CostEstimate>)
    ensures
        cost_view(r) == cost_view(*o),
{
    match o {
        Some(c) => Some(CostEstimate { text: c.text.clone() }),
        None => None,
    }
}

/// The terminal result of a replay attempt that its checkpoint already holds. A
/// checkpoint of another manifest, source or workspace is refused.
/// `registry_artifacts` is where the registry says that the artifacts are.
pub fn recover_terminal_replay(
    checkpoint: &Checkpoint,
    registry_artifacts: Option<&str>,
    run_id: &str,
    execution: &ReplayExecution,
) -> (r: Result<Option<RecoveredReplay>, ReplayError>)
    ensures
        match checkpoint.replay {
            None => r matches Ok(o) && o is None,
            Some(p) => match recovery_fault(*checkpoint, p, *execution) {
                Some(m) => r matches Err(ReplayError::Invalid(t)) && t@ == m + run_id@,
                None => match p.terminal {
                    None => r matches Ok(o) && o is None,
                    Some(t) => r matches Ok(Some(out)) && recovered_from(
                        out,
                        *checkpoint,
                        t,
                        str_view(registry_artifacts),
                    ),
                },
            },
        },
{
    let replay = match &checkpoint.replay {
        None => return Ok(None),
        Some(p) => p,
    };
    if !same(replay.manifest_digest.as_str(), execution.manifest_digest.as_str()) {
        let mut m = "replay manifest digest mismatch for run ".to_owned();
        m.append(run_id);
        return Err(ReplayError::Invalid(m));
    }
    if !same(replay.source_run_id.as_str(), execution.source_run_id.as_str()) {
        let mut m = "replay source identity mismatch for run ".to_owned();
        m.append(run_id);
        return Err(ReplayError::Invalid(m));
    }
    if !same(replay.workspace.as_str(), checkpoint.workspace.as_str()) {
        let mut m = "replay workspace binding mismatch for run ".to_owned();
        m.append(run_id);
        return Err(ReplayError::Invalid(m));
    }
    let terminal = match &replay.terminal {
        None => return Ok(None),
        Some(t) => t,
    };
    let artifact_dir = match &terminal.artifact_dir {
        Some(d) => Some(d.clone()),
        None => match registry_artifacts {
            Some(d) => Some(d.to_owned()),
            None => None,
        },
    };
    Ok(
        Some(
            RecoveredReplay {
                run: RunResult {
                    run_id: checkpoint.run_id.clone(),
                    success: terminal.success,
                    summary: terminal.summary.clone(),
                    turns: checkpoint.completed_turns,
                    workspace: checkpoint.workspace.clone(),
                    artifact_dir,
                    termination: terminal.termination,
                    park: None,
                    prompt_id: terminal.prompt_id.clone(),
                    usage: terminal.usage,
                    cost: copy_cost(&terminal.cost),
                    todos: duplicate_todos(&checkpoint.todos),
                },
                finalized: terminal.finalized,
                keep_workspace: checkpoint.keep_workspace,
                workspace_adapter: checkpoint.workspace_adapter.clone(),
            },
        ),
    )
}

/// Marks the terminal result of a replay attempt as finalized.
pub fn mark_replay_finalized(
    checkpoint: &mut Checkpoint,
    run_id: &str,
    artifact_dir: Option<&str>,
) -> (r: Result<(), ReplayError>)
    ensures
        match old(checkpoint).replay {
            None => r matches Err(ReplayError::Invalid(m)) && m@ == "run "@ + run_id@
                + " is not a replay attempt"@ && *final(checkpoint) == *old(checkpoint),
            Some(p) => match p.terminal {
                None => r matches Err(ReplayError::Invalid(m)) && m@ == "replay attempt "@ + run_id@
                    + " has no terminal result"@ && *final(checkpoint) == *old(checkpoint),
                Some(t) => r is Ok && exists|d: Option<String>|
                    opt_view(d) == str_view(artifact_dir) && #[trigger] finalized_with(
                        *old(checkpoint),
                        p,
                        t,
                        d,
                    ) == *final(checkpoint),
            },
        },
{
    match checkpoint.replay.take() {
        None => {
            let mut m = "run ".to_owned();
            m.append(run_id);
            m.append(" is not a replay attempt");
            assert(*checkpoint == *old(checkpoint));
            Err(ReplayError::Invalid(m))
        },
        Some(mut replay) => match replay.terminal.take() {
            None => {
                checkpoint.replay = Some(replay);
                assert(*checkpoint == *old(checkpoint));
                let mut m = "replay attempt ".to_owned();
                m.append(run_id);
                m.append(" has no terminal result");
                Err(ReplayError::Invalid(m))
            },
            Some(mut terminal) => {
                let dir = match artifact_dir {
                    Some(d) => Some(d.to_owned()),
                    None => None,
                };
                let ghost p = old(checkpoint).replay->0;
                let ghost t = p.terminal->0;
                let ghost shown = dir;
                terminal.finalized = true;
                terminal.artifact_dir = dir;
                replay.terminal = Some(terminal);
                checkpoint.replay = Some(replay);
                assert(finalized_with(*old(checkpoint), p, t, shown) == *checkpoint);
                Ok(())
            },
        },
    }
}

/// A checkpoint whose terminal replay result is finalized; nothing else changes.
pub open spec fn finalized_with(
    c: Checkpoint,
    p: ReplayCheckpoint,
    t: ReplayTerminalCheckpoint,
    artifact_dir: Option<String>,
) -> Checkpoint {
    Checkpoint {
        replay: Some(
            ReplayCheckpoint {
                terminal: Some(ReplayTerminalCheckpoint { finalized: true, artifact_dir, ..t }),
                ..p
            },
        ),
        ..c
    }
}

/// A replay is recovered just where it is of the same manifest and the same source, in the
/// workspace that its checkpoint names.
pub proof fn replay_is_recovered_where_it_is_bound(c: Checkpoint, r: ReplayCheckpoint, x: ReplayExecution)
    ensures
        recovery_fault(c, r, x) is None <==> r.manifest_digest@ == x.manifest_digest@
            && r.source_run_id@ == x.source_run_id@ && r.workspace@ == c.workspace@,
{
}

/// A recovered replay ended as it ended before, with the artifacts that it recorded, or where
/// it recorded none with those of the registry.
pub proof fn recovered_replay_is_the_finished_one(
    out: RecoveredReplay,
    c: Checkpoint,
    t: ReplayTerminalCheckpoint,
    registry_artifacts: Option<Seq<char>>,
)
    requires
        recovered_from(out, c, t, registry_artifacts),
    ensures
        out.run.run_id@ == c.run_id@,
        out.run.success == t.success,
        out.run.termination == t.termination,
        out.run.summary@ == t.summary@,
        out.run.turns == c.completed_turns,
        out.run.usage == t.usage,
        out.run.workspace@ == c.workspace@,
        out.run.todos@ == c.todos@,
        out.run.prompt_id@ == t.prompt_id@,
        out.run.park is None,
        out.finalized == t.finalized,
        out.keep_workspace == c.keep_workspace,
        t.artifact_dir is Some ==> opt_view(out.run.artifact_dir) == Some(t.artifact_dir->0@),
        t.artifact_dir is None ==> opt_view(out.run.artifact_dir) == registry_artifacts,
{
}

/// A finalized replay is marked so and has its artifacts; all else of its checkpoint stays.
pub proof fn finalizing_changes_only_the_mark(
    c: Checkpoint,
    p: ReplayCheckpoint,
    t: ReplayTerminalCheckpoint,
    artifact_dir: Option<String>,
)
    ensures
        ({
            let f = finalized_with(c, p, t, artifact_dir);
            &&& f.replay is Some && f.replay->0.terminal is Some
            &&& f.replay->0.terminal->0.finalized
            &&& f.replay->0.terminal->0.artifact_dir == artifact_dir
            &&& f.replay->0.terminal->0.success == t.success
            &&& f.replay->0.terminal->0.summary == t.summary
            &&& f.replay->0.manifest_digest == p.manifest_digest
            &&& f.replay->0.usage == p.usage
            &&& f.messages == c.messages && f.run_id == c.run_id && f.completed_turns
                == c.completed_turns
        }),
{
}

} // verus!
