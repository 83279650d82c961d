//! Run preparation: the state that an attempt starts from, what it announces,
//! and the order in which that state becomes durable.
use vstd::prelude::*;
use vstd::string::*;

use crate::checkpoint::Checkpoint;
#[allow(unused_imports)]
use crate::checkpoint::ParkedState;
use crate::config::Config;
#[allow(unused_imports)]
use crate::content::ContentCheckpointBinding;
use crate::events::HarnessEvent;
use crate::model::ChatMessage;
#[allow(unused_imports)]
use crate::model::{message_views, ChatMessageView, ToolCallView};
use crate::registry::RegistryError;
use crate::text::same;
#[allow(unused_imports)]
use crate::text::opt_view;
use crate::tools::TodoItem;

#[allow(unused_imports)]
use super::model_turn::run_message;
use super::resume::adapter_of;
#[allow(unused_imports)]
use super::resume::checkpoint_adapter;
use super::session::message_error;
#[allow(unused_imports)]
use super::session::{checkpoint_of, RunSession};
use super::{GovernanceError, RunError, RunRequest};

verus! {

// ---------------------------------------------------------------------------
// The initial state
// ---------------------------------------------------------------------------

/// What becomes of a workspace once its run is done with it.
#[derive(Debug, Clone, Copy, PartialEq, Eq, Structural)]
pub enum WorkspaceCleanup {
    Keep,
    RemoveDir,
}

/// A workspace that is there.
#[derive(Debug, Clone, PartialEq, Eq)]
pub struct MaterializedWorkspace {
    pub path: String,
    pub adapter: String,
    pub cleanup: WorkspaceCleanup,
}

/// What an attempt starts from.
#[derive(Debug)]
pub struct InitialState {
    pub run_id: String,
    pub messages: Vec<ChatMessage>,
    pub turns: u32,
    pub workspace: MaterializedWorkspace,
    pub task: String,
    pub keep_workspace: bool,
    pub todos: Vec<TodoItem>,
}

/// The message that gives the operator's answer to the model.
pub open spec fn answer_message(answer: Seq<char>, tool_call_id: Seq<char>) -> ChatMessageView {
    ChatMessageView {
        role: "tool"@,
        content: "operator answer: "@ + answer,
        tool_call_id,
        tool_calls: Seq::empty(),
    }
}

/// The message that gives the task to the model.
pub open spec fn task_message(task: Seq<char>) -> ChatMessageView {
    ChatMessageView {
        role: "user"@,
        content: task,
        tool_call_id: Seq::empty(),
        tool_calls: Seq::empty(),
    }
}

/// Why a checkpoint cannot be continued with the request's answer.
pub open spec fn answer_fault(request: RunRequest, id: Seq<char>, c: Checkpoint) -> Option<
    Seq<char>,
> {
    if c.park is Some && request.resume_answer is None {
        Some(
            "run "@ + id + " is parked (reason: "@ + c.park->0.reason@
                + "); supply resume_answer / --answer to continue"@,
        )
    } else if c.park is None && request.resume_answer is Some {
        Some("resume_answer provided but run is not parked"@)
    } else {
        None
    }
}

/// The conversation of a resumed attempt: that of the checkpoint, and the
/// answer where it was parked.
pub open spec fn resumed_messages(request: RunRequest, c: Checkpoint) -> Seq<ChatMessageView> {
    if c.park is Some {
        message_views(c.messages@).push(
            answer_message(request.resume_answer->0@, c.park->0.tool_call_id@),
        )
    } else {
        message_views(c.messages@)
    }
}

/// Whether a state is the one that a checkpoint is resumed from.
pub open spec fn resumes(
    s: InitialState,
    config: Config,
    request: RunRequest,
    c: Checkpoint,
    workspace: Seq<char>,
) -> bool {
    &&& s.run_id@ == c.run_id@
    &&& message_views(s.messages@) == resumed_messages(request, c)
    &&& s.turns == c.completed_turns
    &&& s.workspace.path@ == workspace
    &&& s.workspace.adapter@ == checkpoint_adapter(config, c)
    &&& s.workspace.cleanup == if c.keep_workspace || c.workspace_adapter@ == "inplace"@ {
        WorkspaceCleanup::Keep
    } else {
        WorkspaceCleanup::RemoveDir
    }
    &&& s.task@ == if request.task@.len() == 0 {
        c.task@
    } else {
        request.task@
    }
    &&& s.keep_workspace == (c.keep_workspace || request.keep_workspace)
    &&& s.todos@ == c.todos@
}

/// The state that a checkpoint is resumed from. `workspace` is its workspace
/// where that is still trusted.
pub fn resumed_state(
    config: &Config,
    request: &RunRequest,
    resume_id: &str,
    checkpoint: Option<Checkpoint>,
    workspace: Result<String, RunError>,
) -> (r: Result<InitialState, RunError>)
    ensures
        match checkpoint {
            None => r matches Err(e) && run_message(
                e,
                "checkpoint snapshot missing for run "@ + resume_id@,
            ),
            Some(c) => match workspace {
                Err(w) => r matches Err(e) && e == w,
                Ok(path) => match answer_fault(*request, resume_id@, c) {
                    Some(m) => r matches Err(e) && run_message(e, m),
                    None => r matches Ok(s) && resumes(s, *config, *request, c, path@),
                },
            },
        },
{
    match checkpoint {
        None => {
            let mut s = "checkpoint snapshot missing for run ".to_owned();
            s.append(resume_id);
            Err(RunError::Message(s))
        },
        Some(c) => match workspace {
            Err(e) => Err(e),
            Ok(path) => {
                let adapter = adapter_of(config, &c);
                let cleanup = if c.keep_workspace || same(c.workspace_adapter.as_str(), "inplace") {
                    WorkspaceCleanup::Keep
                } else {
                    WorkspaceCleanup::RemoveDir
                };
                let task = if request.task.as_str().is_empty() {
                    c.task.clone()
                } else {
                    request.task.clone()
                };
                let ghost whole = c;
                let mut messages = c.messages;
                match &c.park {
                    Some(park) => match &request.resume_answer {
                        None => {
                            let mut s = "run ".to_owned();
                            s.append(resume_id);
                            s.append(" is parked (reason: ");
                            s.append(park.reason.as_str());
                            s.append("); supply resume_answer / --answer to continue");
                            return Err(RunError::Message(s));
                        },
                        Some(answer) => {
                            let mut content = "operator answer: ".to_owned();
                            content.append(answer.as_str());
                            let message = ChatMessage {
                                role: "tool".to_owned(),
                                content,
                                tool_call_id: park.tool_call_id.clone(),
                                tool_calls: Vec::new(),
                            };
                            assert(message@.tool_calls =~= Seq::<ToolCallView>::empty());
                            let ghost before = messages@;
                            messages.push(message);
                            assert(message_views(messages@) =~= message_views(before).push(
                                message@,
                            ));
                        },
                    },
                    None => {
                        if request.resume_answer.is_some() {
                            return Err(
                                message_error("resume_answer provided but run is not parked"),
                            );
                        }
                    },
                }
                Ok(
                    InitialState {
                        run_id: c.run_id,
                        messages,
                        turns: c.completed_turns,
                        workspace: MaterializedWorkspace { path, adapter, cleanup },
                        task,
                        keep_workspace: c.keep_workspace || request.keep_workspace,
                        todos: c.todos,
                    },
                )
            },
        },
    }
}

/// The state that a fresh attempt starts from. `workspace` is what was
/// materialized for it.
pub fn fresh_state(request: &RunRequest, run_id: String, workspace: Result<
    MaterializedWorkspace,
    String,
>) -> (r: Result<InitialState, RunError>)
    ensures
        match workspace {
            Err(m) => r matches Err(RunError::Workspace(t)) && t@ == m@,
            Ok(w) => r matches Ok(s) && s.run_id@ == run_id@ && message_views(s.messages@) == seq![
                task_message(request.task@),
            ] && s.turns == 0 && s.workspace == w && s.task@ == request.task@ && s.keep_workspace
                == request.keep_workspace && s.todos@.len() == 0,
        },
{
    match workspace {
        Err(m) => Err(RunError::Workspace(m)),
        Ok(workspace) => {
            let message = ChatMessage {
                role: "user".to_owned(),
                content: request.task.clone(),
                tool_call_id: String::new(),
                tool_calls: Vec::new(),
            };
            assert(message@ =~= task_message(request.task@));
            let mut messages: Vec<ChatMessage> = Vec::new();
            messages.push(message);
            assert(message_views(messages@) =~= seq![message@]);
            Ok(
                InitialState {
                    run_id,
                    messages,
                    turns: 0,
                    workspace,
                    task: request.task.clone(),
                    keep_workspace: request.keep_workspace,
                    todos: Vec::new(),
                },
            )
        },
    }
}

// ---------------------------------------------------------------------------
// Snapshots and announcements
// ---------------------------------------------------------------------------

/// What is done with the snapshots of a workspace before its run.
#[derive(Debug)]
pub enum SnapshotPlan {
    Restore(String),
    CaptureInitial,
    Nothing,
}

/// What was done with them.
#[derive(Debug)]
pub enum SnapshotOutcome {
    Unchanged,
    Captured { name: String, path: String },
    Restored { name: String },
}

/// Refuses to restore a snapshot into a workspace that is the host's own tree.
pub fn check_restore(adapter: &str, request: &RunRequest) -> (r: Result<(), RunError>)
    ensures
        match r {
            Ok(_) => request.restore_snapshot is None || adapter@ != "inplace"@,
            Err(e) => request.restore_snapshot is Some && adapter@ == "inplace"@ && run_message(
                e,
                "restore_snapshot is not supported with workspace adapter `inplace`"@,
            ),
        },
{
    if request.restore_snapshot.is_some() && same(adapter, "inplace") {
        Err(
            RunError::Message(
                "restore_snapshot is not supported with workspace adapter `inplace`".to_owned(),
            ),
        )
    } else {
        Ok(())
    }
}

/// What is done with the snapshots of a workspace: a named snapshot is restored,
/// else an initial one is captured where the configuration asks for it.
pub fn snapshot_plan(config: &Config, request: &RunRequest) -> (p: SnapshotPlan)
    ensures
        match request.restore_snapshot {
            Some(name) => p matches SnapshotPlan::Restore(n) && n@ == name@,
            None => p == if config.workspace.snapshot {
                SnapshotPlan::CaptureInitial
            } else {
                SnapshotPlan::Nothing
            },
        },
{
    match &request.restore_snapshot {
        Some(name) => SnapshotPlan::Restore(name.clone()),
        None => if config.workspace.snapshot {
            SnapshotPlan::CaptureInitial
        } else {
            SnapshotPlan::Nothing
        },
    }
}

/// Whether an event is a message of a level with a text.
pub open spec fn says(event: HarnessEvent, level: Seq<char>, text: Seq<char>) -> bool {
    event matches HarnessEvent::Message { level: l, text: t } && l@ == level && t@ == text
}

fn info(text: String) -> (e: HarnessEvent)
    ensures
        says(e, "info"@, text@),
{
    HarnessEvent::Message { level: "info".to_owned(), text }
}

/// What a run announces of its snapshots.
pub fn snapshot_event(outcome: &SnapshotOutcome) -> (r: Option<HarnessEvent>)
    ensures
        match *outcome {
            SnapshotOutcome::Unchanged => r is None,
            SnapshotOutcome::Captured { name, path } => r matches Some(e) && says(
                e,
                "info"@,
                "snapshot "@ + name@ + " at "@ + path@,
            ),
            SnapshotOutcome::Restored { name } => r matches Some(e) && says(
                e,
                "info"@,
                "restored snapshot `"@ + name@ + "`"@,
            ),
        },
{
    match outcome {
        SnapshotOutcome::Unchanged => None,
        SnapshotOutcome::Captured { name, path } => {
            let mut s = "snapshot ".to_owned();
            s.append(name.as_str());
            s.append(" at ");
            s.append(path.as_str());
            Some(info(s))
        },
        SnapshotOutcome::Restored { name } => {
            let mut s = "restored snapshot `".to_owned();
            s.append(name.as_str());
            s.append("`");
            Some(info(s))
        },
    }
}

/// A context source by name and digest.
#[derive(Debug)]
pub struct ContextSource {
    pub name: String,
    pub digest: String,
}

pub open spec fn source_text(label: Seq<char>, s: ContextSource) -> Seq<char> {
    label + s.name@ + " digest="@ + s.digest@
}

fn source_event(label: &str, source: &ContextSource) -> (e: HarnessEvent)
    ensures
        says(e, "info"@, source_text(label@, *source)),
{
    let mut s = label.to_owned();
    s.append(source.name.as_str());
    s.append(" digest=");
    s.append(source.digest.as_str());
    info(s)
}

/// Whether the event at some place announces the context of a run: the prompt,
/// the project rules where there are some, each skill, and the workspace.
pub open spec fn announces(
    event: HarnessEvent,
    i: int,
    prompt_id: Seq<char>,
    rules: Option<ContextSource>,
    skills: Seq<ContextSource>,
    workspace: Seq<char>,
) -> bool {
    let first: int = if rules is Some {
        2
    } else {
        1
    };
    if i == 0 {
        event matches HarnessEvent::Prompt { prompt_id: p } && p@ == prompt_id
    } else if i < first {
        says(event, "info"@, source_text("project_rules "@, rules->0))
    } else if i < first + skills.len() {
        says(event, "info"@, source_text("skill "@, skills[i - first]))
    } else {
        says(event, "info"@, "workspace "@ + workspace)
    }
}

/// What a run announces of its context. Sources are named by digest alone.
pub fn context_events(
    prompt_id: &str,
    rules: &Option<ContextSource>,
    skills: &Vec<ContextSource>,
    workspace: &str,
) -> (v: Vec<HarnessEvent>)
    ensures
        v@.len() == skills@.len() + if rules is Some {
            3int
        } else {
            2int
        },
        forall|i: int|
            0 <= i < v@.len() ==> announces(
                #[trigger] v@[i],
                i,
                prompt_id@,
                *rules,
                skills@,
                workspace@,
            ),
{
    let mut v: Vec<HarnessEvent> = Vec::new();
    v.push(HarnessEvent::Prompt { prompt_id: prompt_id.to_owned() });
    if let Some(r) = rules {
        v.push(source_event("project_rules ", r));
    }
    let ghost first = v@.len();
    let mut i: usize = 0;
    while i < skills.len()
        invariant
            i <= skills@.len(),
            first == if rules is Some {
                2int
            } else {
                1int
            },
            v@.len() == first + i,
            forall|j: int|
                0 <= j < v@.len() ==> announces(
                    #[trigger] v@[j],
                    j,
                    prompt_id@,
                    *rules,
                    skills@,
                    workspace@,
                ),
        decreases skills@.len() - i,
    {
        v.push(source_event("skill ", &skills[i]));
        i = i + 1;
    }
    let mut s = "workspace ".to_owned();
    s.append(workspace);
    v.push(info(s));
    v
}

/// The error of a run whose registry record could not be updated.
pub fn update_refused(error: &RegistryError) -> (e: RunError)
    ensures
        run_message(e, "run registry update failed: "@ + error.text()),
{
    let why = error.message();
    let mut s = "run registry update failed: ".to_owned();
    s.append(why.as_str());
    RunError::Message(s)
}

/// The error of a run whose pre-run hook failed.
pub fn pre_hook_failed(error: &str) -> (e: RunError)
    ensures
        e matches RunError::Governance(GovernanceError::Message(m)) && m@
            == "pre-run hook failed; governed state remains checkpointed for resume: "@ + error@,
{
    let mut s = "pre-run hook failed; governed state remains checkpointed for resume: ".to_owned();
    s.append(error);
    RunError::Governance(GovernanceError::Message(s))
}

// ---------------------------------------------------------------------------
// Initial durability
// ---------------------------------------------------------------------------

/// Where an admitted attempt stands until its state is durable.
#[derive(Debug, Clone, Copy, PartialEq, Eq, Structural)]
pub enum InitialStage {
    /// Save the checkpoint for the first time.
    Save,
    /// Take back the receipt that no checkpoint holds.
    Compensate,
    /// Recover staged tool executions.
    Recover,
    /// Replay staged tool reports.
    Replay,
    /// Save the recovered state.
    SaveAgain,
    /// The attempt may run.
    Ready,
    /// The attempt ends with the error of a save.
    SaveFailed,
    /// The attempt ends with both errors.
    CompensationFailed,
    /// The attempt ends with the error of governance.
    GovernanceFailed,
}

/// Where an attempt goes once a step succeeded or failed. `durable` says whether
/// an earlier checkpoint holds the receipt already, `required` whether the run
/// requires governance.
pub open spec fn initial_after(
    stage: InitialStage,
    durable: bool,
    required: bool,
    ok: bool,
) -> InitialStage {
    match stage {
        InitialStage::Save => if ok {
            InitialStage::Recover
        } else if durable {
            InitialStage::SaveFailed
        } else {
            InitialStage::Compensate
        },
        InitialStage::Compensate => if ok {
            InitialStage::SaveFailed
        } else {
            InitialStage::CompensationFailed
        },
        InitialStage::Recover => if ok {
            InitialStage::Replay
        } else {
            InitialStage::GovernanceFailed
        },
        InitialStage::Replay => if ok || !required {
            InitialStage::SaveAgain
        } else {
            InitialStage::GovernanceFailed
        },
        InitialStage::SaveAgain => if ok {
            InitialStage::Ready
        } else {
            InitialStage::SaveFailed
        },
        last => last,
    }
}

/// Where an attempt goes once a step succeeded or failed.
pub fn advance_initial(stage: InitialStage, durable: bool, required: bool, ok: bool) -> (next:
    InitialStage)
    ensures
        next == initial_after(stage, durable, required, ok),
{
    match stage {
        InitialStage::Save => if ok {
            InitialStage::Recover
        } else if durable {
            InitialStage::SaveFailed
        } else {
            InitialStage::Compensate
        },
        InitialStage::Compensate => if ok {
            InitialStage::SaveFailed
        } else {
            InitialStage::CompensationFailed
        },
        InitialStage::Recover => if ok {
            InitialStage::Replay
        } else {
            InitialStage::GovernanceFailed
        },
        InitialStage::Replay => if ok || !required {
            InitialStage::SaveAgain
        } else {
            InitialStage::GovernanceFailed
        },
        InitialStage::SaveAgain => if ok {
            InitialStage::Ready
        } else {
            InitialStage::SaveFailed
        },
        last => last,
    }
}

/// The stage that a sequence of outcomes leads to.
pub open spec fn initial_trace(durable: bool, required: bool, oks: Seq<bool>) -> InitialStage
    decreases oks.len(),
{
    if oks.len() == 0 {
        InitialStage::Save
    } else {
        initial_after(
            initial_trace(durable, required, oks.drop_last()),
            durable,
            required,
            oks.last(),
        )
    }
}

proof fn initial_facts(durable: bool, required: bool, oks: Seq<bool>)
    ensures
        ({
            let s = initial_trace(durable, required, oks);
            &&& s == InitialStage::Save ==> oks.len() == 0
            &&& s == InitialStage::Compensate ==> oks.len() >= 1 && !durable && !oks[0]
            &&& s == InitialStage::Recover ==> oks.len() == 1 && oks[0]
            &&& s == InitialStage::Replay ==> oks.len() == 2 && oks[0] && oks[1]
            &&& s == InitialStage::SaveAgain ==> oks.len() == 3 && oks[0] && oks[1] && (required
                ==> oks[2])
            &&& s == InitialStage::Ready ==> oks.len() >= 4 && oks[0] && oks[1] && (required
                ==> oks[2]) && oks[3]
        }),
    decreases oks.len(),
{
    if oks.len() > 0 {
        initial_facts(durable, required, oks.drop_last());
    }
}

/// An attempt runs only once its checkpoint was saved, staged executions were
/// recovered, reports were replayed where governance is required, and the
/// recovered state was saved again.
pub proof fn attempt_is_durable_before_it_runs(durable: bool, required: bool, oks: Seq<bool>)
    requires
        initial_trace(durable, required, oks) == InitialStage::Ready,
    ensures
        oks.len() >= 4,
        oks[0] && oks[1] && oks[3],
        required ==> oks[2],
{
    initial_facts(durable, required, oks);
}

/// A receipt is taken back only if no checkpoint ever held it.
pub proof fn durable_receipt_is_not_taken_back(durable: bool, required: bool, oks: Seq<bool>)
    requires
        initial_trace(durable, required, oks) == InitialStage::Compensate,
    ensures
        !durable,
        !oks[0],
{
    initial_facts(durable, required, oks);
}

/// Why a receipt is taken back.
pub fn compensation_reason(error: &RunError) -> (s: String)
    ensures
        s@ == "initial checkpoint failed: "@ + error.text(),
{
    let why = error.message();
    let mut s = "initial checkpoint failed: ".to_owned();
    s.append(why.as_str());
    s
}

/// The error where the receipt could not be taken back either.
pub fn compensation_failed(error: &RunError, compensation: &str) -> (e: RunError)
    ensures
        run_message(
            e,
            "initial checkpoint failed: "@ + error.text()
                + "; governance receipt compensation failed: "@ + compensation@,
        ),
{
    let mut s = compensation_reason(error);
    s.append("; governance receipt compensation failed: ");
    s.append(compensation);
    RunError::Message(s)
}

/// Whether a failed report ends the run: only where governance is required.
pub fn report_result(report: Result<(), GovernanceError>, required: bool) -> (r: Result<
    (),
    RunError,
>)
    ensures
        match report {
            Err(g) => if required {
                r matches Err(RunError::Governance(e)) && e == g
            } else {
                r is Ok
            },
            Ok(_) => r is Ok,
        },
{
    match report {
        Err(error) => {
            if required {
                return Err(RunError::Governance(error));
            }
            Ok(())
        },
        Ok(_) => Ok(()),
    }
}

// ---------------------------------------------------------------------------
// Artifacts
// ---------------------------------------------------------------------------

fn warning(label: &str, why: &str) -> (e: HarnessEvent)
    ensures
        says(e, "warn"@, label@ + why@),
{
    let mut s = label.to_owned();
    s.append(why);
    HarnessEvent::Message { level: "warn".to_owned(), text: s }
}

/// What is announced once the baseline of a run's artifacts was captured.
pub fn baseline_event(captured: &Result<(), String>) -> (r: Option<HarnessEvent>)
    ensures
        match *captured {
            Ok(_) => r is None,
            Err(m) => r matches Some(e) && says(
                e,
                "warn"@,
                "artifact baseline capture failed: "@ + m@,
            ),
        },
{
    match captured {
        Ok(_) => None,
        Err(m) => Some(warning("artifact baseline capture failed: ", m.as_str())),
    }
}

/// The artifact directory of a run and what is announced of it. Neither a
/// capture nor a registry link that failed ends the run.
pub fn finalized_artifacts(captured: Result<String, String>, linked: &Result<(), RegistryError>) -> (r: (
    Option<String>,
    Option<HarnessEvent>,
))
    ensures
        match captured {
            Ok(path) => opt_view(r.0) == Some(path@) && match *linked {
                Ok(_) => r.1 is None,
                Err(x) => r.1 matches Some(e) && says(
                    e,
                    "warn"@,
                    "artifact registry linkage failed: "@ + x.text(),
                ),
            },
            Err(m) => r.0 is None && (r.1 matches Some(e) && says(
                e,
                "warn"@,
                "artifact capture failed: "@ + m@,
            )),
        },
{
    match captured {
        Ok(path) => {
            let event = match linked {
                Ok(_) => None,
                Err(error) => {
                    let why = error.message();
                    Some(warning("artifact registry linkage failed: ", why.as_str()))
                },
            };
            (Some(path), event)
        },
        Err(m) => (None, Some(warning("artifact capture failed: ", m.as_str()))),
    }
}

/// The steps of an attempt whose outcomes are all well but, perhaps, that of the replay.
pub open spec fn well_but_replay(n: int, replayed: bool) -> Seq<bool> {
    seq![true, true, replayed, true].take(n)
}

/// An attempt is saved, recovered, replayed and saved again, and is ready then; a replay
/// that fails stops it just where the replay is required.
pub proof fn attempt_takes_every_step(durable: bool, required: bool, replayed: bool)
    ensures
        initial_trace(durable, required, well_but_replay(0, replayed)) == InitialStage::Save,
        initial_trace(durable, required, well_but_replay(1, replayed)) == InitialStage::Recover,
        initial_trace(durable, required, well_but_replay(2, replayed)) == InitialStage::Replay,
        replayed || !required ==> initial_trace(durable, required, well_but_replay(3, replayed))
            == InitialStage::SaveAgain,
        replayed || !required ==> initial_trace(durable, required, well_but_replay(4, replayed))
            == InitialStage::Ready,
        !replayed && required ==> initial_trace(durable, required, well_but_replay(3, replayed))
            == InitialStage::GovernanceFailed,
{
    let s0 = well_but_replay(0, replayed);
    let s1 = well_but_replay(1, replayed);
    let s2 = well_but_replay(2, replayed);
    let s3 = well_but_replay(3, replayed);
    let s4 = well_but_replay(4, replayed);
    assert(s1.drop_last() =~= s0);
    assert(s2.drop_last() =~= s1);
    assert(s3.drop_last() =~= s2);
    assert(s4.drop_last() =~= s3);
    assert(initial_trace(durable, required, s0) == InitialStage::Save);
}

/// A first save that fails takes the receipt back where the receipt is not durable, and the
/// attempt then fails for the save, or for the receipt where that cannot be taken back.
pub proof fn failed_save_takes_the_receipt_back(required: bool, first: Seq<bool>, both: Seq<bool>)
    requires
        first.len() == 1,
        !first[0],
        both.len() == 2,
        !both[0],
    ensures
        initial_trace(true, required, first) == InitialStage::SaveFailed,
        initial_trace(false, required, first) == InitialStage::Compensate,
        initial_trace(false, required, both) == if both[1] {
            InitialStage::SaveFailed
        } else {
            InitialStage::CompensationFailed
        },
{
    assert(first.drop_last() =~= Seq::<bool>::empty());
    assert(both.drop_last() =~= first);
    assert(initial_trace(false, required, first.drop_last()) == InitialStage::Save);
    assert(initial_trace(true, required, first.drop_last()) == InitialStage::Save);
    assert(initial_trace(false, required, first) == InitialStage::Compensate);
}

/// An answer is asked for just where a run is parked; without one a parked run does not
/// resume, and with one no other run does.
pub proof fn answer_fits_a_park(request: RunRequest, id: Seq<char>, c: Checkpoint)
    ensures
        answer_fault(request, id, c) is None <==> (c.park is Some <==> request.resume_answer
            is Some),
{
}

/// A resumed run has the messages it was saved with, in their order; a parked one has
/// besides, as its last, the operator's answer to the call that it was parked for.
pub proof fn resumed_run_keeps_its_conversation(request: RunRequest, id: Seq<char>, c: Checkpoint)
    requires
        answer_fault(request, id, c) is None,
    ensures
        c.park is None ==> resumed_messages(request, c) == message_views(c.messages@),
        c.park is Some ==> resumed_messages(request, c).len() == c.messages@.len() + 1
            && resumed_messages(request, c).drop_last() == message_views(c.messages@)
            && resumed_messages(request, c).last().role == "tool"@
            && resumed_messages(request, c).last().tool_call_id == c.park->0.tool_call_id@
            && resumed_messages(request, c).last().content == "operator answer: "@
            + request.resume_answer->0@,
{
    if c.park is Some {
        assert(message_views(c.messages@).len() == c.messages@.len());
        assert(resumed_messages(request, c).drop_last() =~= message_views(c.messages@));
    }
}

/// A resumed run goes on under its id, after the turns it had, with its todos and in its
/// workspace. It keeps a workspace that it or the request is to keep; the task is the
/// request's where that names one.
pub proof fn resumed_run_goes_on(
    s: InitialState,
    config: Config,
    request: RunRequest,
    c: Checkpoint,
    workspace: Seq<char>,
)
    requires
        resumes(s, config, request, c, workspace),
    ensures
        s.run_id@ == c.run_id@,
        s.turns == c.completed_turns,
        s.todos@ == c.todos@,
        s.workspace.path@ == workspace,
        c.keep_workspace || request.keep_workspace ==> s.keep_workspace,
        !c.keep_workspace && !request.keep_workspace ==> !s.keep_workspace,
        c.keep_workspace || c.workspace_adapter@ == "inplace"@ ==> s.workspace.cleanup
            == WorkspaceCleanup::Keep,
        request.task@.len() == 0 ==> s.task@ == c.task@,
        request.task@.len() > 0 ==> s.task@ == request.task@,
{
}

/// The prompt is announced first and the workspace last; the rules stand between them
/// before the skills, each with its name and digest.
pub proof fn context_is_announced_in_order(
    event: HarnessEvent,
    i: int,
    prompt_id: Seq<char>,
    rules: Option<ContextSource>,
    skills: Seq<ContextSource>,
    workspace: Seq<char>,
)
    requires
        announces(event, i, prompt_id, rules, skills, workspace),
    ensures
        i == 0 ==> event is Prompt && event->Prompt_prompt_id@ == prompt_id,
        i == 1 && rules is Some ==> says(
            event,
            "info"@,
            "project_rules "@ + rules->0.name@ + " digest="@ + rules->0.digest@,
        ),
        rules is Some && 2 <= i < 2 + skills.len() ==> says(
            event,
            "info"@,
            "skill "@ + skills[i - 2].name@ + " digest="@ + skills[i - 2].digest@,
        ),
        rules is None && 1 <= i < 1 + skills.len() ==> says(
            event,
            "info"@,
            "skill "@ + skills[i - 1].name@ + " digest="@ + skills[i - 1].digest@,
        ),
        rules is Some && i >= 2 + skills.len() || rules is None && i >= 1 + skills.len() ==> says(
            event,
            "info"@,
            "workspace "@ + workspace,
        ),
{
}

/// An attempt that was saved is resumed as it stood: the same id, conversation, turns and
/// todos, and the same task where the request names none. A saved park is answered first.
pub proof fn saved_attempt_is_resumed(
    saved: RunSession,
    keep_workspace: bool,
    park: Option<ParkedState>,
    prompt_id: Seq<char>,
    todos: Seq<TodoItem>,
    binding: Option<ContentCheckpointBinding>,
    c: Checkpoint,
    config: Config,
    request: RunRequest,
    workspace: Seq<char>,
    s: InitialState,
)
    requires
        checkpoint_of(c, saved, keep_workspace, park, prompt_id, todos, binding),
        resumes(s, config, request, c, workspace),
        answer_fault(request, c.run_id@, c) is None,
    ensures
        s.run_id@ == saved.run_id@,
        s.turns == saved.turns,
        s.todos@ == todos,
        request.task@.len() == 0 ==> s.task@ == saved.task@,
        park is None ==> message_views(s.messages@) == message_views(saved.messages@),
        park is Some ==> message_views(s.messages@).drop_last() == message_views(saved.messages@)
            && message_views(s.messages@).last().tool_call_id == park->0.tool_call_id@,
        keep_workspace ==> s.keep_workspace && s.workspace.cleanup == WorkspaceCleanup::Keep,
{
    if park is Some {
        resumed_run_keeps_its_conversation(request, c.run_id@, c);
    }
}

} // verus!
