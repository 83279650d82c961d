//! Run admission and supervision: the checks before an attempt, and what is
//! recorded once it has ended.
use vstd::prelude::*;
use vstd::string::*;
#[allow(unused_imports)]
use vstd::utf8::*;

#[allow(unused_imports)]
use crate::canonical::{bare_number_cancels, label_cancels, pieces_regroup};
use crate::checkpoint::Checkpoint;
#[allow(unused_imports)]
use crate::checkpoint::safe_run_id;
use crate::config::Config;
use crate::content::{ContentCapabilitiesV1, ContentPartKind};
use crate::digest::digest_label;
#[allow(unused_imports)]
use crate::digest::sha256_label;
use crate::events::push_number;
use crate::ids::fresh_id;
#[allow(unused_imports)]
use crate::ids::{fresh_ids_are_safe, is_fresh_form};
use crate::model::CostEstimate;
use crate::registry::{RegistryError, RunRegistry, RunSlot};
#[allow(unused_imports)]
use crate::registry::{failed, finished, known, str_view, SlotView};
use crate::replay::ReplayExecution;
use crate::text::same;
#[allow(unused_imports)]
use crate::text::{byte_len, decimal, opt_view, texts};
use crate::tools::duplicate_todos;

#[allow(unused_imports)]
use super::model_turn::run_message;
use super::resume::adapter_of;
#[allow(unused_imports)]
use super::resume::checkpoint_adapter;
use super::session::{message_error, ContentCheckpointV1};
use super::{ParkInfo, RunError, RunRequest, RunResult};

verus! {

// ---------------------------------------------------------------------------
// Preflight
// ---------------------------------------------------------------------------

/// A checkpoint as it was loaded, with the digest of its bytes.
#[derive(Debug)]
pub struct LoadedCheckpoint {
    pub checkpoint: Checkpoint,
    pub digest: String,
}

/// What a resumed attempt is checked against.
#[derive(Debug)]
pub struct ResumeChecks {
    /// Why the checkpoint does not belong to the current prompt, if it does not.
    pub prompt_fault: Option<String>,
    /// Why the workspace of the checkpoint is not trusted, if it is not.
    pub workspace_fault: Option<String>,
}

/// Why a checkpoint cannot be resumed as a replay, or outside of one.
pub open spec fn replay_fault(
    c: Checkpoint,
    id: Seq<char>,
    replay: Option<ReplayExecution>,
) -> Option<
    Seq<char>,
> {
    match (c.replay, replay) {
        (None, None) => None,
        (Some(_), None) => Some("replay checkpoints must be resumed through Harness::replay"@),
        (None, Some(_)) => Some("run "@ + id + " is not a replay attempt"@),
        (Some(own), Some(x)) => if own.manifest_digest@ != x.manifest_digest@ {
            Some("replay manifest digest mismatch for run "@ + id)
        } else if own.terminal is Some {
            Some(
                "replay attempt "@ + id + " is already terminal and cannot be restarted"@,
            )
        } else if own.source_run_id@ != x.source_run_id@ {
            Some("replay source identity mismatch for run "@ + id)
        } else if own.workspace@ != c.workspace@ {
            Some("replay workspace binding mismatch for run "@ + id)
        } else {
            None
        },
    }
}

/// Why a checkpoint cannot be resumed as a content run, or outside of one.
pub open spec fn content_fault(c: Checkpoint, id: Seq<char>, resolver: Option<Seq<char>>) -> Option<
    Seq<char>,
> {
    match (c.content, resolver) {
        (None, None) => None,
        (Some(_), None) => Some(
            "content checkpoints must be resumed through Harness::run_content"@,
        ),
        (None, Some(_)) => Some("run "@ + id + " is not a bounded content run"@),
        (Some(binding), Some(r)) => if binding.resolver_id@ != r {
            Some("content resolver binding mismatch for run "@ + id)
        } else {
            None
        },
    }
}

/// How a preflight ends.
pub enum Preflight {
    /// A run error with this message.
    Refused(Seq<char>),
    /// A checkpoint error with this message.
    Unfit(Seq<char>),
    Passed,
}

/// Why a checkpoint cannot be continued with what the request gives.
pub open spec fn continuation_fault(
    config: Config,
    c: Checkpoint,
    id: Seq<char>,
    request: RunRequest,
) -> Option<
    Seq<char>,
> {
    if request.restore_snapshot is Some && checkpoint_adapter(config, c) == "inplace"@ {
        Some("restore_snapshot is not supported with workspace adapter `inplace`"@)
    } else if c.park is Some && request.resume_answer is None {
        Some("run "@ + id + " is parked; supply resume_answer / --answer to continue"@)
    } else if c.park is None && request.resume_answer is Some {
        Some("resume_answer provided but run is not parked"@)
    } else {
        None
    }
}

/// Whether a resumed attempt may start, and what stops it first.
pub open spec fn resumed_preflight(
    config: Config,
    id: Seq<char>,
    request: RunRequest,
    loaded: LoadedCheckpoint,
    expected: Option<Seq<char>>,
    replay: Option<ReplayExecution>,
    resolver: Option<Seq<char>>,
    checks: ResumeChecks,
) -> Preflight {
    let c = loaded.checkpoint;
    if expected is Some && expected->0 != loaded.digest@ {
        Preflight::Refused("checkpoint digest mismatch for run "@ + id)
    } else if replay_fault(c, id, replay) is Some {
        Preflight::Refused(replay_fault(c, id, replay)->0)
    } else if content_fault(c, id, resolver) is Some {
        Preflight::Refused(content_fault(c, id, resolver)->0)
    } else if checks.prompt_fault is Some {
        Preflight::Unfit(checks.prompt_fault->0@)
    } else if checks.workspace_fault is Some {
        Preflight::Refused(checks.workspace_fault->0@)
    } else if continuation_fault(config, c, id, request) is Some {
        Preflight::Refused(continuation_fault(config, c, id, request)->0)
    } else {
        Preflight::Passed
    }
}

fn about(before: &str, id: &str, after: &str) -> (e: RunError)
    ensures
        run_message(e, before@ + id@ + after@),
{
    let mut s = before.to_owned();
    s.append(id);
    s.append(after);
    RunError::Message(s)
}

fn about_run(before: &str, id: &str) -> (e: RunError)
    ensures
        run_message(e, before@ + id@),
{
    let mut s = before.to_owned();
    s.append(id);
    RunError::Message(s)
}

fn check_replay(c: &Checkpoint, id: &str, replay: Option<&ReplayExecution>) -> (r: Result<
    (),
    RunError,
>)
    ensures
        match replay_fault(*c, id@, (match replay {
            Some(x) => Some(*x),
            None => None,
        })) {
            Some(m) => r matches Err(e) && run_message(e, m),
            None => r is Ok,
        },
{
    match (&c.replay, replay) {
        (None, None) => Ok(()),
        (Some(_), None) => Err(
            message_error("replay checkpoints must be resumed through Harness::replay"),
        ),
        (None, Some(_)) => Err(about("run ", id, " is not a replay attempt")),
        (Some(own), Some(x)) => {
            if !same(own.manifest_digest.as_str(), x.manifest_digest.as_str()) {
                return Err(about_run("replay manifest digest mismatch for run ", id));
            }
            if own.terminal.is_some() {
                return Err(
                    about(
                        "replay attempt ",
                        id,
                        " is already terminal and cannot be restarted",
                    ),
                );
            }
            if !same(own.source_run_id.as_str(), x.source_run_id.as_str()) {
                return Err(about_run("replay source identity mismatch for run ", id));
            }
            if !same(own.workspace.as_str(), c.workspace.as_str()) {
                return Err(about_run("replay workspace binding mismatch for run ", id));
            }
            Ok(())
        },
    }
}

fn check_content(c: &Checkpoint, id: &str, resolver: Option<&str>) -> (r: Result<(), RunError>)
    ensures
        match content_fault(*c, id@, str_view(resolver)) {
            Some(m) => r matches Err(e) && run_message(e, m),
            None => r is Ok,
        },
{
    match (&c.content, resolver) {
        (None, None) => Ok(()),
        (Some(_), None) => Err(
            message_error("content checkpoints must be resumed through Harness::run_content"),
        ),
        (None, Some(_)) => Err(about("run ", id, " is not a bounded content run")),
        (Some(binding), Some(r)) => {
            if !same(binding.resolver_id.as_str(), r) {
                return Err(about_run("content resolver binding mismatch for run ", id));
            }
            Ok(())
        },
    }
}

/// Checks a fresh attempt: it can be bound to no checkpoint.
pub fn preflight_fresh(expected_checkpoint_digest: Option<&str>) -> (r: Result<(), RunError>)
    ensures
        match expected_checkpoint_digest {
            Some(_) => r matches Err(e) && run_message(
                e,
                "checkpoint digest requires a resumed run"@,
            ),
            None => r is Ok,
        },
{
    if expected_checkpoint_digest.is_some() {
        return Err(message_error("checkpoint digest requires a resumed run"));
    }
    Ok(())
}

/// Checks an attempt that resumes a checkpoint.
pub fn preflight(
    config: &Config,
    resume_id: &str,
    request: &RunRequest,
    loaded: &LoadedCheckpoint,
    expected_checkpoint_digest: Option<&str>,
    replay: Option<&ReplayExecution>,
    resolver_id: Option<&str>,
    checks: &ResumeChecks,
) -> (r: Result<(), RunError>)
    ensures
        match resumed_preflight(
            *config,
            resume_id@,
            *request,
            *loaded,
            str_view(expected_checkpoint_digest),
            (match replay {
                Some(x) => Some(*x),
                None => None,
            }),
            str_view(resolver_id),
            *checks,
        ) {
            Preflight::Refused(m) => r matches Err(e) && run_message(e, m),
            Preflight::Unfit(m) => r matches Err(RunError::Checkpoint(t)) && t@ == m,
            Preflight::Passed => r is Ok,
        },
{
    let c = &loaded.checkpoint;
    if let Some(expected) = expected_checkpoint_digest {
        if !same(expected, loaded.digest.as_str()) {
            return Err(about_run("checkpoint digest mismatch for run ", resume_id));
        }
    }
    if let Err(e) = check_replay(c, resume_id, replay) {
        return Err(e);
    }
    if let Err(e) = check_content(c, resume_id, resolver_id) {
        return Err(e);
    }
    if let Some(m) = &checks.prompt_fault {
        return Err(RunError::Checkpoint(m.clone()));
    }
    if let Some(m) = &checks.workspace_fault {
        return Err(RunError::Message(m.clone()));
    }
    let adapter = adapter_of(config, c);
    if request.restore_snapshot.is_some() && same(adapter.as_str(), "inplace") {
        return Err(
            message_error("restore_snapshot is not supported with workspace adapter `inplace`"),
        );
    }
    if c.park.is_some() && request.resume_answer.is_none() {
        return Err(
            about(
                "run ",
                resume_id,
                " is parked; supply resume_answer / --answer to continue",
            ),
        );
    }
    if c.park.is_none() && request.resume_answer.is_some() {
        return Err(message_error("resume_answer provided but run is not parked"));
    }
    Ok(())
}

/// An attempt that passes is bound to the checkpoint it resumes: to its digest
/// where one is expected, to its replay and to its content resolver.
pub proof fn passed_attempt_is_bound(
    config: Config,
    id: Seq<char>,
    request: RunRequest,
    loaded: LoadedCheckpoint,
    expected: Option<Seq<char>>,
    replay: Option<ReplayExecution>,
    resolver: Option<Seq<char>>,
    checks: ResumeChecks,
)
    requires
        resumed_preflight(config, id, request, loaded, expected, replay, resolver, checks)
            is Passed,
    ensures
        expected is Some ==> expected->0 == loaded.digest@,
        replay is Some <==> loaded.checkpoint.replay is Some,
        replay is Some ==> loaded.checkpoint.replay->0.manifest_digest@
            == replay->0.manifest_digest@ && loaded.checkpoint.replay->0.terminal is None,
        resolver is Some <==> loaded.checkpoint.content is Some,
        resolver is Some ==> loaded.checkpoint.content->0.resolver_id@ == resolver->0,
        loaded.checkpoint.park is Some <==> request.resume_answer is Some,
{
}

/// The id that an attempt runs under: the one it resumes, or a fresh one.
pub fn attempt_run_id(request: &RunRequest) -> (id: String)
    ensures
        match request.resume_run_id {
            Some(resumed) => id@ == resumed@,
            None => is_fresh_form(id@) && safe_run_id(id@),
        },
{
    match &request.resume_run_id {
        Some(resumed) => resumed.clone(),
        None => {
            let id = fresh_id();
            proof {
                fresh_ids_are_safe(id@);
            }
            id
        },
    }
}

/// The error of a run that the registry did not start.
pub fn start_refused(error: &RegistryError) -> (e: RunError)
    ensures
        run_message(e, "run registry start failed: "@ + error.text()),
{
    let why = error.message();
    let mut s = "run registry start failed: ".to_owned();
    s.append(why.as_str());
    RunError::Message(s)
}

// ---------------------------------------------------------------------------
// The end of an attempt
// ---------------------------------------------------------------------------

/// What the registry keeps of the summary of a content run: its size and
/// digest.
pub open spec fn projected_text(summary: Seq<char>) -> Seq<char> {
    "bounded_content_result bytes="@ + decimal(byte_len(summary)) + " digest="@ + sha256_label(
        encode_utf8(summary),
    )
}

/// What the registry keeps of the summary of a content run.
pub fn projected_summary(summary: &str) -> (s: String)
    ensures
        s@ == projected_text(summary@),
{
    let mut s = "bounded_content_result bytes=".to_owned();
    push_number(&mut s, summary.as_bytes().len() as u64);
    s.append(" digest=");
    let digest = digest_label(summary.as_bytes());
    s.append(digest.as_str());
    s
}

/// Whether two results agree in all but their summaries.
pub open spec fn same_but_summary(a: RunResult, b: RunResult) -> bool {
    a == (RunResult { summary: a.summary, todos: a.todos, ..b }) && a.todos@ == b.todos@
}

fn copy_park(p: &ParkInfo) -> (r: ParkInfo)
    ensures
        r == *p,
{
    ParkInfo {
        reason: p.reason.clone(),
        question: p.question.clone(),
        tool_call_id: p.tool_call_id.clone(),
        kind: p.kind,
        approval_id: match &p.approval_id {
            Some(id) => Some(id.clone()),
            None => None,
        },
    }
}

/// The result as the registry records it for a content run.
pub fn projected_result(result: &RunResult) -> (r: RunResult)
    ensures
        same_but_summary(r, *result),
        r.summary@ == projected_text(result.summary@),
{
    RunResult {
        run_id: result.run_id.clone(),
        success: result.success,
        summary: projected_summary(result.summary.as_str()),
        turns: result.turns,
        workspace: result.workspace.clone(),
        artifact_dir: match &result.artifact_dir {
            Some(d) => Some(d.clone()),
            None => None,
        },
        termination: result.termination,
        park: match &result.park {
            Some(p) => Some(copy_park(p)),
            None => None,
        },
        prompt_id: result.prompt_id.clone(),
        usage: result.usage,
        cost: match &result.cost {
            Some(c) => Some(CostEstimate { text: c.text.clone() }),
            None => None,
        },
        todos: duplicate_todos(&result.todos),
    }
}

/// The summary that the registry records.
pub open spec fn recorded_summary(result: RunResult, content_run: bool) -> Seq<char> {
    if content_run {
        projected_text(result.summary@)
    } else {
        result.summary@
    }
}

/// Records the end of an attempt. The summary of a content run is recorded by
/// size and digest alone. A run that the registry does not know stays unknown.
pub fn finish_run(
    registry: &RunRegistry,
    slot: &mut RunSlot,
    run_id: &str,
    result: &Result<RunResult, RunError>,
    content_run: bool,
    now: u64,
)
    ensures
        match *result {
            Ok(result) => if known(old(slot)@, result.run_id@) {
                final(slot)@.record is Some && final(slot)@.record->0 == (crate::registry::RecordView {
                    summary: recorded_summary(result, content_run),
                    ..finished(old(slot)@.record->0, result, now)
                }) && !final(slot)@.cancel_marker && final(slot)@.owner_ms is None
            } else {
                final(slot)@ == old(slot)@
            },
            Err(error) => if known(old(slot)@, run_id@) {
                final(slot)@ == (SlotView {
                    record: Some(failed(old(slot)@.record->0, error, now)),
                    cancel_marker: false,
                    owner_ms: None,
                })
            } else {
                final(slot)@ == old(slot)@
            },
        },
{
    match result {
        Ok(result) => {
            if content_run {
                let projected = projected_result(result);
                let _ = registry.finish_result(slot, &projected, now);
            } else {
                let _ = registry.finish_result(slot, result, now);
            }
        },
        Err(error) => {
            let _ = registry.finish_error(slot, run_id, error, now);
        },
    }
}

// ---------------------------------------------------------------------------
// Finalized content runs
// ---------------------------------------------------------------------------

fn same_kinds(a: &Vec<ContentPartKind>, b: &Vec<ContentPartKind>) -> (r: bool)
    ensures
        r == (a@ == b@),
{
    if a.len() != b.len() {
        return false;
    }
    let mut i: usize = 0;
    while i < a.len()
        invariant
            a@.len() == b@.len(),
            i <= a@.len(),
            forall|j: int| 0 <= j < i ==> a@[j] == b@[j],
        decreases a@.len() - i,
    {
        if a[i] != b[i] {
            return false;
        }
        i = i + 1;
    }
    assert(a@ =~= b@);
    true
}

fn same_texts(a: &Vec<String>, b: &Vec<String>) -> (r: bool)
    ensures
        r == (texts(a@) == texts(b@)),
{
    if a.len() != b.len() {
        assert(texts(a@).len() != texts(b@).len());
        return false;
    }
    let mut i: usize = 0;
    while i < a.len()
        invariant
            a@.len() == b@.len(),
            i <= a@.len(),
            forall|j: int| 0 <= j < i ==> texts(a@)[j] == texts(b@)[j],
        decreases a@.len() - i,
    {
        if !same(a[i].as_str(), b[i].as_str()) {
            assert(texts(a@)[i as int] != texts(b@)[i as int]);
            return false;
        }
        i = i + 1;
    }
    assert(texts(a@) =~= texts(b@));
    true
}

/// Whether two capabilities allow the same.
pub open spec fn equal_capabilities(a: ContentCapabilitiesV1, b: ContentCapabilitiesV1) -> bool {
    &&& a.input_kinds@ == b.input_kinds@
    &&& a.output_kinds@ == b.output_kinds@
    &&& texts(a.media_types@) == texts(b.media_types@)
    &&& a.max_part_bytes == b.max_part_bytes
    &&& a.max_parts == b.max_parts
    &&& a.max_aggregate_bytes == b.max_aggregate_bytes
}

/// Whether two capabilities allow the same.
pub fn capabilities_match(a: &ContentCapabilitiesV1, b: &ContentCapabilitiesV1) -> (r: bool)
    ensures
        r == equal_capabilities(*a, *b),
{
    same_kinds(&a.input_kinds, &b.input_kinds) && same_kinds(&a.output_kinds, &b.output_kinds)
        && same_texts(&a.media_types, &b.media_types) && a.max_part_bytes == b.max_part_bytes
        && a.max_parts == b.max_parts && a.max_aggregate_bytes == b.max_aggregate_bytes
}

/// What a content run is asked to resume with.
#[derive(Debug)]
pub struct ContentResume {
    pub run_id: String,
    pub task: String,
    pub resolver_id: String,
    pub capabilities: ContentCapabilitiesV1,
    /// Whether the messages are those that the run was started with.
    pub initial_messages_match: bool,
}

/// What the resolver gave for a finalized content run.
#[derive(Debug)]
pub struct ResolvedContent {
    /// Why the accepted parts do not resolve, if they do not.
    pub parts_fault: Option<String>,
    /// The terminal summary, or why it does not resolve.
    pub summary: Result<Option<String>, String>,
}

/// Whether a finalized content run is asked for with other bindings.
pub open spec fn recovery_changed(
    request: ContentResume,
    c: Checkpoint,
    sidecar: ContentCheckpointV1,
) -> bool {
    ||| c.content->0.resolver_id@ != request.resolver_id@
    ||| !equal_capabilities(sidecar.capabilities, request.capabilities)
    ||| !request.initial_messages_match
    ||| request.task@.len() > 0 && request.task@ != c.task@
}

/// Whether a run ended with a finalized result.
pub open spec fn finalized(c: Checkpoint, sidecar: ContentCheckpointV1) -> bool {
    c.content is Some && sidecar.terminal is Some && sidecar.terminal->0.finalized
}

/// Whether a result is that of a finalized content run.
pub open spec fn recovered(
    result: RunResult,
    request: ContentResume,
    c: Checkpoint,
    sidecar: ContentCheckpointV1,
    summary: Seq<char>,
    cost: Option<CostEstimate>,
) -> bool {
    let terminal = sidecar.terminal->0;
    &&& result.run_id@ == request.run_id@
    &&& result.success == terminal.success
    &&& result.summary@ == summary
    &&& result.turns == sidecar.completed_turns
    &&& result.workspace@ == c.workspace@
    &&& opt_view(result.artifact_dir) == opt_view(terminal.artifact_dir)
    &&& result.termination == terminal.termination
    &&& result.park is None
    &&& result.prompt_id@ == c.prompt_id@
    &&& result.usage == terminal.usage
    &&& result.cost == cost
    &&& result.todos@ == c.todos@
}

/// Whether the result of a resumed content run has to be resolved: it ended
/// already, and the request is bound to it as it was.
pub fn finalized_content(
    request: &ContentResume,
    checkpoint: &Checkpoint,
    sidecar: &ContentCheckpointV1,
) -> (r: Result<bool, RunError>)
    ensures
        if !finalized(*checkpoint, *sidecar) {
            r == Ok::<bool, RunError>(false)
        } else if recovery_changed(*request, *checkpoint, *sidecar) {
            r matches Err(e) && run_message(
                e,
                "content recovery binding changed for run "@ + request.run_id@,
            )
        } else {
            r == Ok::<bool, RunError>(true)
        },
{
    match &checkpoint.content {
        None => Ok(false),
        Some(binding) => match &sidecar.terminal {
            None => Ok(false),
            Some(terminal) => {
                if !terminal.finalized {
                    return Ok(false);
                }
                if !same(binding.resolver_id.as_str(), request.resolver_id.as_str())
                    || !capabilities_match(&sidecar.capabilities, &request.capabilities)
                    || !request.initial_messages_match || (!request.task.as_str().is_empty()
                    && !same(request.task.as_str(), checkpoint.task.as_str())) {
                    return Err(
                        about_run(
                            "content recovery binding changed for run ",
                            request.run_id.as_str(),
                        ),
                    );
                }
                Ok(true)
            },
        },
    }
}

/// Gives a content run that ended already its result again, without running
/// anything. `cost` is what its usage cost.
pub fn recover_finalized_content(
    request: &ContentResume,
    checkpoint: &Checkpoint,
    sidecar: &ContentCheckpointV1,
    resolved: ResolvedContent,
    cost: Option<CostEstimate>,
) -> (r: Result<Option<RunResult>, RunError>)
    ensures
        if !finalized(*checkpoint, *sidecar) {
            r matches Ok(o) && o is None
        } else if recovery_changed(*request, *checkpoint, *sidecar) {
            r matches Err(e) && run_message(
                e,
                "content recovery binding changed for run "@ + request.run_id@,
            )
        } else {
            match (resolved.parts_fault, resolved.summary) {
                (Some(m), _) => r matches Err(e) && run_message(e, m@),
                (None, Err(m)) => r matches Err(e) && run_message(e, m@),
                (None, Ok(None)) => r matches Err(e) && run_message(
                    e,
                    "content terminal summary is missing"@,
                ),
                (None, Ok(Some(s))) => r matches Ok(Some(result)) && recovered(
                    result,
                    *request,
                    *checkpoint,
                    *sidecar,
                    s@,
                    cost,
                ),
            }
        },
{
    match finalized_content(request, checkpoint, sidecar) {
        Err(e) => Err(e),
        Ok(false) => Ok(None),
        Ok(true) => {
            if let Some(m) = resolved.parts_fault {
                return Err(RunError::Message(m));
            }
            match resolved.summary {
                Err(m) => Err(RunError::Message(m)),
                Ok(None) => Err(message_error("content terminal summary is missing")),
                Ok(Some(summary)) => match &sidecar.terminal {
                    None => Ok(None),
                    Some(terminal) => Ok(
                        Some(
                            RunResult {
                                run_id: request.run_id.clone(),
                                success: terminal.success,
                                summary,
                                turns: sidecar.completed_turns,
                                workspace: checkpoint.workspace.clone(),
                                artifact_dir: match &terminal.artifact_dir {
                                    Some(d) => Some(d.clone()),
                                    None => None,
                                },
                                termination: terminal.termination,
                                park: None,
                                prompt_id: checkpoint.prompt_id.clone(),
                                usage: terminal.usage,
                                cost,
                                todos: duplicate_todos(&checkpoint.todos),
                            },
                        ),
                    ),
                },
            }
        },
    }
}

/// An attempt whose checkpoint is the expected one passes wherever it is resumed the way it
/// was made: a replay as a replay of the same source, bounded content with its resolver, a
/// parked run with an answer.
pub proof fn bound_attempt_passes(
    config: Config,
    id: Seq<char>,
    request: RunRequest,
    loaded: LoadedCheckpoint,
    expected: Option<Seq<char>>,
    replay: Option<ReplayExecution>,
    resolver: Option<Seq<char>>,
    checks: ResumeChecks,
)
    requires
        expected is Some ==> expected->0 == loaded.digest@,
        replay is Some <==> loaded.checkpoint.replay is Some,
        replay is Some ==> loaded.checkpoint.replay->0.manifest_digest@
            == replay->0.manifest_digest@ && loaded.checkpoint.replay->0.terminal is None
            && loaded.checkpoint.replay->0.source_run_id@ == replay->0.source_run_id@
            && loaded.checkpoint.replay->0.workspace@ == loaded.checkpoint.workspace@,
        resolver is Some <==> loaded.checkpoint.content is Some,
        resolver is Some ==> loaded.checkpoint.content->0.resolver_id@ == resolver->0,
        checks.prompt_fault is None,
        checks.workspace_fault is None,
        request.restore_snapshot is None || checkpoint_adapter(config, loaded.checkpoint)
            != "inplace"@,
        loaded.checkpoint.park is Some <==> request.resume_answer is Some,
    ensures
        resumed_preflight(config, id, request, loaded, expected, replay, resolver, checks)
            is Passed,
{
}

/// A passed attempt replays the source and the workspace that its checkpoint names, has no
/// fault of prompt or workspace, and restores no snapshot in place.
pub proof fn passed_attempt_is_sound(
    config: Config,
    id: Seq<char>,
    request: RunRequest,
    loaded: LoadedCheckpoint,
    expected: Option<Seq<char>>,
    replay: Option<ReplayExecution>,
    resolver: Option<Seq<char>>,
    checks: ResumeChecks,
)
    requires
        resumed_preflight(config, id, request, loaded, expected, replay, resolver, checks)
            is Passed,
    ensures
        checks.prompt_fault is None,
        checks.workspace_fault is None,
        request.restore_snapshot is None || checkpoint_adapter(config, loaded.checkpoint)
            != "inplace"@,
        replay is Some ==> loaded.checkpoint.replay->0.source_run_id@ == replay->0.source_run_id@
            && loaded.checkpoint.replay->0.workspace@ == loaded.checkpoint.workspace@,
{
}

/// What is recorded of a bounded-content run tells nothing of its summary but its length in
/// bytes and its digest; any other run is recorded with its summary.
pub proof fn content_summary_is_not_disclosed(a: RunResult, b: RunResult)
    requires
        byte_len(a.summary@) == byte_len(b.summary@),
        sha256_label(encode_utf8(a.summary@)) == sha256_label(encode_utf8(b.summary@)),
    ensures
        recorded_summary(a, true) == recorded_summary(b, true),
        recorded_summary(a, false) == a.summary@,
{
}

/// Records of two bounded-content runs agree only where the lengths and the digests of their
/// summaries do.
pub proof fn content_record_tells_summaries_apart(a: RunResult, b: RunResult)
    requires
        recorded_summary(a, true) == recorded_summary(b, true),
    ensures
        byte_len(a.summary@) == byte_len(b.summary@),
        sha256_label(encode_utf8(a.summary@)) == sha256_label(encode_utf8(b.summary@)),
{
    let front = "bounded_content_result bytes="@;
    let na = decimal(byte_len(a.summary@));
    let nb = decimal(byte_len(b.summary@));
    let da = sha256_label(encode_utf8(a.summary@));
    let db = sha256_label(encode_utf8(b.summary@));
    reveal_strlit(" digest=");
    pieces_regroup(front + na, " digest="@, da);
    pieces_regroup(front + nb, " digest="@, db);
    pieces_regroup(front, na, " digest="@ + da);
    pieces_regroup(front, nb, " digest="@ + db);
    label_cancels(front, na + (" digest="@ + da), nb + (" digest="@ + db));
    bare_number_cancels(
        byte_len(a.summary@),
        " digest="@ + da,
        byte_len(b.summary@),
        " digest="@ + db,
    );
    label_cancels(" digest="@, da, db);
}

/// A finished content run is recovered only where its resolver, capabilities, first messages
/// and task are those it ran with; a request that names no task takes the run's.
pub proof fn recovery_keeps_its_binding(
    request: ContentResume,
    c: Checkpoint,
    sidecar: ContentCheckpointV1,
)
    ensures
        recovery_changed(request, c, sidecar) <==> !(c.content->0.resolver_id@
            == request.resolver_id@ && equal_capabilities(
            sidecar.capabilities,
            request.capabilities,
        ) && request.initial_messages_match && (request.task@.len() == 0 || request.task@
            == c.task@)),
{
}

/// Two sets of capabilities are equal just where they agree in kinds, media types and limits.
pub proof fn capabilities_are_compared_whole(a: ContentCapabilitiesV1, b: ContentCapabilitiesV1)
    requires
        equal_capabilities(a, b),
    ensures
        a.max_part_bytes == b.max_part_bytes,
        a.max_parts == b.max_parts,
        a.max_aggregate_bytes == b.max_aggregate_bytes,
        a.input_kinds@ == b.input_kinds@,
        a.output_kinds@ == b.output_kinds@,
        texts(a.media_types@) == texts(b.media_types@),
{
}

/// A recovered run ends as it ended before: the same verdict, usage, artifacts and todos,
/// after the same turns, in the same workspace, and not parked.
pub proof fn recovered_run_is_the_finished_one(
    result: RunResult,
    request: ContentResume,
    c: Checkpoint,
    sidecar: ContentCheckpointV1,
    summary: Seq<char>,
    cost: Option<CostEstimate>,
)
    requires
        recovered(result, request, c, sidecar, summary, cost),
    ensures
        result.success == sidecar.terminal->0.success,
        result.termination == sidecar.terminal->0.termination,
        result.usage == sidecar.terminal->0.usage,
        result.turns == sidecar.completed_turns,
        result.summary@ == summary,
        result.run_id@ == request.run_id@,
        result.workspace@ == c.workspace@,
        result.prompt_id@ == c.prompt_id@,
        result.todos@ == c.todos@,
        result.cost == cost,
        result.park is None,
        result.artifact_dir is Some <==> sidecar.terminal->0.artifact_dir is Some,
        result.artifact_dir is Some ==> result.artifact_dir->0@
            == sidecar.terminal->0.artifact_dir->0@,
{
}

} // verus!
