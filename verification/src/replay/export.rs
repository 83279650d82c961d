//! Reconstructing a replay package from retained artifacts.
use vstd::prelude::*;
use vstd::string::*;

#[allow(unused_imports)]
use crate::canonical::join_front;
use crate::checkpoint::Checkpoint;
use crate::config::{Config, ContextSettings};
#[allow(unused_imports)]
use crate::digest::sha256_label;
use crate::model::{ChatMessage, ToolDef};
#[allow(unused_imports)]
use crate::model::{message_views, ChatMessageView};
use crate::registry::{RegistryError, RunRecord};
#[allow(unused_imports)]
use crate::run::{compacted, RunTermination};
use crate::text::{chars_of, contains_text, same, split_chars, starts_with};
#[allow(unused_imports)]
use crate::text::{
    contains, join, joined_pieces_split_back, occurs_at, opt_view, split, starts, texts,
};

use super::{
    digest_bytes, duplicate_option, steps_from_messages, text_digest, ReplayBindings, ReplayError,
    ReplayEvidenceBundle, ReplayManifest, ReplayTerminalEvidence, REPLAY_EXPORT_SCHEMA_VERSION,
    REPLAY_SCHEMA_VERSION,
};
#[allow(unused_imports)]
use super::{
    admission_fault, evidence_fault, manifest_of, steps_of, text_digest_of, BindingsView,
    EvidenceView, TerminalView,
};
#[allow(unused_imports)]
use super::bindings::{runtime_bindings, supplied_fault};

verus! {

/// Read-only export of a replay package from retained local artifacts.
#[derive(Debug)]
pub struct ReplayExportReport {
    pub schema_version: u32,
    pub run_id: String,
    pub complete: bool,
    pub missing: Vec<String>,
    pub reason: String,
    pub manifest: Option<ReplayManifest>,
    pub evidence: Option<ReplayEvidenceBundle>,
}

/// What became of the checkpoint of a run.
#[derive(Debug)]
pub enum CheckpointLoad {
    Missing,
    /// It is there but cannot be read.
    Unreadable(String),
    Retained(Checkpoint),
}

/// What is retained of a run, and the surface that it is exported for.
pub struct ExportInputs {
    /// What the registry holds of the run.
    pub record: Result<RunRecord, RegistryError>,
    pub checkpoint: CheckpointLoad,
    /// The exact bytes of the retained checkpoint.
    pub checkpoint_bytes: Vec<u8>,
    /// The versioned id of the current system prompt.
    pub current_prompt_id: String,
    /// The digest of the initial snapshot, where it is retained and readable.
    pub inputs_digest: Option<String>,
    /// The configured skill packs stand in the initial snapshot.
    pub skills_retained: bool,
    /// The system prompt composed from the initial snapshot.
    pub prompt_body: String,
    pub tools: Vec<ToolDef>,
    /// The tools that the host's permission mode leaves enabled.
    pub enabled: Vec<String>,
}

/// Whether a message stands for messages that were left out.
pub open spec fn has_compaction(m: Seq<ChatMessageView>) -> bool {
    exists|i: int| 0 <= i < m.len() && contains((#[trigger] m[i]).content, "[context compacted:"@)
}

/// Whether a status is one that a run ends with and that can be compared.
pub open spec fn exportable_status(s: Seq<char>) -> bool {
    s == "completed"@ || s == "failed"@ || s == "cancelled"@ || s == "timed_out"@ || s
        == "max_turns"@
}

/// What is missing of a retained run, in a fixed order.
pub open spec fn missing_of(i: ExportInputs, record: RunRecord, c: Checkpoint) -> Seq<Seq<char>> {
    let none = Seq::<Seq<char>>::empty();
    (if has_compaction(message_views(c.messages@)) {
        none.push("steps"@)
    } else {
        none
    }) + (if !exportable_status(record.status@) {
        none.push("terminal"@)
    } else {
        none
    }) + (if c.prompt_id@ != i.current_prompt_id@ {
        none.push("prompt"@)
    } else {
        none
    }) + (if i.inputs_digest is None {
        none.push("inputs"@)
    } else {
        none
    })
}

/// Whether a report tells what is missing and exports nothing.
pub open spec fn incomplete(
    r: ReplayExportReport,
    run_id: Seq<char>,
    missing: Seq<Seq<char>>,
    reason: Seq<char>,
) -> bool {
    &&& r.schema_version == REPLAY_EXPORT_SCHEMA_VERSION
    &&& r.run_id@ == run_id
    &&& !r.complete
    &&& texts(r.missing@) == missing
    &&& r.reason@ == reason
    &&& r.manifest is None
    &&& r.evidence is None
}

/// The bindings that a retained run is exported under.
pub open spec fn exported_bindings(i: ExportInputs, c: Checkpoint, config: Config) -> BindingsView {
    runtime_bindings(
        config,
        texts(i.enabled@),
        c.task@,
        i.prompt_body@,
        i.tools@,
        i.inputs_digest->0@,
        sha256_label(i.checkpoint_bytes@),
    )
}

/// The evidence that a retained run is exported with.
pub open spec fn exported_evidence(
    i: ExportInputs,
    record: RunRecord,
    c: Checkpoint,
    config: Config,
) -> EvidenceView {
    EvidenceView {
        schema_version: REPLAY_SCHEMA_VERSION,
        source_run_id: c.run_id@,
        source_logical_operation_id: opt_view(record.logical_operation_id),
        task: c.task@,
        bindings: exported_bindings(i, c, config),
        expected_steps: steps_of(message_views(c.messages@), c.messages@.len() as int),
        expected_terminal: TerminalView {
            success: record.success == Some(true),
            termination: match record.termination {
                Some(t) => t@,
                None => record.status@,
            },
            summary_digest: text_digest_of(record.summary@),
        },
    }
}

/// The fault that keeps a retained run from being exported.
pub open spec fn export_fault(
    i: ExportInputs,
    record: RunRecord,
    c: Checkpoint,
    config: Config,
) -> Option<Seq<char>> {
    super::first_fault(
        supplied_fault(i.inputs_digest->0@, sha256_label(i.checkpoint_bytes@)),
        evidence_fault(exported_evidence(i, record, c, config)),
    )
}

fn incomplete_export(run_id: &str, missing: Vec<String>, reason: &str) -> (r: ReplayExportReport)
    ensures
        incomplete(r, run_id@, texts(missing@), reason@),
{
    ReplayExportReport {
        schema_version: REPLAY_EXPORT_SCHEMA_VERSION,
        run_id: run_id.to_owned(),
        complete: false,
        missing,
        reason: reason.to_owned(),
        manifest: None,
        evidence: None,
    }
}

fn one(item: &str) -> (v: Vec<String>)
    ensures
        texts(v@) == seq![item@],
{
    let mut v: Vec<String> = Vec::new();
    v.push(item.to_owned());
    assert(texts(v@) =~= seq![item@]);
    v
}

fn add_missing(v: &mut Vec<String>, absent: bool, item: &str)
    ensures
        texts(final(v)@) == texts(old(v)@) + (if absent {
            Seq::<Seq<char>>::empty().push(item@)
        } else {
            Seq::<Seq<char>>::empty()
        }),
{
    let ghost before = texts(v@);
    if absent {
        v.push(item.to_owned());
        assert(texts(v@) =~= before + Seq::<Seq<char>>::empty().push(item@));
    } else {
        assert(before =~= before + Seq::<Seq<char>>::empty());
    }
}

fn any_compaction(messages: &Vec<ChatMessage>) -> (r: bool)
    ensures
        r == has_compaction(message_views(messages@)),
{
    let mut i: usize = 0;
    while i < messages.len()
        invariant
            i <= messages@.len(),
            forall|j: int|
                0 <= j < i ==> !contains(
                    (#[trigger] message_views(messages@)[j]).content,
                    "[context compacted:"@,
                ),
        decreases messages@.len() - i,
    {
        if contains_text(messages[i].content.as_str(), "[context compacted:") {
            assert(contains(message_views(messages@)[i as int].content, "[context compacted:"@));
            return true;
        }
        i = i + 1;
    }
    false
}

fn is_exportable_status(s: &str) -> (r: bool)
    ensures
        r == exportable_status(s@),
{
    same(s, "completed") || same(s, "failed") || same(s, "cancelled") || same(s, "timed_out")
        || same(s, "max_turns")
}

/// What is exported of a run that the registry holds.
pub open spec fn exported(
    r: Result<ReplayExportReport, ReplayError>,
    run_id: Seq<char>,
    inputs: ExportInputs,
    record: RunRecord,
    config: Config,
) -> bool {
    match inputs.checkpoint {
        CheckpointLoad::Missing => r matches Ok(e) && incomplete(
            e,
            run_id,
            seq!["checkpoint"@],
            "checkpoint is not retained"@,
        ),
        CheckpointLoad::Unreadable(m) => r matches Ok(e) && incomplete(
            e,
            run_id,
            seq!["checkpoint"@],
            m@,
        ),
        CheckpointLoad::Retained(c) => if c.content is Some {
            r matches Ok(e) && incomplete(
                e,
                run_id,
                seq!["content"@],
                "content runs are not replay-exportable in v1"@,
            )
        } else if missing_of(inputs, record, c).len() > 0 {
            r matches Ok(e) && incomplete(
                e,
                run_id,
                missing_of(inputs, record, c),
                "original replay bindings are not fully retained"@,
            )
        } else if !inputs.skills_retained {
            r matches Ok(e) && incomplete(
                e,
                run_id,
                seq!["prompt"@],
                "configured skill packs are not retained in snapshots/initial"@,
            )
        } else {
            match export_fault(inputs, record, c, config) {
                Some(t) => r matches Err(ReplayError::Invalid(m)) && m@ == t,
                None => {
                    &&& r matches Ok(e)
                    &&& e.schema_version == REPLAY_EXPORT_SCHEMA_VERSION
                    &&& e.run_id@ == run_id
                    &&& e.complete
                    &&& e.missing@.len() == 0
                    &&& e.reason@ == "retained artifacts recompute a valid replay package"@
                    &&& e.evidence is Some
                    &&& e.evidence->0@ == exported_evidence(inputs, record, c, config)
                    &&& e.manifest is Some
                    &&& e.manifest->0@ == manifest_of(e.evidence->0@)
                    &&& admission_fault(e.manifest->0@, e.evidence->0@) is None
                },
            }
        },
    }
}

/// Reconstructs a replay package from retained artifacts, or reports what is
/// missing. A run that the registry does not hold is an error. The current workspace is
/// never treated as the original inputs: only
/// the digest of the initial snapshot enters the bindings. A complete package is
/// admitted under its manifest.
pub fn export_replay_inputs(run_id: &str, inputs: &ExportInputs, config: &Config) -> (r: Result<
    ReplayExportReport,
    ReplayError,
>)
    ensures
        match inputs.record {
            Err(e) => r matches Err(ReplayError::Registry(m)) && m@ == e.text(),
            Ok(record) => exported(r, run_id@, *inputs, record, *config),
        },
{
    let record = match &inputs.record {
        Err(e) => {
            return Err(ReplayError::Registry(e.message()));
        },
        Ok(record) => record,
    };
    let checkpoint = match &inputs.checkpoint {
        CheckpointLoad::Missing => {
            return Ok(incomplete_export(run_id, one("checkpoint"), "checkpoint is not retained"));
        },
        CheckpointLoad::Unreadable(m) => {
            return Ok(incomplete_export(run_id, one("checkpoint"), m.as_str()));
        },
        CheckpointLoad::Retained(c) => c,
    };
    if checkpoint.content.is_some() {
        return Ok(
            incomplete_export(
                run_id,
                one("content"),
                "content runs are not replay-exportable in v1",
            ),
        );
    }
    let mut missing: Vec<String> = Vec::new();
    let compacted = any_compaction(&checkpoint.messages);
    add_missing(&mut missing, compacted, "steps");
    add_missing(&mut missing, !is_exportable_status(record.status.as_str()), "terminal");
    add_missing(
        &mut missing,
        !same(checkpoint.prompt_id.as_str(), inputs.current_prompt_id.as_str()),
        "prompt",
    );
    add_missing(&mut missing, inputs.inputs_digest.is_none(), "inputs");
    assert(texts(missing@) =~= missing_of(*inputs, *record, *checkpoint));
    assert(texts(missing@).len() == missing@.len());
    if missing.len() > 0 {
        return Ok(
            incomplete_export(run_id, missing, "original replay bindings are not fully retained"),
        );
    }
    if !inputs.skills_retained {
        return Ok(
            incomplete_export(
                run_id,
                one("prompt"),
                "configured skill packs are not retained in snapshots/initial",
            ),
        );
    }
    let inputs_digest = match &inputs.inputs_digest {
        Some(d) => d.clone(),
        None => {
            assert(missing_of(*inputs, *record, *checkpoint).last() == "inputs"@);
            String::new()
        },
    };
    let retained = digest_bytes(inputs.checkpoint_bytes.as_slice());
    let bindings = match ReplayBindings::for_replay(
        config,
        &inputs.enabled,
        checkpoint.task.as_str(),
        inputs.prompt_body.as_str(),
        &inputs.tools,
        inputs_digest.as_str(),
        retained.as_str(),
    ) {
        Err(e) => return Err(e),
        Ok(b) => b,
    };
    let success = match record.success {
        Some(s) => s,
        None => false,
    };
    let termination = match &record.termination {
        Some(t) => t.clone(),
        None => record.status.clone(),
    };
    let evidence = ReplayEvidenceBundle {
        schema_version: REPLAY_SCHEMA_VERSION,
        source_run_id: checkpoint.run_id.clone(),
        source_logical_operation_id: duplicate_option(&record.logical_operation_id),
        task: checkpoint.task.clone(),
        bindings,
        expected_steps: steps_from_messages(&checkpoint.messages),
        expected_terminal: ReplayTerminalEvidence {
            success,
            termination,
            summary_digest: text_digest(record.summary.as_str()),
        },
    };
    assert(evidence@ =~= exported_evidence(*inputs, *record, *checkpoint, *config));
    let manifest = match ReplayManifest::for_evidence(&evidence) {
        Err(e) => return Err(e),
        Ok(m) => m,
    };
    Ok(
        ReplayExportReport {
            schema_version: REPLAY_EXPORT_SCHEMA_VERSION,
            run_id: run_id.to_owned(),
            complete: true,
            missing: Vec::new(),
            reason: "retained artifacts recompute a valid replay package".to_owned(),
            manifest: Some(manifest),
            evidence: Some(evidence),
        },
    )
}

// ---------------------------------------------------------------------------
// Skill packs
// ---------------------------------------------------------------------------

/// Where the skill packs of a snapshot have to stand.
#[derive(Debug)]
pub enum SkillsRoot {
    /// No skill pack is configured.
    NotNeeded,
    /// The configured root lies outside the snapshot.
    Outside,
    /// Below the snapshot.
    Below(String),
}

/// Whether a path leaves the directory that it is relative to.
pub open spec fn leaves_root(path: Seq<char>) -> bool {
    starts(path, "/"@) || split(path, '/').contains(".."@)
}

fn holds_parent(parts: &Vec<String>) -> (r: bool)
    ensures
        r == texts(parts@).contains(".."@),
{
    let mut i: usize = 0;
    while i < parts.len()
        invariant
            i <= parts@.len(),
            forall|j: int| 0 <= j < i ==> texts(parts@)[j] != ".."@,
        decreases parts@.len() - i,
    {
        if same(parts[i].as_str(), "..") {
            assert(texts(parts@)[i as int] == ".."@);
            return true;
        }
        i = i + 1;
    }
    false
}

/// Where the skill packs of a snapshot have to stand. A root that is absolute or
/// goes up is refused.
pub fn skills_root(settings: &ContextSettings) -> (r: SkillsRoot)
    ensures
        if settings.skills@.len() == 0 {
            r is NotNeeded
        } else if settings.skills_root is Some && settings.skills_root->0@.len() > 0 {
            if leaves_root(settings.skills_root->0@) {
                r is Outside
            } else {
                r matches SkillsRoot::Below(p) && p@ == settings.skills_root->0@
            }
        } else {
            r matches SkillsRoot::Below(p) && p@ == ".shikigami/skills"@
        },
{
    if settings.skills.len() == 0 {
        return SkillsRoot::NotNeeded;
    }
    match &settings.skills_root {
        Some(root) => {
            if root.as_str().is_empty() {
                return SkillsRoot::Below(".shikigami/skills".to_owned());
            }
            let v = chars_of(root.as_str());
            let parts = split_chars(&v, '/');
            if starts_with(root.as_str(), "/") || holds_parent(&parts) {
                SkillsRoot::Outside
            } else {
                SkillsRoot::Below(root.clone())
            }
        },
        None => SkillsRoot::Below(".shikigami/skills".to_owned()),
    }
}

/// Whether a skill id names a direct child of the skills root.
pub open spec fn plain_skill_id(id: Seq<char>) -> bool {
    !contains(id, ".."@) && !contains(id, "/"@) && !contains(id, "\\"@)
}

/// What the host found of one skill pack below the canonical root.
#[derive(Debug, Clone, Copy, PartialEq, Eq, Structural)]
pub struct SkillProbe {
    /// `SKILL.md` is a regular file and no symbolic link.
    pub regular_file: bool,
    /// Its canonical path lies below the canonical root.
    pub inside_root: bool,
}

/// Whether a skill pack is there: its id is plain and leads to a regular file
/// inside the root.
pub open spec fn skill_found(id: Seq<char>, p: SkillProbe) -> bool {
    plain_skill_id(id) && p.regular_file && p.inside_root
}

fn is_skill_found(id: &str, p: SkillProbe) -> (r: bool)
    ensures
        r == skill_found(id@, p),
{
    !contains_text(id, "..") && !contains_text(id, "/") && !contains_text(id, "\\")
        && p.regular_file && p.inside_root
}

/// Whether the skill packs are retained inside the snapshot.
pub open spec fn skills_are_retained(
    settings: ContextSettings,
    root_inside_snapshot: bool,
    probes: Seq<SkillProbe>,
) -> bool {
    settings.skills@.len() == 0 || (!(settings.skills_root is Some
        && settings.skills_root->0@.len() > 0 && leaves_root(settings.skills_root->0@))
        && root_inside_snapshot && forall|i: int|
        0 <= i < settings.skills@.len() ==> skill_found((#[trigger] settings.skills@[i])@, probes[i]))
}

/// Whether every skill pack is retained: the root lies inside the snapshot, and
/// each skill pack is found below it.
pub fn skill_sources_are_retained(
    settings: &ContextSettings,
    root_inside_snapshot: bool,
    probes: &Vec<SkillProbe>,
) -> (r: bool)
    requires
        probes@.len() == settings.skills@.len(),
    ensures
        r == skills_are_retained(*settings, root_inside_snapshot, probes@),
{
    match skills_root(settings) {
        SkillsRoot::NotNeeded => return true,
        SkillsRoot::Outside => return false,
        SkillsRoot::Below(_) => {},
    }
    root_inside_snapshot && all_skills_found(&settings.skills, probes)
}

fn all_skills_found(skills: &Vec<String>, probes: &Vec<SkillProbe>) -> (r: bool)
    requires
        probes@.len() == skills@.len(),
    ensures
        r == (forall|i: int|
            0 <= i < skills@.len() ==> skill_found((#[trigger] skills@[i])@, probes@[i])),
{
    let mut i: usize = 0;
    while i < skills.len()
        invariant
            i <= skills@.len(),
            probes@.len() == skills@.len(),
            forall|j: int| 0 <= j < i ==> skill_found((#[trigger] skills@[j])@, probes@[j]),
        decreases skills@.len() - i,
    {
        if !is_skill_found(skills[i].as_str(), probes[i]) {
            return false;
        }
        i = i + 1;
    }
    true
}

/// A run can be exported once it has ended, whatever its end, but not while it is parked.
pub proof fn ended_runs_are_exportable(t: RunTermination)
    ensures
        exportable_status(t.name()) <==> t != RunTermination::Parked,
        !exportable_status("running"@),
        !exportable_status("starting"@),
{
    reveal_strlit("completed");
    reveal_strlit("failed");
    reveal_strlit("cancelled");
    reveal_strlit("timed_out");
    reveal_strlit("max_turns");
    reveal_strlit("parked");
    reveal_strlit("running");
    reveal_strlit("starting");
    assert("parked"@[0] == 'p' && "completed"@[0] == 'c' && "failed"@[0] == 'f' && "cancelled"@[0]
        == 'c' && "timed_out"@[0] == 't' && "max_turns"@[0] == 'm');
    assert("running"@[0] == 'r' && "starting"@[0] == 's');
}

/// A conversation of which something was left out is recognized, and so its steps are not
/// exported.
pub proof fn compacted_conversation_is_recognized(m: Seq<ChatMessageView>, keep_tail: nat)
    requires
        m.len() > keep_tail + 1,
    ensures
        has_compaction(compacted(m, keep_tail)),
{
    reveal_strlit("[context compacted: ");
    reveal_strlit("[context compacted:");
    let c = compacted(m, keep_tail);
    let text = c[1].content;
    assert(text.subrange(0, 19) =~= "[context compacted:"@);
    assert(occurs_at(text, "[context compacted:"@, 0));
    assert(contains(c[1].content, "[context compacted:"@));
}

/// What is missing for an export is told surface by surface.
pub proof fn missing_surfaces_are_told(i: ExportInputs, record: RunRecord, c: Checkpoint)
    ensures
        ({
            let missing = missing_of(i, record, c);
            &&& missing.contains("steps"@) <==> has_compaction(message_views(c.messages@))
            &&& missing.contains("terminal"@) <==> !exportable_status(record.status@)
            &&& missing.contains("prompt"@) <==> c.prompt_id@ != i.current_prompt_id@
            &&& missing.contains("inputs"@) <==> i.inputs_digest is None
            &&& missing.len() == 0 <==> !has_compaction(message_views(c.messages@))
                && exportable_status(record.status@) && c.prompt_id@ == i.current_prompt_id@
                && i.inputs_digest is Some
        }),
{
    reveal_strlit("steps");
    reveal_strlit("terminal");
    reveal_strlit("prompt");
    reveal_strlit("inputs");
    assert("steps"@.len() == 5
        && "terminal"@.len() == 8
        && "prompt"@.len() == 6
        && "inputs"@.len() == 6);
    assert("prompt"@[0] != "inputs"@[0]);
    let none = Seq::<Seq<char>>::empty();
    let a = if has_compaction(message_views(c.messages@)) {
        none.push("steps"@)
    } else {
        none
    };
    let b = if !exportable_status(record.status@) {
        none.push("terminal"@)
    } else {
        none
    };
    let d = if c.prompt_id@ != i.current_prompt_id@ {
        none.push("prompt"@)
    } else {
        none
    };
    let e = if i.inputs_digest is None {
        none.push("inputs"@)
    } else {
        none
    };
    let missing = missing_of(i, record, c);
    assert(missing == a + b + d + e);
    if a.len() > 0 {
        assert(missing[0] == "steps"@);
    }
    if b.len() > 0 {
        assert(missing[a.len() as int] == "terminal"@);
    }
    if d.len() > 0 {
        assert(missing[(a.len() + b.len()) as int] == "prompt"@);
    }
    if e.len() > 0 {
        assert(missing[(a.len() + b.len() + d.len()) as int] == "inputs"@);
    }
}

/// An export is complete just where the checkpoint is retained, the run is no content run,
/// nothing is missing, the skills are retained and the evidence is sound.
pub proof fn export_is_complete_where_all_is_retained(
    r: Result<ReplayExportReport, ReplayError>,
    run_id: Seq<char>,
    inputs: ExportInputs,
    record: RunRecord,
    config: Config,
)
    requires
        exported(r, run_id, inputs, record, config),
    ensures
        (r is Ok && r->Ok_0.complete) <==> inputs.checkpoint is Retained && ({
            let c = inputs.checkpoint->Retained_0;
            c.content is None && missing_of(inputs, record, c).len() == 0
                && inputs.skills_retained && export_fault(inputs, record, c, config) is None
        }),
        r is Ok ==> (r->Ok_0.complete <==> r->Ok_0.evidence is Some),
        r is Ok ==> (r->Ok_0.complete <==> r->Ok_0.manifest is Some),
{
}

/// Exported evidence is of the run that was retained: its task, its operation, its steps, and
/// the end that is recorded of it.
pub proof fn exported_evidence_is_of_the_run(
    i: ExportInputs,
    record: RunRecord,
    c: Checkpoint,
    config: Config,
)
    ensures
        ({
            let e = exported_evidence(i, record, c, config);
            &&& e.source_run_id == c.run_id@
            &&& e.task == c.task@
            &&& e.source_logical_operation_id == opt_view(record.logical_operation_id)
            &&& e.expected_steps == steps_of(message_views(c.messages@), c.messages@.len() as int)
            &&& e.expected_terminal.success <==> record.success == Some(true)
            &&& record.termination is Some ==> e.expected_terminal.termination
                == record.termination->0@
            &&& e.expected_terminal.summary_digest == text_digest_of(record.summary@)
            &&& e.bindings.task_digest == text_digest_of(c.task@)
            &&& e.bindings.retained_evidence_digest == sha256_label(i.checkpoint_bytes@)
        }),
{
}

/// A directory of skills is outside just where its path is absolute or one of its segments
/// goes up.
pub proof fn outside_paths_are_recognized(parts: Seq<Seq<char>>)
    requires
        parts.len() > 0,
        forall|i: int| 0 <= i < parts.len() ==> !(#[trigger] parts[i]).contains('/'),
        parts[0].len() > 0,
    ensures
        leaves_root(join(parts, seq!['/'])) <==> parts.contains(".."@),
        leaves_root(seq!['/'] + join(parts, seq!['/'])),
{
    joined_pieces_split_back(parts, '/');
    reveal_strlit("/");
    let s = join(parts, seq!['/']);
    if parts.len() > 1 {
        join_front(parts, seq!['/']);
    }
    assert(s[0] == parts[0][0]);
    assert(parts[0].contains(parts[0][0]));
    assert(s.subrange(0, 1)[0] == s[0]);
    let t = seq!['/'] + s;
    assert(t.subrange(0, 1) =~= "/"@);
}

/// Where skills are retained, each has a plain id and is a file within the root, and the root
/// is within the snapshot.
pub proof fn retained_skill_is_a_file_of_the_root(
    settings: ContextSettings,
    root_inside_snapshot: bool,
    probes: Seq<SkillProbe>,
    i: int,
)
    requires
        skills_are_retained(settings, root_inside_snapshot, probes),
        0 <= i < settings.skills@.len(),
    ensures
        root_inside_snapshot,
        probes[i].regular_file,
        probes[i].inside_root,
        !contains(settings.skills@[i]@, ".."@),
        !contains(settings.skills@[i]@, "/"@),
        !contains(settings.skills@[i]@, "\\"@),
{
    assert(skill_found(settings.skills@[i]@, probes[i]));
}

/// Skills are retained where none is configured, and where each is found in the usual root.
pub proof fn found_skills_are_retained(
    settings: ContextSettings,
    root_inside_snapshot: bool,
    probes: Seq<SkillProbe>,
)
    requires
        settings.skills@.len() == 0 || (root_inside_snapshot && settings.skills_root is None
            && forall|i: int|
            0 <= i < settings.skills@.len() ==> skill_found(
                (#[trigger] settings.skills@[i])@,
                probes[i],
            )),
    ensures
        skills_are_retained(settings, root_inside_snapshot, probes),
{
}

} // verus!
