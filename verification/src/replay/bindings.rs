//! The digests of a runtime surface, and the rules of the replay runtime.
use vstd::prelude::*;
use vstd::string::*;
#[allow(unused_imports)]
use vstd::utf8::*;

use crate::canonical::{
    list_of, push_optional_number, push_quoted, quote_each, sort_rows, sort_texts, Row,
};
#[allow(unused_imports)]
use crate::canonical::{
    in_row_order, in_text_order, list_text, optional_number, quoted_each, row_order_exists,
    row_order_is_unique, row_views, text_order_is_unique, RowView,
};
use crate::config::{
    Config, ContextSettings, EgressMode, GovernanceSettings, ModelSettings, NetworkSettings,
    RunSettings, ToolSettings, WorkspaceSettings,
};
#[allow(unused_imports)]
use crate::digest::sha256_label;
#[allow(unused_imports)]
use crate::events::bool_text;
use crate::events::{push_bool, push_number};
#[allow(unused_imports)]
use crate::json::json_quoted;
use crate::model::{labelled, ToolDef};
#[allow(unused_imports)]
use crate::model::back_slash;
use crate::text::{chars_of, find_from, same, text_of};
#[allow(unused_imports)]
use crate::text::{decimal, find, find_bounds, found_is_first, join, texts};

use super::{
    digest_bytes, text_digest, validate_digest, ReplayBindings, ReplayError, ReplayExecution,
    MAX_REPLAY_INPUT_BYTES, MAX_REPLAY_INPUT_FILES,
};
#[allow(unused_imports)]
use super::{canonical_digest, digest_fault, text_digest_of, valid_digest, BindingsView};

verus! {

// ---------------------------------------------------------------------------
// Model, policy and tool catalog
// ---------------------------------------------------------------------------

/// Where the model's turns come from, without credentials.
pub open spec fn model_source(c: Config) -> Seq<char> {
    let adapter = c.model.adapter@;
    if adapter == "http"@ {
        let base = match c.model.base_url {
            Some(u) => u@,
            None => "https://api.openai.com/v1"@,
        };
        "base_url:"@ + base.subrange(0, back_slash(base, base.len() as int))
    } else if adapter == "scripted"@ {
        "script:"@ + (match c.model.script_json {
            Some(s) => text_digest_of(s@),
            None => "builtin-default-script-v1"@,
        })
    } else if adapter == "plane"@ {
        "governance:"@ + c.governance.adapter@
    } else {
        "adapter:"@ + adapter
    }
}

/// A JSON list of three texts.
pub open spec fn triple_text(a: Seq<char>, b: Seq<char>, c: Seq<char>) -> Seq<char> {
    "["@ + json_quoted(a) + ","@ + json_quoted(b) + ","@ + json_quoted(c) + "]"@
}

/// The digest of the model binding.
pub open spec fn model_digest_of(c: Config) -> Seq<char> {
    canonical_digest(triple_text(c.model.adapter@, c.model.model@, model_source(c)))
}

fn write_triple(a: &str, b: &str, c: &str) -> (s: String)
    ensures
        s@ == triple_text(a@, b@, c@),
{
    let mut s = "[".to_owned();
    push_quoted(&mut s, a);
    s.append(",");
    push_quoted(&mut s, b);
    s.append(",");
    push_quoted(&mut s, c);
    s.append("]");
    s
}

fn without_slashes(base: &str) -> (s: String)
    ensures
        s@ == base@.subrange(0, back_slash(base@, base@.len() as int)),
{
    let v = chars_of(base);
    let mut hi: usize = v.len();
    while hi > 0 && v[hi - 1] == '/'
        invariant
            hi <= v@.len(),
            back_slash(v@, v@.len() as int) == back_slash(v@, hi as int),
        decreases hi,
    {
        hi = hi - 1;
    }
    text_of(&v, 0, hi)
}

fn write_source(config: &Config) -> (s: String)
    ensures
        s@ == model_source(*config),
{
    let adapter = config.model.adapter.as_str();
    if same(adapter, "http") {
        let base = match &config.model.base_url {
            Some(u) => without_slashes(u.as_str()),
            None => without_slashes("https://api.openai.com/v1"),
        };
        labelled("base_url:", &base)
    } else if same(adapter, "scripted") {
        let script = match &config.model.script_json {
            Some(s) => text_digest(s.as_str()),
            None => "builtin-default-script-v1".to_owned(),
        };
        labelled("script:", &script)
    } else if same(adapter, "plane") {
        labelled("governance:", &config.governance.adapter)
    } else {
        labelled("adapter:", &config.model.adapter)
    }
}

/// The digest of the model binding: adapter, model name and source.
pub fn model_digest(config: &Config) -> (s: String)
    ensures
        s@ == model_digest_of(*config),
        valid_digest(s@),
{
    let source = write_source(config);
    let text = write_triple(
        config.model.adapter.as_str(),
        config.model.model.as_str(),
        source.as_str(),
    );
    digest_bytes(text.as_str().as_bytes())
}

/// The texts in order.
pub open spec fn sorted_texts(v: Seq<Seq<char>>) -> Seq<Seq<char>> {
    choose|s: Seq<Seq<char>>| in_text_order(v, s)
}

/// The rows in order.
pub open spec fn sorted_rows(v: Seq<RowView>) -> Seq<RowView> {
    choose|s: Seq<RowView>| in_row_order(v, s)
}

/// The canonical text of the local policy. `enabled` are the tools that the
/// permission mode leaves enabled.
pub open spec fn policy_text(c: Config, enabled: Seq<Seq<char>>) -> Seq<char> {
    "["@ + json_quoted(c.profile@) + ","@ + json_quoted(c.governance.adapter@) + ","@ + bool_text(
        c.governance.fail_closed,
    ) + ","@ + decimal(c.run.max_turns as nat) + ","@ + optional_number(c.run.timeout_secs) + ","@
        + decimal(c.run.tool_concurrency as nat) + ","@ + json_quoted(c.tools.mode@) + ","@
        + list_text(quoted_each(sorted_texts(enabled))) + ","@ + bool_text(c.tools.respect_ignore)
        + ","@ + json_quoted(c.workspace.adapter@) + "]"@
}

/// The digest of the local policy. The order of the enabled tools does not count.
pub fn local_policy_digest(config: &Config, enabled: &Vec<String>) -> (s: String)
    ensures
        s@ == canonical_digest(policy_text(*config, texts(enabled@))),
        valid_digest(s@),
{
    let sorted = sort_texts(enabled);
    proof {
        assert(in_text_order(texts(enabled@), texts(sorted@)));
        text_order_is_unique(texts(enabled@), texts(sorted@), sorted_texts(texts(enabled@)));
    }
    let quoted = quote_each(&sorted);
    let list = list_of(&quoted);
    let mut t = "[".to_owned();
    push_quoted(&mut t, config.profile.as_str());
    t.append(",");
    push_quoted(&mut t, config.governance.adapter.as_str());
    t.append(",");
    push_bool(&mut t, config.governance.fail_closed);
    t.append(",");
    push_number(&mut t, config.run.max_turns as u64);
    t.append(",");
    push_optional_number(&mut t, config.run.timeout_secs);
    t.append(",");
    push_number(&mut t, config.run.tool_concurrency as u64);
    t.append(",");
    push_quoted(&mut t, config.tools.mode.as_str());
    t.append(",");
    t.append(list.as_str());
    t.append(",");
    push_bool(&mut t, config.tools.respect_ignore);
    t.append(",");
    push_quoted(&mut t, config.workspace.adapter.as_str());
    t.append("]");
    digest_bytes(t.as_str().as_bytes())
}

/// The rows of a tool catalog.
pub open spec fn catalog_rows(tools: Seq<ToolDef>) -> Seq<RowView> {
    Seq::new(
        tools.len(),
        |i: int|
            RowView { a: tools[i].name@, n: 0, b: tools[i].description@, c: tools[i].schema@ },
    )
}

pub open spec fn catalog_texts(rows: Seq<RowView>) -> Seq<Seq<char>> {
    Seq::new(rows.len(), |i: int| triple_text(rows[i].a, rows[i].b, rows[i].c))
}

/// The digest of a tool catalog. The order of the tools does not count.
pub open spec fn catalog_digest_of(tools: Seq<ToolDef>) -> Seq<char> {
    canonical_digest(list_text(catalog_texts(sorted_rows(catalog_rows(tools)))))
}

/// The digest of a tool catalog.
pub fn tool_catalog_digest(tools: &Vec<ToolDef>) -> (s: String)
    ensures
        s@ == catalog_digest_of(tools@),
        valid_digest(s@),
{
    let ghost all = catalog_rows(tools@);
    let mut rows: Vec<Row> = Vec::new();
    let mut i: usize = 0;
    while i < tools.len()
        invariant
            i <= tools@.len(),
            all == catalog_rows(tools@),
            row_views(rows@) =~= all.take(i as int),
        decreases tools@.len() - i,
    {
        let row = Row {
            a: tools[i].name.clone(),
            n: 0,
            b: tools[i].description.clone(),
            c: tools[i].schema.clone(),
        };
        let ghost before = rows@;
        rows.push(row);
        i = i + 1;
        assert(row_views(rows@) =~= row_views(before).push(row@));
        assert(all.take(i as int) =~= all.take(i - 1).push(all[i - 1]));
    }
    assert(all.take(all.len() as int) =~= all);
    let sorted = sort_rows(rows);
    proof {
        assert(in_row_order(all, row_views(sorted@)));
        row_order_is_unique(all, row_views(sorted@), sorted_rows(all));
    }
    let ghost want = catalog_texts(row_views(sorted@));
    let mut parts: Vec<String> = Vec::new();
    let mut k: usize = 0;
    while k < sorted.len()
        invariant
            k <= sorted@.len(),
            want == catalog_texts(row_views(sorted@)),
            texts(parts@) =~= want.take(k as int),
        decreases sorted@.len() - k,
    {
        let part = write_triple(sorted[k].a.as_str(), sorted[k].b.as_str(), sorted[k].c.as_str());
        let ghost before = parts@;
        parts.push(part);
        k = k + 1;
        assert(texts(parts@) =~= texts(before).push(part@));
        assert(want.take(k as int) =~= want.take(k - 1).push(want[k - 1]));
    }
    assert(want.take(want.len() as int) =~= want);
    let text = list_of(&parts);
    digest_bytes(text.as_str().as_bytes())
}

/// Reordering a tool catalog does not change its digest.
pub proof fn catalog_order_does_not_count(a: Seq<ToolDef>, b: Seq<ToolDef>)
    requires
        catalog_rows(a).to_multiset() == catalog_rows(b).to_multiset(),
    ensures
        catalog_digest_of(a) == catalog_digest_of(b),
{
    same_rows_sort_alike(catalog_rows(a), catalog_rows(b));
}

proof fn same_rows_sort_alike(a: Seq<RowView>, b: Seq<RowView>)
    requires
        a.to_multiset() == b.to_multiset(),
    ensures
        sorted_rows(a) == sorted_rows(b),
{
    let s = row_order_exists(a);
    assert(in_row_order(b, s));
    row_order_is_unique(a, s, sorted_rows(a));
    row_order_is_unique(b, s, sorted_rows(b));
}

// ---------------------------------------------------------------------------
// Bindings of a runtime
// ---------------------------------------------------------------------------

/// The bindings of a runtime surface.
pub open spec fn runtime_bindings(
    c: Config,
    enabled: Seq<Seq<char>>,
    task: Seq<char>,
    prompt: Seq<char>,
    tools: Seq<ToolDef>,
    inputs: Seq<char>,
    retained: Seq<char>,
) -> BindingsView {
    BindingsView {
        task_digest: text_digest_of(task),
        inputs_digest: inputs,
        prompt_digest: text_digest_of(prompt),
        model_digest: model_digest_of(c),
        tool_catalog_digest: catalog_digest_of(tools),
        policy_evidence_digest: canonical_digest(policy_text(c, enabled)),
        retained_evidence_digest: retained,
    }
}

/// The fault of the digests that a host supplies.
pub open spec fn supplied_fault(inputs: Seq<char>, retained: Seq<char>) -> Option<Seq<char>> {
    super::first_fault(
        digest_fault("inputs"@, inputs),
        digest_fault("retained evidence"@, retained),
    )
}

/// Whether a result is the bindings, or the fault of the supplied digests.
pub open spec fn bound(
    r: Result<ReplayBindings, ReplayError>,
    want: BindingsView,
    fault: Option<Seq<char>>,
) -> bool {
    match fault {
        None => r matches Ok(b) && b@ == want && super::bindings_fault(b@) is None,
        Some(m) => r matches Err(ReplayError::Invalid(t)) && t@ == m,
    }
}

impl ReplayBindings {
    /// The bindings a host records for one concrete runtime surface. `enabled`
    /// are the tools that the permission mode leaves enabled.
    pub fn from_runtime(
        config: &Config,
        enabled: &Vec<String>,
        task: &str,
        system_prompt: &str,
        tools: &Vec<ToolDef>,
        inputs_digest: &str,
        retained_evidence_digest: &str,
    ) -> (r: Result<Self, ReplayError>)
        ensures
            bound(
                r,
                runtime_bindings(
                    *config,
                    texts(enabled@),
                    task@,
                    system_prompt@,
                    tools@,
                    inputs_digest@,
                    retained_evidence_digest@,
                ),
                supplied_fault(inputs_digest@, retained_evidence_digest@),
            ),
    {
        match validate_digest("inputs", inputs_digest) {
            Err(e) => return Err(e),
            Ok(_) => {},
        }
        match validate_digest("retained evidence", retained_evidence_digest) {
            Err(e) => return Err(e),
            Ok(_) => {},
        }
        Ok(
            ReplayBindings {
                task_digest: text_digest(task),
                inputs_digest: inputs_digest.to_owned(),
                prompt_digest: text_digest(system_prompt),
                model_digest: model_digest(config),
                tool_catalog_digest: tool_catalog_digest(tools),
                policy_evidence_digest: local_policy_digest(config, enabled),
                retained_evidence_digest: retained_evidence_digest.to_owned(),
            },
        )
    }

    /// The bindings of the built-in observation-only replay surface: the runtime
    /// of [`replay_config`] under the policy of the host. `tools` is the catalog
    /// of the replay tools, `enabled` what the host's own mode leaves enabled.
    pub fn for_replay(
        config: &Config,
        enabled: &Vec<String>,
        task: &str,
        system_prompt: &str,
        tools: &Vec<ToolDef>,
        inputs_digest: &str,
        retained_evidence_digest: &str,
    ) -> (r: Result<Self, ReplayError>)
        ensures
            bound(
                r,
                runtime_bindings(
                    *config,
                    texts(enabled@),
                    task@,
                    system_prompt@,
                    tools@,
                    inputs_digest@,
                    retained_evidence_digest@,
                ),
                supplied_fault(inputs_digest@, retained_evidence_digest@),
            ),
    {
        let replay = replay_config(config);
        match Self::from_runtime(
            &replay,
            &replay.tools.enabled,
            task,
            system_prompt,
            tools,
            inputs_digest,
            retained_evidence_digest,
        ) {
            Err(e) => Err(e),
            Ok(mut bindings) => {
                bindings.policy_evidence_digest = local_policy_digest(config, enabled);
                assert(model_source(replay) == model_source(*config));
                assert(bindings@ =~= runtime_bindings(
                    *config,
                    texts(enabled@),
                    task@,
                    system_prompt@,
                    tools@,
                    inputs_digest@,
                    retained_evidence_digest@,
                ));
                Ok(bindings)
            },
        }
    }
}

fn copy_texts(v: &Vec<String>) -> (r: Vec<String>)
    ensures
        r@ == v@,
{
    let mut r: Vec<String> = Vec::new();
    let mut i: usize = 0;
    while i < v.len()
        invariant
            i <= v@.len(),
            r@ == v@.take(i as int),
        decreases v@.len() - i,
    {
        r.push(v[i].clone());
        i = i + 1;
        assert(v@.take(i as int) =~= v@.take(i - 1).push(v@[i - 1]));
    }
    assert(v@.take(v@.len() as int) =~= v@);
    r
}

fn copy_text(o: &Option<String>) -> (r: Option<String>)
    ensures
        r == *o,
{
    match o {
        Some(s) => Some(s.clone()),
        None => None,
    }
}

/// The tools of the replay runtime.
pub open spec fn replay_tools() -> Seq<Seq<char>> {
    seq!["read_file"@, "glob"@, "grep"@, "report"@]
}

/// The configuration of the replay runtime: observation tools only, no MCP
/// servers, no egress, no hooks, and no compaction, because ordered replay
/// evidence must remain append-only. All else is as configured.
pub fn replay_config(config: &Config) -> (r: Config)
    ensures
        r.tools.mode@ == "custom"@,
        texts(r.tools.enabled@) == replay_tools(),
        r.tools.mcp_servers@.len() == 0,
        r.tools.respect_ignore == config.tools.respect_ignore,
        r.network.egress == EgressMode::Deny,
        r.network.allow_hosts@.len() == 0,
        r.hooks@.len() == 0,
        r.run == (RunSettings { compact_after_messages: None, ..config.run }),
        r.profile == config.profile,
        r.governance == config.governance,
        r.model == config.model,
        r.workspace == config.workspace,
        r.context.skills@ == config.context.skills@,
        r.context.skills_root == config.context.skills_root,
{
    let mut enabled: Vec<String> = Vec::new();
    enabled.push("read_file".to_owned());
    enabled.push("glob".to_owned());
    enabled.push("grep".to_owned());
    enabled.push("report".to_owned());
    assert(texts(enabled@) =~= replay_tools());
    Config {
        profile: config.profile.clone(),
        governance: GovernanceSettings {
            adapter: config.governance.adapter.clone(),
            fail_closed: config.governance.fail_closed,
            required: config.governance.required,
        },
        model: ModelSettings {
            adapter: config.model.adapter.clone(),
            model: config.model.model.clone(),
            base_url: copy_text(&config.model.base_url),
            script_json: copy_text(&config.model.script_json),
        },
        run: RunSettings {
            max_turns: config.run.max_turns,
            timeout_secs: config.run.timeout_secs,
            tool_concurrency: config.run.tool_concurrency,
            compact_after_messages: None,
            compact_keep_tail: config.run.compact_keep_tail,
        },
        tools: ToolSettings {
            mode: "custom".to_owned(),
            enabled,
            respect_ignore: config.tools.respect_ignore,
            mcp_servers: Vec::new(),
        },
        workspace: WorkspaceSettings {
            adapter: config.workspace.adapter.clone(),
            root: config.workspace.root.clone(),
            snapshot: config.workspace.snapshot,
        },
        network: NetworkSettings { egress: EgressMode::Deny, allow_hosts: Vec::new() },
        hooks: Vec::new(),
        context: ContextSettings {
            skills: copy_texts(&config.context.skills),
            skills_root: copy_text(&config.context.skills_root),
        },
    }
}

// ---------------------------------------------------------------------------
// Checking a runtime against its bindings
// ---------------------------------------------------------------------------

fn compare_binding(surface: &str, expected: &str, actual: &str) -> (r: Result<(), ReplayError>)
    ensures
        if expected@ == actual@ {
            r is Ok
        } else {
            r matches Err(e) && mismatch(e, surface@)
        },
{
    if same(expected, actual) {
        Ok(())
    } else {
        Err(ReplayError::BindingMismatch { surface: surface.to_owned() })
    }
}

/// Whether an error is the mismatch of a surface.
pub open spec fn mismatch(e: ReplayError, surface: Seq<char>) -> bool {
    e matches ReplayError::BindingMismatch { surface: s } && s@ == surface
}

/// Refuses a runtime whose task, prompt, inputs, model or tool catalog differ
/// from the bindings, in that order. Governed evidence cannot be verified here.
/// `inputs` is the digest of the workspace, or why it could not be taken.
pub fn validate_runtime_bindings(
    config: &Config,
    execution: &ReplayExecution,
    task: &str,
    system_prompt: &str,
    tools: &Vec<ToolDef>,
    inputs: Result<String, ReplayError>,
) -> (r: Result<(), ReplayError>)
    ensures
        ({
            let b = execution.bindings@;
            if config.governance.required {
                r matches Err(ReplayError::GovernanceEvidenceUnsupported(a)) && a@
                    == config.governance.adapter@
            } else if b.task_digest != text_digest_of(task@) {
                r matches Err(e) && mismatch(e, "task"@)
            } else if b.prompt_digest != text_digest_of(system_prompt@) {
                r matches Err(e) && mismatch(e, "prompt"@)
            } else if inputs is Err {
                r == Err::<(), ReplayError>(inputs->Err_0)
            } else if b.inputs_digest != inputs->Ok_0@ {
                r matches Err(e) && mismatch(e, "inputs"@)
            } else if b.model_digest != model_digest_of(*config) {
                r matches Err(e) && mismatch(e, "model"@)
            } else if b.tool_catalog_digest != catalog_digest_of(tools@) {
                r matches Err(e) && mismatch(e, "tool_catalog"@)
            } else {
                r is Ok
            }
        }),
{
    if config.governance.required {
        return Err(
            ReplayError::GovernanceEvidenceUnsupported(config.governance.adapter.clone()),
        );
    }
    let b = &execution.bindings;
    let task_digest = text_digest(task);
    match compare_binding("task", b.task_digest.as_str(), task_digest.as_str()) {
        Err(e) => return Err(e),
        Ok(_) => {},
    }
    let prompt_digest = text_digest(system_prompt);
    match compare_binding("prompt", b.prompt_digest.as_str(), prompt_digest.as_str()) {
        Err(e) => return Err(e),
        Ok(_) => {},
    }
    let inputs_digest = match inputs {
        Err(e) => return Err(e),
        Ok(d) => d,
    };
    match compare_binding("inputs", b.inputs_digest.as_str(), inputs_digest.as_str()) {
        Err(e) => return Err(e),
        Ok(_) => {},
    }
    let model = model_digest(config);
    match compare_binding("model", b.model_digest.as_str(), model.as_str()) {
        Err(e) => return Err(e),
        Ok(_) => {},
    }
    let catalog = tool_catalog_digest(tools);
    compare_binding("tool_catalog", b.tool_catalog_digest.as_str(), catalog.as_str())
}

/// Refuses a host whose policy differs from the bindings.
pub fn validate_host_policy(config: &Config, enabled: &Vec<String>, bindings: &ReplayBindings) -> (r:
    Result<(), ReplayError>)
    ensures
        if bindings.policy_evidence_digest@ == canonical_digest(
            policy_text(*config, texts(enabled@)),
        ) {
            r is Ok
        } else {
            r matches Err(e) && mismatch(e, "policy_evidence"@)
        },
{
    let actual = local_policy_digest(config, enabled);
    compare_binding(
        "policy_evidence",
        bindings.policy_evidence_digest.as_str(),
        actual.as_str(),
    )
}

// ---------------------------------------------------------------------------
// Workspace inventory
// ---------------------------------------------------------------------------

/// What a directory entry is.
#[derive(Debug, Clone, Copy, PartialEq, Eq, Structural)]
pub enum EntryKind {
    Directory,
    File,
    Symlink,
    Other,
}

/// What to do with a directory entry.
#[derive(Debug, Clone, Copy, PartialEq, Eq, Structural)]
pub enum EntryAction {
    Skip,
    Descend,
    Read,
}

/// The first component of a relative path.
pub open spec fn first_component(path: Seq<char>) -> Seq<char> {
    path.subrange(0, find(path, '/', 0))
}

/// What to do with a directory entry at a relative path: git administration
/// state is left out, symbolic links and special files are refused.
pub fn inventory_entry(relative: &str, kind: EntryKind) -> (r: Result<EntryAction, ReplayError>)
    ensures
        if first_component(relative@) == ".git"@ {
            r == Ok::<EntryAction, ReplayError>(EntryAction::Skip)
        } else {
            match kind {
                EntryKind::Symlink => r matches Err(ReplayError::Invalid(m)) && m@
                    == "replay inputs contain symbolic link `"@ + relative@ + "`"@,
                EntryKind::Directory => r == Ok::<EntryAction, ReplayError>(EntryAction::Descend),
                EntryKind::File => r == Ok::<EntryAction, ReplayError>(EntryAction::Read),
                EntryKind::Other => r matches Err(ReplayError::Invalid(m)) && m@
                    == "replay inputs contain unsupported file `"@ + relative@ + "`"@,
            }
        },
{
    let v = chars_of(relative);
    let end = find_from(&v, '/', 0);
    let first = text_of(&v, 0, end);
    if same(first.as_str(), ".git") {
        return Ok(EntryAction::Skip);
    }
    match kind {
        EntryKind::Symlink => {
            let mut m = "replay inputs contain symbolic link `".to_owned();
            m.append(relative);
            m.append("`");
            Err(ReplayError::Invalid(m))
        },
        EntryKind::Directory => Ok(EntryAction::Descend),
        EntryKind::File => Ok(EntryAction::Read),
        EntryKind::Other => {
            let mut m = "replay inputs contain unsupported file `".to_owned();
            m.append(relative);
            m.append("`");
            Err(ReplayError::Invalid(m))
        },
    }
}

/// The files of a workspace that were read so far.
pub struct Inventory {
    pub files: Vec<Row>,
    pub total_bytes: u64,
}

/// A path with forward slashes.
pub open spec fn forward(path: Seq<char>) -> Seq<char> {
    Seq::new(
        path.len(),
        |i: int|
            if path[i] == '\\' {
                '/'
            } else {
                path[i]
            },
    )
}

fn forward_slashes(path: &str) -> (s: String)
    ensures
        s@ == forward(path@),
{
    let v = chars_of(path);
    let mut s = String::new();
    let mut i: usize = 0;
    while i < v.len()
        invariant
            v@ == path@,
            i <= v@.len(),
            s@ == forward(path@).take(i as int),
        decreases v@.len() - i,
    {
        if v[i] == '\\' {
            s.push('/');
        } else {
            s.push(v[i]);
        }
        i = i + 1;
        assert(forward(path@).take(i as int) =~= forward(path@).take(i - 1).push(
            forward(path@)[i - 1],
        ));
    }
    assert(forward(path@).take(path@.len() as int) =~= forward(path@));
    s
}

/// The row of a file.
pub open spec fn file_row(path: Seq<char>, bytes: Seq<u8>) -> RowView {
    RowView {
        a: forward(path),
        n: bytes.len() as u64,
        b: sha256_label(bytes),
        c: Seq::empty(),
    }
}

/// The bytes of an inventory once more are read.
pub open spec fn more_bytes(total: u64, bytes: Seq<u8>) -> u64 {
    crate::metrics::capped(total + bytes.len())
}

impl Inventory {
    /// An inventory without files.
    pub fn new() -> (i: Self)
        ensures
            row_views(i.files@) == Seq::<RowView>::empty(),
            i.total_bytes == 0,
    {
        let i = Inventory { files: Vec::new(), total_bytes: 0 };
        assert(row_views(i.files@) =~= Seq::<RowView>::empty());
        i
    }

    /// Adds a file within the bounds of an inventory. `relative` is missing
    /// where the path is not UTF-8.
    pub fn add_file(&mut self, relative: Option<&str>, bytes: &Vec<u8>) -> (r: Result<
        (),
        ReplayError,
    >)
        ensures
            final(self).total_bytes == more_bytes(old(self).total_bytes, bytes@),
            if old(self).files@.len() >= MAX_REPLAY_INPUT_FILES || more_bytes(
                old(self).total_bytes,
                bytes@,
            ) > MAX_REPLAY_INPUT_BYTES {
                r matches Err(ReplayError::Invalid(m)) && m@
                    == "replay inputs exceed 10000 files or 67108864 bytes"@
                    && final(self).files@ == old(self).files@
            } else if relative is None {
                r matches Err(ReplayError::Invalid(m)) && m@ == "replay input path is not UTF-8"@
                    && final(self).files@ == old(self).files@
            } else {
                r is Ok && row_views(final(self).files@) == row_views(old(self).files@).push(
                    file_row(relative->0@, bytes@),
                )
            },
    {
        self.total_bytes = match self.total_bytes.checked_add(bytes.len() as u64) {
            Some(n) => n,
            None => u64::MAX,
        };
        if self.files.len() >= MAX_REPLAY_INPUT_FILES || self.total_bytes
            > MAX_REPLAY_INPUT_BYTES {
            return Err(
                ReplayError::Invalid(
                    "replay inputs exceed 10000 files or 67108864 bytes".to_owned(),
                ),
            );
        }
        match relative {
            None => Err(ReplayError::Invalid("replay input path is not UTF-8".to_owned())),
            Some(path) => {
                let row = Row {
                    a: forward_slashes(path),
                    n: bytes.len() as u64,
                    b: digest_bytes(bytes.as_slice()),
                    c: String::new(),
                };
                let ghost before = self.files@;
                self.files.push(row);
                assert(row@ =~= file_row(path@, bytes@));
                assert(row_views(self.files@) =~= row_views(before).push(row@));
                Ok(())
            },
        }
    }

    /// The digest of the inventory. The order in which the files were read does
    /// not count.
    pub fn digest(self) -> (s: String)
        ensures
            s@ == inventory_digest(row_views(self.files@)),
            valid_digest(s@),
    {
        let ghost all = row_views(self.files@);
        let sorted = sort_rows(self.files);
        proof {
            assert(in_row_order(all, row_views(sorted@)));
        row_order_is_unique(all, row_views(sorted@), sorted_rows(all));
        }
        let text = write_inventory(&sorted);
        digest_bytes(text.as_str().as_bytes())
    }
}

/// The canonical text of an inventory row.
pub open spec fn inventory_row(r: RowView) -> Seq<char> {
    "["@ + json_quoted(r.a) + ","@ + decimal(r.n as nat) + ","@ + json_quoted(r.b) + "]"@
}

pub open spec fn inventory_texts(rows: Seq<RowView>) -> Seq<Seq<char>> {
    Seq::new(rows.len(), |i: int| inventory_row(rows[i]))
}

/// The digest of an inventory.
pub open spec fn inventory_digest(rows: Seq<RowView>) -> Seq<char> {
    canonical_digest(list_text(inventory_texts(sorted_rows(rows))))
}

fn write_inventory(rows: &Vec<Row>) -> (s: String)
    ensures
        s@ == list_text(inventory_texts(row_views(rows@))),
{
    let ghost want = inventory_texts(row_views(rows@));
    let mut parts: Vec<String> = Vec::new();
    let mut k: usize = 0;
    while k < rows.len()
        invariant
            k <= rows@.len(),
            want == inventory_texts(row_views(rows@)),
            texts(parts@) =~= want.take(k as int),
        decreases rows@.len() - k,
    {
        let mut part = "[".to_owned();
        push_quoted(&mut part, rows[k].a.as_str());
        part.append(",");
        push_number(&mut part, rows[k].n);
        part.append(",");
        push_quoted(&mut part, rows[k].b.as_str());
        part.append("]");
        let ghost before = parts@;
        parts.push(part);
        k = k + 1;
        assert(texts(parts@) =~= texts(before).push(part@));
        assert(want.take(k as int) =~= want.take(k - 1).push(want[k - 1]));
    }
    assert(want.take(want.len() as int) =~= want);
    list_of(&parts)
}

/// The digest of a replay workspace with no files.
pub fn empty_workspace_digest() -> (s: String)
    ensures
        s@ == inventory_digest(Seq::empty()),
        valid_digest(s@),
{
    Inventory::new().digest()
}

/// The order in which files were read does not change the digest.
pub proof fn inventory_order_does_not_count(a: Seq<RowView>, b: Seq<RowView>)
    requires
        a.to_multiset() == b.to_multiset(),
    ensures
        inventory_digest(a) == inventory_digest(b),
{
    same_rows_sort_alike(a, b);
}

/// Each binding is of its own source: the task, the inputs, the prompt, the model, the tools,
/// the policy and what was retained.
pub proof fn bindings_are_of_their_sources(
    c: Config,
    enabled: Seq<Seq<char>>,
    task: Seq<char>,
    prompt: Seq<char>,
    tools: Seq<ToolDef>,
    inputs: Seq<char>,
    retained: Seq<char>,
)
    ensures
        ({
            let b = runtime_bindings(c, enabled, task, prompt, tools, inputs, retained);
            &&& b.task_digest == text_digest_of(task)
            &&& b.inputs_digest == inputs
            &&& b.prompt_digest == text_digest_of(prompt)
            &&& b.model_digest == model_digest_of(c)
            &&& b.tool_catalog_digest == catalog_digest_of(tools)
            &&& b.policy_evidence_digest == canonical_digest(policy_text(c, enabled))
            &&& b.retained_evidence_digest == retained
        }),
{
}

/// The policy is the list of its settings in a fixed order, with the enabled tools sorted.
pub proof fn policy_lists_its_settings(c: Config, enabled: Seq<Seq<char>>)
    ensures
        policy_text(c, enabled) == list_text(
            seq![
                json_quoted(c.profile@),
                json_quoted(c.governance.adapter@),
                bool_text(c.governance.fail_closed),
                decimal(c.run.max_turns as nat),
                optional_number(c.run.timeout_secs),
                decimal(c.run.tool_concurrency as nat),
                json_quoted(c.tools.mode@),
                list_text(quoted_each(sorted_texts(enabled))),
                bool_text(c.tools.respect_ignore),
                json_quoted(c.workspace.adapter@),
            ],
        ),
{
    let parts = seq![
        json_quoted(c.profile@),
        json_quoted(c.governance.adapter@),
        bool_text(c.governance.fail_closed),
        decimal(c.run.max_turns as nat),
        optional_number(c.run.timeout_secs),
        decimal(c.run.tool_concurrency as nat),
        json_quoted(c.tools.mode@),
        list_text(quoted_each(sorted_texts(enabled))),
        bool_text(c.tools.respect_ignore),
        json_quoted(c.workspace.adapter@),
    ];
    let start = "["@;
    listed_piece(start, parts, 1);
    listed_piece(start, parts, 2);
    listed_piece(start, parts, 3);
    listed_piece(start, parts, 4);
    listed_piece(start, parts, 5);
    listed_piece(start, parts, 6);
    listed_piece(start, parts, 7);
    listed_piece(start, parts, 8);
    listed_piece(start, parts, 9);
    assert(parts.take(1) =~= seq![parts[0]]);
    assert(join(parts.take(1), ","@) == parts[0]);
    assert(parts.take(10) =~= parts);
}

proof fn listed_piece(start: Seq<char>, parts: Seq<Seq<char>>, n: int)
    requires
        1 <= n < parts.len(),
    ensures
        start + join(parts.take(n + 1), ","@) == start + join(parts.take(n), ","@) + ","@
            + parts[n],
{
    assert(parts.take(n + 1).drop_last() =~= parts.take(n));
    let front = join(parts.take(n), ","@);
    assert(start + (front + ","@ + parts[n]) =~= start + front + ","@ + parts[n]);
}

/// The order in which tools are enabled does not count: two lists that are sorted into the
/// same one give the same policy.
pub proof fn order_of_enabled_tools_does_not_count(
    c: Config,
    a: Seq<Seq<char>>,
    b: Seq<Seq<char>>,
    sorted: Seq<Seq<char>>,
)
    requires
        a.to_multiset() == b.to_multiset(),
        in_text_order(a, sorted),
    ensures
        policy_text(c, a) == policy_text(c, b),
{
    assert(in_text_order(b, sorted));
    text_order_is_unique(a, sorted, sorted_texts(a));
    text_order_is_unique(b, sorted, sorted_texts(b));
}

/// A tool, a model and a file are written as the list of their fields in a fixed order.
pub proof fn rows_list_their_fields(a: Seq<char>, b: Seq<char>, c: Seq<char>, r: RowView)
    ensures
        triple_text(a, b, c) == list_text(seq![json_quoted(a), json_quoted(b), json_quoted(c)]),
        inventory_row(r) == list_text(
            seq![json_quoted(r.a), decimal(r.n as nat), json_quoted(r.b)],
        ),
{
    let t = seq![json_quoted(a), json_quoted(b), json_quoted(c)];
    listed_piece("["@, t, 1);
    listed_piece("["@, t, 2);
    assert(t.take(1) =~= seq![t[0]]);
    assert(join(t.take(1), ","@) == t[0]);
    assert(t.take(3) =~= t);
    let u = seq![json_quoted(r.a), decimal(r.n as nat), json_quoted(r.b)];
    listed_piece("["@, u, 1);
    listed_piece("["@, u, 2);
    assert(u.take(1) =~= seq![u[0]]);
    assert(join(u.take(1), ","@) == u[0]);
    assert(u.take(3) =~= u);
}

/// A file is listed under its path, written with slashes, with its length and its digest.
pub proof fn file_is_listed_under_its_path(path: Seq<char>, bytes: Seq<u8>)
    requires
        bytes.len() <= u64::MAX,
    ensures
        file_row(path, bytes).a.len() == path.len(),
        !file_row(path, bytes).a.contains('\\'),
        !path.contains('\\') ==> file_row(path, bytes).a == path,
        file_row(path, bytes).n == bytes.len(),
        file_row(path, bytes).b == sha256_label(bytes),
{
    let f = forward(path);
    if !path.contains('\\') {
        assert forall|i: int| 0 <= i < path.len() implies f[i] == path[i] by {
            assert(path.contains(path[i]));
        }
        assert(f =~= path);
    }
}

/// Of a path the first component is what stands before its first slash.
pub proof fn first_component_ends_at_a_slash(first: Seq<char>, rest: Seq<char>)
    requires
        !first.contains('/'),
    ensures
        first_component(first + (seq!['/'] + rest)) == first,
        first_component(first) == first,
{
    let path = first + (seq!['/'] + rest);
    assert forall|j: int| 0 <= j < first.len() implies #[trigger] path[j] != '/' by {
        assert(path[j] == first[j]);
        assert(first.contains(first[j]));
    }
    found_is_first(path, '/', 0, first.len() as int);
    assert(path.subrange(0, first.len() as int) =~= first);
    find_bounds(first, '/', 0);
    assert(first.subrange(0, first.len() as int) =~= first);
}

/// A model is told by what answers for it: an address without its trailing slashes, a script
/// by its digest, a plane by its governance.
pub proof fn model_is_told_by_its_source(c: Config)
    ensures
        c.model.adapter@ == "http"@ && c.model.base_url is Some && c.model.base_url->0@.len() > 0
            && c.model.base_url->0@.last() != '/' ==> model_source(c) == "base_url:"@
            + c.model.base_url->0@,
        c.model.adapter@ == "scripted"@ && c.model.script_json is Some ==> model_source(c)
            == "script:"@ + text_digest_of(c.model.script_json->0@),
        c.model.adapter@ == "scripted"@ && c.model.script_json is None ==> model_source(c)
            == "script:"@ + "builtin-default-script-v1"@,
        c.model.adapter@ == "plane"@ ==> model_source(c) == "governance:"@
            + c.governance.adapter@,
{
    reveal_strlit("http");
    reveal_strlit("scripted");
    reveal_strlit("plane");
    assert("http"@.len() == 4 && "scripted"@.len() == 8 && "plane"@.len() == 5);
    if c.model.base_url is Some {
        let base = c.model.base_url->0@;
        assert(base.subrange(0, base.len() as int) =~= base);
    }
}

} // verus!
