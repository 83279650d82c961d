//! Optional MCP server host: exposes `doctor`, `run` and the background run
//! tools over stdio.
//!
//! Messages are routed here; what a tool does is the host's work.
use vstd::prelude::*;
use vstd::string::*;

use crate::canonical::push_quoted;
use crate::checkpoint::is_safe_run_id;
#[allow(unused_imports)]
use crate::checkpoint::safe_run_id;
use crate::events::{push_bool, push_number};
#[allow(unused_imports)]
use crate::events::bool_text;
use crate::json::{add_item, put, put_text, Json};
#[allow(unused_imports)]
use crate::json::{
    as_text, as_unsigned, items, json_quoted, json_writing, member, member_is_the_first_of_its_key,
    members, text_or, JsonModel,
};
use crate::mcp::framing;
#[allow(unused_imports)]
use crate::mcp::protocol::{
    arguments_of, call_carries_its_arguments, call_of, is_error, listed,
    request_carries_what_it_asks, request_of, result_of, said, texts_are_read_in_order,
    texts_before, tool_of, tools_before,
};
use crate::model::TokenUsage;
use crate::run::{ParkInfo, RunRequest, RunResult};
use crate::text::contains_text;
#[allow(unused_imports)]
use crate::text::{
    contains, decimal, field_added, join, opt_view, text_holds_what_is_added,
    text_keeps_what_it_holds,
};

pub mod background_run;

use background_run::JobState;

verus! {

// ---------------------------------------------------------------------------
// Run summaries
// ---------------------------------------------------------------------------

/// Stable summary returned by the `run` and background run tools.
#[derive(Debug, Clone)]
pub struct McpRunSummary {
    pub run_id: String,
    pub success: bool,
    pub summary: String,
    pub turns: u32,
    pub workspace: String,
    pub termination: String,
    pub park: Option<ParkInfo>,
    pub prompt_id: String,
    pub usage: TokenUsage,
}

/// Whether a summary is that of a result.
pub open spec fn summarizes(s: McpRunSummary, r: RunResult) -> bool {
    &&& s.run_id@ == r.run_id@
    &&& s.success == r.success
    &&& s.summary@ == r.summary@
    &&& s.turns == r.turns
    &&& s.workspace@ == r.workspace@
    &&& s.termination@ == r.termination.name()
    &&& s.park == r.park
    &&& s.prompt_id@ == r.prompt_id@
    &&& s.usage == r.usage
}

impl McpRunSummary {
    /// The summary of a result.
    pub fn from_result(r: &RunResult) -> (s: Self)
        ensures
            summarizes(s, *r),
    {
        McpRunSummary {
            run_id: r.run_id.clone(),
            success: r.success,
            summary: r.summary.clone(),
            turns: r.turns,
            workspace: r.workspace.clone(),
            termination: r.termination.as_str().to_owned(),
            park: match &r.park {
                Some(p) => Some(
                    ParkInfo {
                        reason: p.reason.clone(),
                        question: p.question.clone(),
                        tool_call_id: p.tool_call_id.clone(),
                        kind: p.kind,
                        approval_id: match &p.approval_id {
                            Some(id) => Some(id.clone()),
                            None => None,
                        },
                    },
                ),
                None => None,
            },
            prompt_id: r.prompt_id.clone(),
            usage: r.usage,
        }
    }
}

/// A park as the summary shows it.
pub open spec fn park_model(p: ParkInfo) -> JsonModel {
    JsonModel::Object(
        seq![
            ("reason"@, JsonModel::Text(p.reason@)),
            ("question"@, JsonModel::Text(p.question@)),
            ("tool_call_id"@, JsonModel::Text(p.tool_call_id@)),
        ],
    )
}

/// A token count as the summary shows it.
pub open spec fn usage_model(u: TokenUsage) -> JsonModel {
    JsonModel::Object(
        seq![
            ("input_tokens"@, JsonModel::Unsigned(u.input_tokens)),
            ("output_tokens"@, JsonModel::Unsigned(u.output_tokens)),
        ],
    )
}

/// A summary as JSON. A run that is not parked shows no park.
pub open spec fn summary_model(s: McpRunSummary) -> JsonModel {
    JsonModel::Object(
        seq![
            ("run_id"@, JsonModel::Text(s.run_id@)),
            ("success"@, JsonModel::Bool(s.success)),
            ("summary"@, JsonModel::Text(s.summary@)),
            ("turns"@, JsonModel::Unsigned(s.turns as u64)),
            ("workspace"@, JsonModel::Text(s.workspace@)),
            ("termination"@, JsonModel::Text(s.termination@)),
        ] + (match s.park {
            Some(p) => seq![("park"@, park_model(p))],
            None => Seq::empty(),
        }) + seq![
            ("prompt_id"@, JsonModel::Text(s.prompt_id@)),
            ("usage"@, usage_model(s.usage)),
        ],
    )
}

/// A summary as JSON.
pub fn summary_json(s: &McpRunSummary) -> (j: Json)
    ensures
        j.model() == summary_model(*s),
{
    let mut o: Vec<(String, Json)> = Vec::new();
    put_text(&mut o, "run_id", s.run_id.as_str());
    put(&mut o, "success", Json::Bool(s.success));
    put_text(&mut o, "summary", s.summary.as_str());
    put(&mut o, "turns", Json::Unsigned(s.turns as u64));
    put_text(&mut o, "workspace", s.workspace.as_str());
    put_text(&mut o, "termination", s.termination.as_str());
    if let Some(p) = &s.park {
        let mut v: Vec<(String, Json)> = Vec::new();
        put_text(&mut v, "reason", p.reason.as_str());
        put_text(&mut v, "question", p.question.as_str());
        put_text(&mut v, "tool_call_id", p.tool_call_id.as_str());
        assert(members(v@) =~= park_model(*p)->Object_0);
        put(&mut o, "park", Json::object(v));
    }
    put_text(&mut o, "prompt_id", s.prompt_id.as_str());
    let mut u: Vec<(String, Json)> = Vec::new();
    put(&mut u, "input_tokens", Json::Unsigned(s.usage.input_tokens));
    put(&mut u, "output_tokens", Json::Unsigned(s.usage.output_tokens));
    assert(members(u@) =~= usage_model(s.usage)->Object_0);
    put(&mut o, "usage", Json::object(u));
    assert(members(o@) =~= summary_model(*s)->Object_0);
    Json::object(o)
}

/// A park as a member of an indented object, or nothing.
pub open spec fn park_member(park: Option<ParkInfo>) -> Seq<char> {
    match park {
        Some(p) => ",\n  \"park\": {\n    \"reason\": "@ + json_quoted(p.reason@)
            + ",\n    \"question\": "@ + json_quoted(p.question@)
            + ",\n    \"tool_call_id\": "@ + json_quoted(p.tool_call_id@) + "\n  }"@,
        None => Seq::empty(),
    }
}

/// A summary as indented JSON, its members in the order of the fields. A park that is
/// not there is left out.
pub open spec fn summary_text(s: McpRunSummary) -> Seq<char> {
    "{\n  \"run_id\": "@ + json_quoted(s.run_id@) + ",\n  \"success\": "@ + bool_text(s.success)
        + ",\n  \"summary\": "@ + json_quoted(s.summary@) + ",\n  \"turns\": "@ + decimal(
        s.turns as nat,
    ) + ",\n  \"workspace\": "@ + json_quoted(s.workspace@) + ",\n  \"termination\": "@
        + json_quoted(s.termination@) + park_member(s.park) + ",\n  \"prompt_id\": "@
        + json_quoted(s.prompt_id@) + ",\n  \"usage\": {\n    \"input_tokens\": "@ + decimal(
        s.usage.input_tokens as nat,
    ) + ",\n    \"output_tokens\": "@ + decimal(s.usage.output_tokens as nat) + "\n  }\n}"@
}

/// A summary as indented JSON, its members in the order of the fields.
pub fn summary_pretty(s: &McpRunSummary) -> (text: String)
    ensures
        text@ == summary_text(*s),
{
    let mut text = "{\n  \"run_id\": ".to_owned();
    push_quoted(&mut text, s.run_id.as_str());
    text.append(",\n  \"success\": ");
    push_bool(&mut text, s.success);
    text.append(",\n  \"summary\": ");
    push_quoted(&mut text, s.summary.as_str());
    text.append(",\n  \"turns\": ");
    push_number(&mut text, s.turns as u64);
    text.append(",\n  \"workspace\": ");
    push_quoted(&mut text, s.workspace.as_str());
    text.append(",\n  \"termination\": ");
    push_quoted(&mut text, s.termination.as_str());
    let ghost head = text@;
    if let Some(p) = &s.park {
        text.append(",\n  \"park\": {\n    \"reason\": ");
        push_quoted(&mut text, p.reason.as_str());
        text.append(",\n    \"question\": ");
        push_quoted(&mut text, p.question.as_str());
        text.append(",\n    \"tool_call_id\": ");
        push_quoted(&mut text, p.tool_call_id.as_str());
        text.append("\n  }");
    }
    assert(text@ =~= head + park_member(s.park));
    text.append(",\n  \"prompt_id\": ");
    push_quoted(&mut text, s.prompt_id.as_str());
    text.append(",\n  \"usage\": {\n    \"input_tokens\": ");
    push_number(&mut text, s.usage.input_tokens);
    text.append(",\n    \"output_tokens\": ");
    push_number(&mut text, s.usage.output_tokens);
    text.append("\n  }\n}");
    text
}

// ---------------------------------------------------------------------------
// What the host offers
// ---------------------------------------------------------------------------

pub open spec fn typed(name: Seq<char>) -> JsonModel {
    JsonModel::Object(seq![("type"@, JsonModel::Text(name))])
}

/// A positive number of seconds.
pub open spec fn seconds_schema() -> JsonModel {
    JsonModel::Object(
        seq![("type"@, JsonModel::Text("integer"@)), ("minimum"@, JsonModel::Unsigned(1))],
    )
}

/// The schema of an object with these properties and no others.
pub open spec fn closed_schema(properties: Seq<(Seq<char>, JsonModel)>) -> JsonModel {
    JsonModel::Object(
        seq![
            ("type"@, JsonModel::Text("object"@)),
            ("properties"@, JsonModel::Object(properties)),
            ("additionalProperties"@, JsonModel::Bool(false)),
        ],
    )
}

/// The properties of the tools that start a run.
pub open spec fn run_properties() -> Seq<(Seq<char>, JsonModel)> {
    seq![
        ("task"@, typed("string"@)),
        ("keep_workspace"@, typed("boolean"@)),
        ("timeout_secs"@, seconds_schema()),
        ("resume_run_id"@, typed("string"@)),
        ("resume_answer"@, typed("string"@)),
    ]
}

/// One tool of the host.
pub open spec fn host_tool(
    name: Seq<char>,
    description: Seq<char>,
    properties: Seq<(Seq<char>, JsonModel)>,
) -> JsonModel {
    JsonModel::Object(
        seq![
            ("name"@, JsonModel::Text(name)),
            ("description"@, JsonModel::Text(description)),
            ("inputSchema"@, closed_schema(properties)),
        ],
    )
}

/// The tools of the host.
pub open spec fn host_tools() -> Seq<JsonModel> {
    seq![
        host_tool(
            "doctor"@,
            "Check effective settings, adapters, and plane reachability. Secrets are redacted as in the CLI doctor JSON contract."@,
            Seq::empty(),
        ),
        host_tool(
            "run"@,
            "Blocking harness run. Prefer run_start + run_status/run_wait for long tasks."@,
            run_properties(),
        ),
        host_tool(
            "run_start"@,
            "Start a harness run in the background (single-flight). Poll with run_status or run_wait."@,
            run_properties(),
        ),
        host_tool(
            "run_status"@,
            "Status of the background run started by run_start (phase, recent events, result if finished)."@,
            Seq::empty(),
        ),
        host_tool(
            "run_wait"@,
            "Wait until the background run finishes. Optional timeout_secs."@,
            seq![("timeout_secs"@, seconds_schema())],
        ),
    ]
}

fn typed_json(name: &str) -> (j: Json)
    ensures
        j.model() == typed(name@),
{
    let mut o: Vec<(String, Json)> = Vec::new();
    put_text(&mut o, "type", name);
    assert(members(o@) =~= typed(name@)->Object_0);
    Json::object(o)
}

fn seconds_json() -> (j: Json)
    ensures
        j.model() == seconds_schema(),
{
    let mut o: Vec<(String, Json)> = Vec::new();
    put_text(&mut o, "type", "integer");
    put(&mut o, "minimum", Json::Unsigned(1));
    assert(members(o@) =~= seconds_schema()->Object_0);
    Json::object(o)
}

fn run_properties_json() -> (v: Vec<(String, Json)>)
    ensures
        members(v@) == run_properties(),
{
    let mut v: Vec<(String, Json)> = Vec::new();
    put(&mut v, "task", typed_json("string"));
    put(&mut v, "keep_workspace", typed_json("boolean"));
    put(&mut v, "timeout_secs", seconds_json());
    put(&mut v, "resume_run_id", typed_json("string"));
    put(&mut v, "resume_answer", typed_json("string"));
    assert(members(v@) =~= run_properties());
    v
}

fn host_tool_json(name: &str, description: &str, properties: Vec<(String, Json)>) -> (j: Json)
    ensures
        j.model() == host_tool(name@, description@, members(properties@)),
{
    let ghost model = members(properties@);
    let mut schema: Vec<(String, Json)> = Vec::new();
    put_text(&mut schema, "type", "object");
    put(&mut schema, "properties", Json::object(properties));
    put(&mut schema, "additionalProperties", Json::Bool(false));
    assert(members(schema@) =~= closed_schema(model)->Object_0);
    let mut o: Vec<(String, Json)> = Vec::new();
    put_text(&mut o, "name", name);
    put_text(&mut o, "description", description);
    put(&mut o, "inputSchema", Json::object(schema));
    assert(members(o@) =~= host_tool(name@, description@, model)->Object_0);
    Json::object(o)
}

fn no_properties() -> (v: Vec<(String, Json)>)
    ensures
        members(v@) == Seq::<(Seq<char>, JsonModel)>::empty(),
{
    let v: Vec<(String, Json)> = Vec::new();
    assert(members(v@) =~= Seq::<(Seq<char>, JsonModel)>::empty());
    v
}

/// The listing of the host's tools.
pub fn tools_list_result() -> (j: Json)
    ensures
        j.model() == JsonModel::Object(seq![("tools"@, JsonModel::List(host_tools()))]),
{
    let mut v: Vec<Json> = Vec::new();
    add_item(
        &mut v,
        host_tool_json(
            "doctor",
            "Check effective settings, adapters, and plane reachability. Secrets are redacted as in the CLI doctor JSON contract.",
            no_properties(),
        ),
    );
    add_item(
        &mut v,
        host_tool_json(
            "run",
            "Blocking harness run. Prefer run_start + run_status/run_wait for long tasks.",
            run_properties_json(),
        ),
    );
    add_item(
        &mut v,
        host_tool_json(
            "run_start",
            "Start a harness run in the background (single-flight). Poll with run_status or run_wait.",
            run_properties_json(),
        ),
    );
    add_item(
        &mut v,
        host_tool_json(
            "run_status",
            "Status of the background run started by run_start (phase, recent events, result if finished).",
            no_properties(),
        ),
    );
    let mut wait: Vec<(String, Json)> = Vec::new();
    put(&mut wait, "timeout_secs", seconds_json());
    assert(members(wait@) =~= seq![("timeout_secs"@, seconds_schema())]);
    add_item(
        &mut v,
        host_tool_json(
            "run_wait",
            "Wait until the background run finishes. Optional timeout_secs.",
            wait,
        ),
    );
    assert(items(v@) =~= host_tools());
    let mut o: Vec<(String, Json)> = Vec::new();
    put(&mut o, "tools", Json::list(v));
    assert(members(o@) =~= seq![("tools"@, JsonModel::List(host_tools()))]);
    Json::object(o)
}

/// What the host introduces itself with.
pub open spec fn host_introduction(product: Seq<char>, version: Seq<char>) -> JsonModel {
    JsonModel::Object(
        seq![
            ("protocolVersion"@, JsonModel::Text("2024-11-05"@)),
            (
                "capabilities"@,
                JsonModel::Object(seq![("tools"@, JsonModel::Object(Seq::empty()))]),
            ),
            (
                "serverInfo"@,
                JsonModel::Object(
                    seq![
                        ("name"@, JsonModel::Text(product)),
                        ("version"@, JsonModel::Text(version)),
                    ],
                ),
            ),
            (
                "instructions"@,
                JsonModel::Text(
                    "Shikigami MCP host: doctor, run (blocking), run_start/run_status/run_wait (async poll). Stdio only. Not a multi-tenant control plane."@,
                ),
            ),
        ],
    )
}

/// What the host introduces itself with.
pub fn initialize_result(product: &str, version: &str) -> (j: Json)
    ensures
        j.model() == host_introduction(product@, version@),
{
    let mut tools: Vec<(String, Json)> = Vec::new();
    put(&mut tools, "tools", Json::object(no_properties()));
    assert(members(tools@) =~= seq![("tools"@, JsonModel::Object(Seq::empty()))]);
    let mut who: Vec<(String, Json)> = Vec::new();
    put_text(&mut who, "name", product);
    put_text(&mut who, "version", version);
    assert(members(who@) =~= seq![
        ("name"@, JsonModel::Text(product@)),
        ("version"@, JsonModel::Text(version@)),
    ]);
    let mut o: Vec<(String, Json)> = Vec::new();
    put_text(&mut o, "protocolVersion", "2024-11-05");
    put(&mut o, "capabilities", Json::object(tools));
    put(&mut o, "serverInfo", Json::object(who));
    put_text(
        &mut o,
        "instructions",
        "Shikigami MCP host: doctor, run (blocking), run_start/run_status/run_wait (async poll). Stdio only. Not a multi-tenant control plane.",
    );
    assert(members(o@) =~= host_introduction(product@, version@)->Object_0);
    Json::object(o)
}

// ---------------------------------------------------------------------------
// Requests
// ---------------------------------------------------------------------------

/// A time limit in milliseconds. One that is too long to be counted is the
/// longest one.
pub open spec fn millis(seconds: Option<u64>) -> Option<u64> {
    match seconds {
        None => None,
        Some(s) => Some(
            if s * 1000 > u64::MAX {
                u64::MAX
            } else {
                (s * 1000) as u64
            },
        ),
    }
}

/// Why arguments ask for no run.
pub open spec fn request_fault(args: JsonModel) -> Option<Seq<char>> {
    let resume = as_text(member(args, "resume_run_id"@));
    if resume is Some && !safe_run_id(resume->0) {
        Some("resume_run_id must be an opaque ASCII run id"@)
    } else if resume is None && text_or(member(args, "task"@), ""@).len() == 0 {
        Some("task is required unless resume_run_id is set"@)
    } else {
        None
    }
}

/// Whether a request is the one that arguments ask for.
pub open spec fn requests(r: RunRequest, args: JsonModel) -> bool {
    &&& r.task@ == text_or(member(args, "task"@), ""@)
    &&& r.keep_workspace == (member(args, "keep_workspace"@) == Some(JsonModel::Bool(true)))
    &&& r.timeout_ms == millis(as_unsigned(member(args, "timeout_secs"@)))
    &&& opt_view(r.resume_run_id) == as_text(member(args, "resume_run_id"@))
    &&& r.logical_operation_id is None
    &&& opt_view(r.resume_answer) == as_text(member(args, "resume_answer"@))
    &&& r.restore_snapshot is None
}

fn text_member(args: &Json, key: &str) -> (r: Option<String>)
    ensures
        opt_view(r) == as_text(member(args.model(), key@)),
{
    match args.get(key) {
        Some(v) => match v.as_str() {
            Some(s) => Some(s.to_owned()),
            None => None,
        },
        None => None,
    }
}

fn number_member(args: &Json, key: &str) -> (r: Option<u64>)
    ensures
        r == as_unsigned(member(args.model(), key@)),
{
    match args.get(key) {
        Some(v) => v.as_u64(),
        None => None,
    }
}

/// The run that arguments ask for. A run id is one path component at most.
pub fn build_request(args: &Json) -> (r: Result<RunRequest, String>)
    ensures
        match request_fault(args.model()) {
            Some(m) => r matches Err(s) && s@ == m,
            None => r matches Ok(q) && requests(q, args.model()),
        },
{
    let resume_run_id = text_member(args, "resume_run_id");
    if let Some(id) = &resume_run_id {
        if !is_safe_run_id(id.as_str()) {
            return Err("resume_run_id must be an opaque ASCII run id".to_owned());
        }
    }
    let task = args.text_at("task", "");
    if resume_run_id.is_none() && task.as_str().is_empty() {
        return Err("task is required unless resume_run_id is set".to_owned());
    }
    let keep_workspace = match args.get("keep_workspace") {
        Some(v) => v.is_true(),
        None => false,
    };
    let timeout_ms = match number_member(args, "timeout_secs") {
        None => None,
        Some(s) => match s.checked_mul(1000) {
            Some(ms) => Some(ms),
            None => Some(u64::MAX),
        },
    };
    let resume_answer = text_member(args, "resume_answer");
    Ok(
        RunRequest {
            task,
            keep_workspace,
            timeout_ms,
            resume_run_id,
            logical_operation_id: None,
            resume_answer,
            restore_snapshot: None,
        },
    )
}

/// What a caller asks the host to do.
#[derive(Debug)]
pub enum HostCall {
    Doctor,
    Run(RunRequest),
    RunStart(RunRequest),
    RunStatus,
    RunWait(Option<u64>),
}

/// Whether the host is asked to do this.
pub open spec fn asks_for(call: HostCall, name: Seq<char>, args: JsonModel) -> bool {
    match call {
        HostCall::Doctor => name == "doctor"@,
        HostCall::Run(r) => name == "run"@ && requests(r, args),
        HostCall::RunStart(r) => name == "run_start"@ && requests(r, args),
        HostCall::RunStatus => name == "run_status"@,
        HostCall::RunWait(t) => name == "run_wait"@ && t == as_unsigned(
            member(args, "timeout_secs"@),
        ),
    }
}

/// The arguments of a call.
pub open spec fn call_arguments(params: JsonModel) -> JsonModel {
    match member(params, "arguments"@) {
        Some(a) => a,
        None => JsonModel::Object(Seq::empty()),
    }
}

/// Why a call is refused before anything is done.
pub open spec fn call_fault(params: JsonModel) -> Option<Seq<char>> {
    match as_text(member(params, "name"@)) {
        None => Some("tools/call missing name"@),
        Some(name) => if name == "run"@ || name == "run_start"@ {
            request_fault(call_arguments(params))
        } else if name == "doctor"@ || name == "run_status"@ || name == "run_wait"@ {
            None
        } else {
            Some("unknown tool: "@ + name)
        },
    }
}

/// What a call asks the host to do.
pub fn parse_call(params: &Json) -> (r: Result<HostCall, String>)
    ensures
        match call_fault(params.model()) {
            Some(m) => r matches Err(s) && s@ == m,
            None => r matches Ok(c) && asks_for(
                c,
                as_text(member(params.model(), "name"@))->0,
                call_arguments(params.model()),
            ),
        },
{
    proof {
        tool_names_differ();
    }
    let name = match text_member(params, "name") {
        None => {
            return Err("tools/call missing name".to_owned());
        },
        Some(n) => n,
    };
    let args = match params.get("arguments") {
        Some(a) => a.duplicate(),
        None => Json::object(no_properties()),
    };
    let n = name.as_str();
    if crate::text::same(n, "doctor") {
        return Ok(HostCall::Doctor);
    }
    if crate::text::same(n, "run") {
        return match build_request(&args) {
            Ok(q) => Ok(HostCall::Run(q)),
            Err(m) => Err(m),
        };
    }
    if crate::text::same(n, "run_start") {
        return match build_request(&args) {
            Ok(q) => Ok(HostCall::RunStart(q)),
            Err(m) => Err(m),
        };
    }
    if crate::text::same(n, "run_status") {
        return Ok(HostCall::RunStatus);
    }
    if crate::text::same(n, "run_wait") {
        return Ok(HostCall::RunWait(number_member(&args, "timeout_secs")));
    }
    let mut s = "unknown tool: ".to_owned();
    s.append(n);
    Err(s)
}

proof fn tool_names_differ()
    ensures
        "doctor"@ != "run"@,
        "doctor"@ != "run_start"@,
        "run_status"@ != "run"@,
        "run_status"@ != "run_start"@,
        "run_wait"@ != "run"@,
        "run_wait"@ != "run_start"@,
{
    reveal_strlit("doctor");
    reveal_strlit("run");
    reveal_strlit("run_start");
    reveal_strlit("run_status");
    reveal_strlit("run_wait");
    assert("doctor"@[0] != "run"@[0]);
    assert("doctor"@[0] != "run_start"@[0]);
    assert("run_status"@.len() != "run"@.len());
    assert("run_status"@.len() != "run_start"@.len());
    assert("run_wait"@.len() != "run"@.len());
    assert("run_wait"@.len() != "run_start"@.len());
}

// ---------------------------------------------------------------------------
// Replies
// ---------------------------------------------------------------------------

/// What a tool said, and whether it failed.
pub open spec fn tool_result(text: Seq<char>, failed: bool) -> JsonModel {
    JsonModel::Object(
        seq![
            (
                "content"@,
                JsonModel::List(
                    seq![
                        JsonModel::Object(
                            seq![
                                ("type"@, JsonModel::Text("text"@)),
                                ("text"@, JsonModel::Text(text)),
                            ],
                        ),
                    ],
                ),
            ),
            ("isError"@, JsonModel::Bool(failed)),
        ],
    )
}

/// What a tool said, and whether it failed.
pub fn tool_text_result(text: &str, is_error: bool) -> (j: Json)
    ensures
        j.model() == tool_result(text@, is_error),
{
    let ghost whole = tool_result(text@, is_error);
    let mut piece: Vec<(String, Json)> = Vec::new();
    put_text(&mut piece, "type", "text");
    put_text(&mut piece, "text", text);
    assert(members(piece@) =~= whole->Object_0[0].1->List_0[0]->Object_0);
    let mut content: Vec<Json> = Vec::new();
    add_item(&mut content, Json::object(piece));
    assert(items(content@) =~= whole->Object_0[0].1->List_0);
    let mut o: Vec<(String, Json)> = Vec::new();
    put(&mut o, "content", Json::list(content));
    put(&mut o, "isError", Json::Bool(is_error));
    assert(members(o@) =~= whole->Object_0);
    Json::object(o)
}

/// The error of a tool.
pub fn tool_error_result(message: &str) -> (j: Json)
    ensures
        j.model() == tool_result(message@, true),
{
    tool_text_result(message, true)
}

/// A response with a result.
pub open spec fn response(id: JsonModel, result: JsonModel) -> JsonModel {
    JsonModel::Object(
        seq![("jsonrpc"@, JsonModel::Text("2.0"@)), ("id"@, id), ("result"@, result)],
    )
}

/// A response to an unknown method.
pub open spec fn not_found(id: JsonModel, method: Seq<char>) -> JsonModel {
    JsonModel::Object(
        seq![
            ("jsonrpc"@, JsonModel::Text("2.0"@)),
            ("id"@, id),
            (
                "error"@,
                JsonModel::Object(
                    seq![
                        ("code"@, JsonModel::Negative((-32601) as i64)),
                        ("message"@, JsonModel::Text("Method not found: "@ + method)),
                    ],
                ),
            ),
        ],
    )
}

/// A response with a result.
pub fn respond(id: Json, result: Json) -> (j: Json)
    ensures
        j.model() == response(id.model(), result.model()),
{
    let ghost a = id.model();
    let ghost b = result.model();
    let mut o: Vec<(String, Json)> = Vec::new();
    put_text(&mut o, "jsonrpc", "2.0");
    put(&mut o, "id", id);
    put(&mut o, "result", result);
    assert(members(o@) =~= response(a, b)->Object_0);
    Json::object(o)
}

fn method_not_found(id: Json, method: &str) -> (j: Json)
    ensures
        j.model() == not_found(id.model(), method@),
{
    let ghost a = id.model();
    let mut text = "Method not found: ".to_owned();
    text.append(method);
    let mut e: Vec<(String, Json)> = Vec::new();
    put(&mut e, "code", Json::Negative(-32601));
    put_text(&mut e, "message", text.as_str());
    let ghost whole = not_found(a, method@);
    assert(members(e@) =~= whole->Object_0[2].1->Object_0);
    let mut o: Vec<(String, Json)> = Vec::new();
    put_text(&mut o, "jsonrpc", "2.0");
    put(&mut o, "id", id);
    put(&mut o, "error", Json::object(e));
    assert(members(o@) =~= whole->Object_0);
    Json::object(o)
}

/// What becomes of one message.
#[derive(Debug)]
pub enum Handled {
    /// A notification: nothing is answered.
    Silent,
    /// This is answered.
    Reply(Json),
    /// The host does this, and answers under the id.
    Call { id: Json, call: HostCall },
}

/// Whether this becomes of a message.
pub open spec fn handles(
    h: Handled,
    msg: JsonModel,
    product: Seq<char>,
    version: Seq<char>,
) -> bool {
    let method = text_or(member(msg, "method"@), ""@);
    match member(msg, "id"@) {
        None => h is Silent,
        Some(id) => {
            let params = match member(msg, "params"@) {
                Some(p) => p,
                None => JsonModel::Null,
            };
            if method == "initialize"@ {
                h matches Handled::Reply(j) && j.model() == response(
                    id,
                    host_introduction(product, version),
                )
            } else if method == "ping"@ {
                h matches Handled::Reply(j) && j.model() == response(
                    id,
                    JsonModel::Object(Seq::empty()),
                )
            } else if method == "tools/list"@ {
                h matches Handled::Reply(j) && j.model() == response(
                    id,
                    JsonModel::Object(seq![("tools"@, JsonModel::List(host_tools()))]),
                )
            } else if method == "tools/call"@ {
                match call_fault(params) {
                    Some(m) => h matches Handled::Reply(j) && j.model() == response(
                        id,
                        tool_result(m, true),
                    ),
                    None => h matches Handled::Call { id: i, call } && i.model() == id && asks_for(
                        call,
                        as_text(member(params, "name"@))->0,
                        call_arguments(params),
                    ),
                }
            } else {
                h matches Handled::Reply(j) && j.model() == not_found(id, method)
            }
        },
    }
}

/// Handles one JSON-RPC message. A notification has no response. `product` and
/// `version` are what the host introduces itself with.
pub fn handle_message(msg: &Json, product: &str, version: &str) -> (h: Handled)
    ensures
        handles(h, msg.model(), product@, version@),
{
    let method = msg.text_at("method", "");
    let id = match msg.get("id") {
        None => {
            return Handled::Silent;
        },
        Some(id) => id.duplicate(),
    };
    let params = match msg.get("params") {
        Some(p) => p.duplicate(),
        None => Json::Null,
    };
    let m = method.as_str();
    if crate::text::same(m, "initialize") {
        return Handled::Reply(respond(id, initialize_result(product, version)));
    }
    if crate::text::same(m, "ping") {
        return Handled::Reply(respond(id, Json::object(no_properties())));
    }
    if crate::text::same(m, "tools/list") {
        return Handled::Reply(respond(id, tools_list_result()));
    }
    if crate::text::same(m, "tools/call") {
        return match parse_call(&params) {
            Ok(call) => Handled::Call { id, call },
            Err(text) => Handled::Reply(respond(id, tool_error_result(text.as_str()))),
        };
    }
    Handled::Reply(method_not_found(id, m))
}

/// What the host did.
#[derive(Debug)]
pub enum HostDone {
    /// The doctor report as text, and whether all is well.
    Doctor { report: String, ok: bool },
    /// A run that ended.
    Run(McpRunSummary),
    /// A background run was started.
    Started,
    /// The status of the background run.
    Status(String),
    /// The status of the background run once it was waited for.
    Waited(String),
    /// It failed, and why.
    Failed(String),
}

/// Whether a waited status tells of a finished run that failed.
pub open spec fn waited_failed(text: Seq<char>) -> bool {
    (contains(text, "\"success\":false"@) || contains(text, "error"@)) && contains(
        text,
        "\"phase\":\"finished\""@,
    )
}

/// What is answered once the host is done.
pub open spec fn done_result(done: HostDone) -> JsonModel {
    match done {
        HostDone::Doctor { report, ok } => tool_result(report@, !ok),
        HostDone::Run(s) => tool_result(summary_text(s), !s.success),
        HostDone::Started => tool_result(
            "{\"phase\":\"running\",\"message\":\"run started; poll with run_status or run_wait\"}"@,
            false,
        ),
        HostDone::Status(text) => tool_result(text@, false),
        HostDone::Waited(text) => tool_result(text@, waited_failed(text@)),
        HostDone::Failed(m) => tool_result(m@, true),
    }
}

/// The response once the host is done.
pub fn respond_done(id: Json, done: &HostDone) -> (j: Json)
    ensures
        j.model() == response(id.model(), done_result(*done)),
{
    let result = match done {
        HostDone::Doctor { report, ok } => tool_text_result(report.as_str(), !*ok),
        HostDone::Run(s) => {
            let text = summary_pretty(s);
            tool_text_result(text.as_str(), !s.success)
        },
        HostDone::Started => tool_text_result(
            "{\"phase\":\"running\",\"message\":\"run started; poll with run_status or run_wait\"}",
            false,
        ),
        HostDone::Status(text) => tool_text_result(text.as_str(), false),
        HostDone::Waited(text) => {
            let t = text.as_str();
            let failed = (contains_text(t, "\"success\":false") || contains_text(t, "error"))
                && contains_text(t, "\"phase\":\"finished\"");
            tool_text_result(t, failed)
        },
        HostDone::Failed(m) => tool_error_result(m.as_str()),
    };
    respond(id, result)
}

/// Session state of the stdio host: at most one background run.
#[derive(Debug)]
pub struct McpServerState {
    pub background: JobState,
}

impl McpServerState {
    /// A session without a background run.
    pub fn new() -> (s: Self)
        ensures
            s.background.idle(),
    {
        McpServerState { background: JobState::new() }
    }
}

/// A message framed by a `Content-Length` header.
pub fn frame_message(msg: &Json) -> (v: Vec<u8>)
    ensures
        v@ == framing::with_header(vstd::utf8::encode_utf8(json_writing(msg.model()))),
{
    framing::encode(msg)
}

/// What the host answers is read by a client as it was meant: the answer to the same request,
/// the same text, and a failure just where it is one.
pub proof fn answer_is_read_as_it_was_meant(id: u64, text: Seq<char>, failed: bool)
    ensures
        ({
            let answer = response(JsonModel::Unsigned(id), tool_result(text, failed));
            &&& as_unsigned(member(answer, "id"@)) == Some(id)
            &&& result_of(answer) == Ok::<JsonModel, Seq<char>>(tool_result(text, failed))
            &&& said(tool_result(text, failed)) == text
            &&& is_error(tool_result(text, failed)) == failed
        }),
{
    response_holds_its_result(JsonModel::Unsigned(id), tool_result(text, failed));
    reveal_strlit("content");
    reveal_strlit("isError");
    reveal_strlit("type");
    reveal_strlit("text");
    assert("content"@.len() == 7
        && "isError"@.len() == 7
        && "type"@.len() == 4
        && "text"@.len() == 4);
    assert("content"@[0] != "isError"@[0]);
    assert("type"@[1] != "text"@[1]);
    let m = tool_result(text, failed)->Object_0;
    member_is_the_first_of_its_key(m, "content"@, 0);
    member_is_the_first_of_its_key(m, "isError"@, 1);
    let items = m[0].1->List_0;
    let item = items[0]->Object_0;
    member_is_the_first_of_its_key(item, "text"@, 1);
    texts_are_read_in_order(Seq::empty(), items[0]);
    assert(Seq::<JsonModel>::empty().push(items[0]) =~= items);
    let spoken = texts_before(items, 1);
    assert(spoken =~= seq![text]);
    assert(join(spoken, "\n"@) == text);
}

/// A response holds the id of what it answers and its result, and no error.
pub proof fn response_holds_its_result(id: JsonModel, result: JsonModel)
    ensures
        member(response(id, result), "id"@) == Some(id),
        member(response(id, result), "result"@) == Some(result),
        member(response(id, result), "error"@) is None,
        result_of(response(id, result)) == Ok::<JsonModel, Seq<char>>(result),
{
    reveal_strlit("jsonrpc");
    reveal_strlit("id");
    reveal_strlit("result");
    reveal_strlit("error");
    assert("jsonrpc"@.len() == 7
        && "id"@.len() == 2
        && "result"@.len() == 6
        && "error"@.len() == 5);
    let m = response(id, result)->Object_0;
    member_is_the_first_of_its_key(m, "id"@, 1);
    member_is_the_first_of_its_key(m, "result"@, 2);
    member_is_the_first_of_its_key(m, "error"@, 3);
}

/// A message without an id is not answered; one with an id is answered under it, or asks for
/// a call under it.
pub proof fn every_request_is_answered_under_its_id(
    h: Handled,
    msg: JsonModel,
    product: Seq<char>,
    version: Seq<char>,
)
    requires
        handles(h, msg, product, version),
    ensures
        h is Silent <==> member(msg, "id"@) is None,
        h is Reply ==> member(h->Reply_0.model(), "id"@) == member(msg, "id"@),
        h is Call ==> h->Call_id.model() == member(msg, "id"@)->0,
        h is Call ==> as_text(member(msg, "method"@)) == Some("tools/call"@),
{
    if let Some(id) = member(msg, "id"@) {
        let method = text_or(member(msg, "method"@), ""@);
        let params = match member(msg, "params"@) {
            Some(p) => p,
            None => JsonModel::Null,
        };
        response_holds_its_result(id, host_introduction(product, version));
        response_holds_its_result(id, JsonModel::Object(Seq::empty()));
        response_holds_its_result(
            id,
            JsonModel::Object(seq![("tools"@, JsonModel::List(host_tools()))]),
        );
        if call_fault(params) is Some {
            response_holds_its_result(id, tool_result(call_fault(params)->0, true));
        }
        refusal_holds_its_id(id, method);
        reveal_strlit("");
        reveal_strlit("tools/call");
    }
}

proof fn refusal_holds_its_id(id: JsonModel, method: Seq<char>)
    ensures
        member(not_found(id, method), "id"@) == Some(id),
        member(not_found(id, method), "error"@) is Some,
{
    reveal_strlit("jsonrpc");
    reveal_strlit("id");
    reveal_strlit("error");
    assert("jsonrpc"@.len() == 7 && "id"@.len() == 2 && "error"@.len() == 5);
    let m = not_found(id, method)->Object_0;
    member_is_the_first_of_its_key(m, "id"@, 1);
    member_is_the_first_of_its_key(m, "error"@, 2);
}

/// What a client asks of a tool the host is asked for: the call that a client writes is
/// handled as a call of that tool with those arguments.
pub proof fn clients_call_reaches_its_tool(
    h: Handled,
    id: u64,
    name: Seq<char>,
    args: Seq<char>,
    product: Seq<char>,
    version: Seq<char>,
)
    requires
        handles(h, request_of(id, "tools/call"@, call_of(name, args)), product, version),
    ensures
        name == "doctor"@ ==> h is Call && h->Call_call is Doctor,
        name == "run_status"@ ==> h is Call && h->Call_call is RunStatus,
        name == "run_wait"@ ==> h is Call && h->Call_call is RunWait
            && h->Call_call->RunWait_0 == as_unsigned(
            member(arguments_of(args), "timeout_secs"@),
        ),
        name == "run"@ && request_fault(arguments_of(args)) is None ==> h is Call
            && h->Call_call is Run && requests(h->Call_call->Run_0, arguments_of(args)),
        name == "run_start"@ && request_fault(arguments_of(args)) is None ==> h is Call
            && h->Call_call is RunStart && requests(h->Call_call->RunStart_0, arguments_of(args)),
        name == "run"@ && request_fault(arguments_of(args)) is Some ==> h is Reply,
{
    let params = call_of(name, args);
    request_carries_what_it_asks(id, "tools/call"@, params);
    call_carries_its_arguments(name, args);
    reveal_strlit("initialize");
    reveal_strlit("ping");
    reveal_strlit("tools/list");
    reveal_strlit("tools/call");
    reveal_strlit("doctor");
    reveal_strlit("run");
    reveal_strlit("run_start");
    reveal_strlit("run_status");
    reveal_strlit("run_wait");
    assert("initialize"@.len() == 10
        && "ping"@.len() == 4
        && "tools/list"@.len() == 10
        && "tools/call"@.len() == 10
        && "doctor"@.len() == 6
        && "run"@.len() == 3
        && "run_start"@.len() == 9
        && "run_status"@.len() == 10
        && "run_wait"@.len() == 8);
    assert("tools/list"@[6] != "tools/call"@[6]);
    assert("initialize"@[0] != "tools/call"@[0]);
    assert(call_arguments(params) == arguments_of(args));
}

/// A run is asked for just where it names a task or a run to resume whose id is safe.
pub proof fn run_needs_a_task_or_a_run(args: JsonModel)
    ensures
        ({
            let resume = as_text(member(args, "resume_run_id"@));
            let task = as_text(member(args, "task"@));
            request_fault(args) is None <==> (resume is Some && safe_run_id(resume->0)) || (resume
                is None && task is Some && task->0.len() > 0)
        }),
{
    reveal_strlit("");
}

/// A requested run has the task, the limit and the answer of the arguments; it keeps its
/// workspace just where it is told to, and restores none.
pub proof fn requested_run_is_what_was_asked(r: RunRequest, args: JsonModel)
    requires
        requests(r, args),
    ensures
        as_text(member(args, "task"@)) is Some ==> r.task@ == as_text(member(args, "task"@))->0,
        r.keep_workspace <==> member(args, "keep_workspace"@) == Some(JsonModel::Bool(true)),
        r.timeout_ms is Some <==> as_unsigned(member(args, "timeout_secs"@)) is Some,
        ({
            let seconds = as_unsigned(member(args, "timeout_secs"@));
            seconds is Some && seconds->0 * 1000 <= u64::MAX ==> r.timeout_ms->0 == seconds->0
                * 1000
        }),
        opt_view(r.resume_run_id) == as_text(member(args, "resume_run_id"@)),
        opt_view(r.resume_answer) == as_text(member(args, "resume_answer"@)),
        r.restore_snapshot is None,
{
}

/// A finished call is answered as failed just where it failed: an examination that found a
/// fault, a run that did not succeed, a call that could not be made.
pub proof fn failures_are_answered_as_failures(done: HostDone)
    ensures
        done is Doctor ==> is_error(done_result(done)) == !done->ok && said(done_result(done))
            == done->report@,
        done is Run ==> is_error(done_result(done)) == !done->Run_0.success && said(
            done_result(done),
        ) == summary_text(done->Run_0),
        done is Started ==> !is_error(done_result(done)),
        done is Status ==> !is_error(done_result(done)) && said(done_result(done))
            == done->Status_0@,
        done is Waited ==> said(done_result(done)) == done->Waited_0@,
        done is Failed ==> is_error(done_result(done)) && said(done_result(done))
            == done->Failed_0@,
{
    match done {
        HostDone::Doctor { report, ok } => answer_is_read_as_it_was_meant(0, report@, !ok),
        HostDone::Run(s) => answer_is_read_as_it_was_meant(0, summary_text(s), !s.success),
        HostDone::Started => answer_is_read_as_it_was_meant(
            0,
            "{\"phase\":\"running\",\"message\":\"run started; poll with run_status or run_wait\"}"@,
            false,
        ),
        HostDone::Status(text) => answer_is_read_as_it_was_meant(0, text@, false),
        HostDone::Waited(text) => answer_is_read_as_it_was_meant(0, text@, waited_failed(text@)),
        HostDone::Failed(m) => answer_is_read_as_it_was_meant(0, m@, true),
    }
}

/// A summary says of a run what its result says.
pub proof fn summary_says_what_the_result_says(s: McpRunSummary, r: RunResult)
    requires
        summarizes(s, r),
    ensures
        s.run_id@ == r.run_id@,
        s.success == r.success,
        s.summary@ == r.summary@,
        s.turns == r.turns,
        s.workspace@ == r.workspace@,
        s.termination@ == r.termination.name(),
        s.park == r.park,
        s.prompt_id@ == r.prompt_id@,
        s.usage == r.usage,
{
}

/// The text of a summary holds each of its fields under its name.
pub proof fn summary_text_tells_the_run(s: McpRunSummary)
    ensures
        contains(summary_text(s), "{\n  \"run_id\": "@ + json_quoted(s.run_id@)),
        contains(summary_text(s), ",\n  \"success\": "@ + bool_text(s.success)),
        contains(summary_text(s), ",\n  \"summary\": "@ + json_quoted(s.summary@)),
        contains(summary_text(s), ",\n  \"turns\": "@ + decimal(s.turns as nat)),
        contains(summary_text(s), ",\n  \"workspace\": "@ + json_quoted(s.workspace@)),
        contains(summary_text(s), ",\n  \"termination\": "@ + json_quoted(s.termination@)),
        contains(summary_text(s), park_member(s.park)),
        contains(summary_text(s), ",\n  \"prompt_id\": "@ + json_quoted(s.prompt_id@)),
        contains(
            summary_text(s),
            ",\n  \"usage\": {\n    \"input_tokens\": "@ + decimal(s.usage.input_tokens as nat),
        ),
        contains(
            summary_text(s),
            ",\n    \"output_tokens\": "@ + decimal(s.usage.output_tokens as nat),
        ),
{
    let s0 = "{\n  \"run_id\": "@ + json_quoted(s.run_id@);
    text_holds_what_is_added(Seq::empty(), s0);
    assert(Seq::<char>::empty() + s0 =~= s0);
    let s1 = field_added(s0, ",\n  \"success\": "@, bool_text(s.success));
    let s2 = field_added(s1, ",\n  \"summary\": "@, json_quoted(s.summary@));
    let s3 = field_added(s2, ",\n  \"turns\": "@, decimal(s.turns as nat));
    let s4 = field_added(s3, ",\n  \"workspace\": "@, json_quoted(s.workspace@));
    let s5 = field_added(s4, ",\n  \"termination\": "@, json_quoted(s.termination@));
    let s6 = s5 + park_member(s.park);
    text_keeps_what_it_holds(s5, park_member(s.park));
    text_holds_what_is_added(s5, park_member(s.park));
    let s7 = field_added(s6, ",\n  \"prompt_id\": "@, json_quoted(s.prompt_id@));
    let s8 = field_added(
        s7,
        ",\n  \"usage\": {\n    \"input_tokens\": "@,
        decimal(s.usage.input_tokens as nat),
    );
    let s9 = field_added(
        s8,
        ",\n    \"output_tokens\": "@,
        decimal(s.usage.output_tokens as nat),
    );
    text_keeps_what_it_holds(s9, "\n  }\n}"@);
}

/// The park of a summary is written with its reason, its question and the call it waits for.
pub proof fn park_member_tells_the_park(p: ParkInfo)
    ensures
        contains(
            park_member(Some(p)),
            ",\n  \"park\": {\n    \"reason\": "@ + json_quoted(p.reason@),
        ),
        contains(park_member(Some(p)), ",\n    \"question\": "@ + json_quoted(p.question@)),
        contains(park_member(Some(p)), ",\n    \"tool_call_id\": "@ + json_quoted(p.tool_call_id@)),
        park_member(None).len() == 0,
{
    let s0 = ",\n  \"park\": {\n    \"reason\": "@ + json_quoted(p.reason@);
    text_holds_what_is_added(Seq::empty(), s0);
    assert(Seq::<char>::empty() + s0 =~= s0);
    let s1 = field_added(s0, ",\n    \"question\": "@, json_quoted(p.question@));
    let s2 = field_added(s1, ",\n    \"tool_call_id\": "@, json_quoted(p.tool_call_id@));
    text_keeps_what_it_holds(s2, "\n  }"@);
}

/// The members of a summary are its fields; there is a park just where the run is parked.
pub proof fn summary_members_are_its_fields(s: McpRunSummary)
    ensures
        member(summary_model(s), "run_id"@) == Some(JsonModel::Text(s.run_id@)),
        member(summary_model(s), "success"@) == Some(JsonModel::Bool(s.success)),
        member(summary_model(s), "summary"@) == Some(JsonModel::Text(s.summary@)),
        member(summary_model(s), "turns"@) == Some(JsonModel::Unsigned(s.turns as u64)),
        member(summary_model(s), "workspace"@) == Some(JsonModel::Text(s.workspace@)),
        member(summary_model(s), "termination"@) == Some(JsonModel::Text(s.termination@)),
        member(summary_model(s), "prompt_id"@) == Some(JsonModel::Text(s.prompt_id@)),
        member(summary_model(s), "usage"@) == Some(usage_model(s.usage)),
        s.park is Some ==> member(summary_model(s), "park"@) == Some(park_model(s.park->0)),
        s.park is None ==> member(summary_model(s), "park"@) is None,
        member(usage_model(s.usage), "input_tokens"@) == Some(
            JsonModel::Unsigned(s.usage.input_tokens),
        ),
        member(usage_model(s.usage), "output_tokens"@) == Some(
            JsonModel::Unsigned(s.usage.output_tokens),
        ),
{
    reveal_strlit("run_id");
    reveal_strlit("success");
    reveal_strlit("summary");
    reveal_strlit("turns");
    reveal_strlit("workspace");
    reveal_strlit("termination");
    reveal_strlit("prompt_id");
    reveal_strlit("usage");
    reveal_strlit("park");
    reveal_strlit("input_tokens");
    reveal_strlit("output_tokens");
    assert("run_id"@.len() == 6
        && "success"@.len() == 7
        && "summary"@.len() == 7
        && "turns"@.len() == 5
        && "workspace"@.len() == 9
        && "termination"@.len() == 11
        && "prompt_id"@.len() == 9
        && "usage"@.len() == 5
        && "park"@.len() == 4
        && "input_tokens"@.len() == 12
        && "output_tokens"@.len() == 13);
    assert("success"@[2] != "summary"@[2]);
    assert("turns"@[0] != "usage"@[0]);
    assert("workspace"@[0] != "prompt_id"@[0]);
    let m = summary_model(s)->Object_0;
    let k: int = if s.park is Some {
        7
    } else {
        6
    };
    assert(m.len() == k + 2);
    assert(m[k].0 == "prompt_id"@ && m[k + 1].0 == "usage"@);
    member_is_the_first_of_its_key(m, "run_id"@, 0);
    member_is_the_first_of_its_key(m, "success"@, 1);
    member_is_the_first_of_its_key(m, "summary"@, 2);
    member_is_the_first_of_its_key(m, "turns"@, 3);
    member_is_the_first_of_its_key(m, "workspace"@, 4);
    member_is_the_first_of_its_key(m, "termination"@, 5);
    if s.park is Some {
        assert(m[6] == ("park"@, park_model(s.park->0)));
        member_is_the_first_of_its_key(m, "park"@, 6);
    } else {
        member_is_the_first_of_its_key(m, "park"@, 8);
    }
    member_is_the_first_of_its_key(m, "prompt_id"@, k);
    member_is_the_first_of_its_key(m, "usage"@, k + 1);
    let u = usage_model(s.usage)->Object_0;
    member_is_the_first_of_its_key(u, "input_tokens"@, 0);
    member_is_the_first_of_its_key(u, "output_tokens"@, 1);
}

proof fn host_tool_is_listed(
    name: Seq<char>,
    description: Seq<char>,
    properties: Seq<(Seq<char>, JsonModel)>,
)
    requires
        name.len() > 0,
    ensures
        tool_of(host_tool(name, description, properties)) is Some,
        tool_of(host_tool(name, description, properties))->0.name == name,
        tool_of(host_tool(name, description, properties))->0.description == description,
        tool_of(host_tool(name, description, properties))->0.input_schema == json_writing(
            closed_schema(properties),
        ),
{
    reveal_strlit("name");
    reveal_strlit("description");
    reveal_strlit("inputSchema");
    assert("name"@.len() == 4 && "description"@.len() == 11 && "inputSchema"@.len() == 11);
    assert("description"@[0] != "inputSchema"@[0]);
    let m = host_tool(name, description, properties)->Object_0;
    member_is_the_first_of_its_key(m, "name"@, 0);
    member_is_the_first_of_its_key(m, "description"@, 1);
    member_is_the_first_of_its_key(m, "inputSchema"@, 2);
}

/// A client that lists the tools finds the five that the host handles, and no other.
pub proof fn clients_find_the_tools()
    ensures
        ({
            let found = listed(JsonModel::Object(seq![("tools"@, JsonModel::List(host_tools()))]));
            &&& found.len() == 5
            &&& found[0].name == "doctor"@
            &&& found[1].name == "run"@
            &&& found[2].name == "run_start"@
            &&& found[3].name == "run_status"@
            &&& found[4].name == "run_wait"@
            &&& found[1].input_schema == found[2].input_schema
        }),
{
    let v = host_tools();
    let m = seq![("tools"@, JsonModel::List(v))];
    member_is_the_first_of_its_key(m, "tools"@, 0);
    reveal_strlit("doctor");
    reveal_strlit("run");
    reveal_strlit("run_start");
    reveal_strlit("run_status");
    reveal_strlit("run_wait");
    host_tool_is_listed(
        "doctor"@,
        "Check effective settings, adapters, and plane reachability. Secrets are redacted as in the CLI doctor JSON contract."@,
        Seq::empty(),
    );
    host_tool_is_listed(
        "run"@,
        "Blocking harness run. Prefer run_start + run_status/run_wait for long tasks."@,
        run_properties(),
    );
    host_tool_is_listed(
        "run_start"@,
        "Start a harness run in the background (single-flight). Poll with run_status or run_wait."@,
        run_properties(),
    );
    host_tool_is_listed(
        "run_status"@,
        "Status of the background run started by run_start (phase, recent events, result if finished)."@,
        Seq::empty(),
    );
    host_tool_is_listed(
        "run_wait"@,
        "Wait until the background run finishes. Optional timeout_secs."@,
        seq![("timeout_secs"@, seconds_schema())],
    );
    reveal_with_fuel(tools_before, 6);
}

} // verus!
