//! Model turns: the conversation types, the scripted source and the shaping of
//! chat-completion requests and responses.
use vstd::prelude::*;
use vstd::string::*;

use crate::json::{add_item, put, put_text, read_json, Json};
#[allow(unused_imports)]
use crate::json::{
    as_items, items, json_reading, member, member_from, members, nested, opt_model, text_or,
    JsonModel,
};
use crate::text::{chars_of, decimal_text, same, text_of};
#[allow(unused_imports)]
use crate::text::decimal;

verus! {

/// One tool call of an assistant turn.
#[derive(Debug, Clone, PartialEq, Eq)]
pub struct ToolCall {
    pub id: String,
    pub name: String,
    pub args_json: String,
}

/// What a tool call holds.
#[verifier::ext_equal]
pub struct ToolCallView {
    pub id: Seq<char>,
    pub name: Seq<char>,
    pub args_json: Seq<char>,
}

impl View for ToolCall {
    type V = ToolCallView;

    open spec fn view(&self) -> ToolCallView {
        ToolCallView { id: self.id@, name: self.name@, args_json: self.args_json@ }
    }
}

/// One message of the conversation.
#[derive(Debug, Clone, PartialEq, Eq)]
pub struct ChatMessage {
    pub role: String,
    pub content: String,
    pub tool_call_id: String,
    pub tool_calls: Vec<ToolCall>,
}

/// What a message holds.
#[verifier::ext_equal]
pub struct ChatMessageView {
    pub role: Seq<char>,
    pub content: Seq<char>,
    pub tool_call_id: Seq<char>,
    pub tool_calls: Seq<ToolCallView>,
}

/// What a list of calls holds.
pub open spec fn call_views(v: Seq<ToolCall>) -> Seq<ToolCallView> {
    Seq::new(v.len(), |i: int| v[i]@)
}

impl View for ChatMessage {
    type V = ChatMessageView;

    open spec fn view(&self) -> ChatMessageView {
        ChatMessageView {
            role: self.role@,
            content: self.content@,
            tool_call_id: self.tool_call_id@,
            tool_calls: call_views(self.tool_calls@),
        }
    }
}

/// What a conversation holds.
pub open spec fn message_views(v: Seq<ChatMessage>) -> Seq<ChatMessageView> {
    Seq::new(v.len(), |i: int| v[i]@)
}

/// Token counts that a model reported.
#[derive(Debug, Clone, Copy, PartialEq, Eq, Structural)]
pub struct TokenUsage {
    pub input_tokens: u64,
    pub output_tokens: u64,
}

impl Default for TokenUsage {
    fn default() -> (u: Self)
        ensures
            u == (TokenUsage { input_tokens: 0, output_tokens: 0 }),
    {
        TokenUsage { input_tokens: 0, output_tokens: 0 }
    }
}

/// The sum of two counts, at most `u64::MAX`.
pub open spec fn saturating_sum(a: u64, b: u64) -> u64 {
    if a + b > u64::MAX {
        u64::MAX
    } else {
        (a + b) as u64
    }
}

impl TokenUsage {
    /// Adds reported counts to the running total.
    pub fn add_reported(&mut self, other: Option<TokenUsage>)
        ensures
            match other {
                Some(u) => final(self).input_tokens == saturating_sum(
                    old(self).input_tokens,
                    u.input_tokens,
                ) && final(self).output_tokens == saturating_sum(
                    old(self).output_tokens,
                    u.output_tokens,
                ),
                None => *final(self) == *old(self),
            },
    {
        if let Some(u) = other {
            self.input_tokens = match self.input_tokens.checked_add(u.input_tokens) {
                Some(n) => n,
                None => u64::MAX,
            };
            self.output_tokens = match self.output_tokens.checked_add(u.output_tokens) {
                Some(n) => n,
                None => u64::MAX,
            };
        }
    }
}

/// A cost estimate, as the pricing component rendered it.
#[derive(Debug, Clone, PartialEq, Eq)]
pub struct CostEstimate {
    pub text: String,
}

/// One assistant turn.
#[derive(Debug, Clone)]
pub struct ModelTurn {
    pub content: String,
    pub tool_calls: Vec<ToolCall>,
    pub usage: Option<TokenUsage>,
}

/// What a turn holds.
#[verifier::ext_equal]
pub struct ModelTurnView {
    pub content: Seq<char>,
    pub tool_calls: Seq<ToolCallView>,
    pub usage: Option<TokenUsage>,
}

impl View for ModelTurn {
    type V = ModelTurnView;

    open spec fn view(&self) -> ModelTurnView {
        ModelTurnView {
            content: self.content@,
            tool_calls: call_views(self.tool_calls@),
            usage: self.usage,
        }
    }
}

/// What a list of turns holds.
pub open spec fn turn_views(v: Seq<ModelTurn>) -> Seq<ModelTurnView> {
    Seq::new(v.len(), |i: int| v[i]@)
}

impl ToolCall {
    /// The same call again.
    pub fn duplicate(&self) -> (r: ToolCall)
        ensures
            r == *self,
    {
        ToolCall {
            id: self.id.clone(),
            name: self.name.clone(),
            args_json: self.args_json.clone(),
        }
    }
}

/// The same calls again.
pub fn duplicate_calls(v: &Vec<ToolCall>) -> (r: Vec<ToolCall>)
    ensures
        r@ == v@,
{
    let mut r: Vec<ToolCall> = Vec::new();
    let mut i: usize = 0;
    while i < v.len()
        invariant
            i <= v@.len(),
            r@ == v@.take(i as int),
        decreases v@.len() - i,
    {
        r.push(v[i].duplicate());
        i = i + 1;
        assert(v@.take(i as int) =~= v@.take(i - 1).push(v@[i - 1]));
    }
    assert(v@.take(v@.len() as int) =~= v@);
    r
}

impl ChatMessage {
    /// The same message again.
    pub fn duplicate(&self) -> (r: ChatMessage)
        ensures
            r@ == self@,
            r.tool_calls@ == self.tool_calls@,
    {
        ChatMessage {
            role: self.role.clone(),
            content: self.content.clone(),
            tool_call_id: self.tool_call_id.clone(),
            tool_calls: duplicate_calls(&self.tool_calls),
        }
    }
}

/// Why no model turn came.
#[derive(Debug)]
pub enum ModelError {
    Message(String),
    ScriptExhausted,
    HttpUnavailable,
    Io(String),
    Json(String),
    Http(String),
}

impl ModelError {
    /// The text of the error.
    pub open spec fn text(self) -> Seq<char> {
        match self {
            ModelError::Message(m) => "model: "@ + m@,
            ModelError::ScriptExhausted => "scripted turns exhausted"@,
            ModelError::HttpUnavailable =>
                "http model unavailable (enable feature model-http and set credentials)"@,
            ModelError::Io(m) => "I/O: "@ + m@,
            ModelError::Json(m) => "json: "@ + m@,
            ModelError::Http(m) => "http: "@ + m@,
        }
    }

    /// The text of the error.
    pub fn message(&self) -> (s: String)
        ensures
            s@ == self.text(),
    {
        match self {
            ModelError::Message(m) => labelled("model: ", m),
            ModelError::ScriptExhausted => "scripted turns exhausted".to_owned(),
            ModelError::HttpUnavailable =>
                "http model unavailable (enable feature model-http and set credentials)".to_owned(),
            ModelError::Io(m) => labelled("I/O: ", m),
            ModelError::Json(m) => labelled("json: ", m),
            ModelError::Http(m) => labelled("http: ", m),
        }
    }
}

/// A label and the text behind it.
pub(crate) fn labelled(label: &str, text: &String) -> (s: String)
    ensures
        s@ == label@ + text@,
{
    let mut s = label.to_owned();
    s.append(text.as_str());
    s
}

/// The source that a configuration names.
#[derive(Debug, Clone, Copy, PartialEq, Eq, Structural)]
pub enum ModelAdapter {
    Scripted,
    Http,
    Plane,
}

/// The source that the adapter name selects; `http_enabled` tells whether the
/// HTTP client is built in.
pub fn from_config(adapter: &str, http_enabled: bool) -> (r: Result<ModelAdapter, ModelError>)
    ensures
        if adapter@ == "scripted"@ {
            r == Ok::<ModelAdapter, ModelError>(ModelAdapter::Scripted)
        } else if adapter@ == "http"@ {
            r == if http_enabled {
                Ok::<ModelAdapter, ModelError>(ModelAdapter::Http)
            } else {
                Err(ModelError::HttpUnavailable)
            }
        } else if adapter@ == "plane"@ {
            r == Ok::<ModelAdapter, ModelError>(ModelAdapter::Plane)
        } else {
            r matches Err(ModelError::Message(m)) && m@ == "unknown model adapter `"@ + adapter@
                + "`"@
        },
{
    if same(adapter, "scripted") {
        Ok(ModelAdapter::Scripted)
    } else if same(adapter, "http") {
        if http_enabled {
            Ok(ModelAdapter::Http)
        } else {
            Err(ModelError::HttpUnavailable)
        }
    } else if same(adapter, "plane") {
        Ok(ModelAdapter::Plane)
    } else {
        let mut m = "unknown model adapter `".to_owned();
        m.append(adapter);
        m.append("`");
        Err(ModelError::Message(m))
    }
}

/// One turn of a script, as it is written.
pub struct ScriptedTurn {
    pub content: Option<String>,
    pub tool_calls: Vec<ScriptedCall>,
}

/// One call of a script, as it is written.
pub struct ScriptedCall {
    pub id: Option<String>,
    pub name: String,
    pub args_json: Option<String>,
}

/// The text of an optional string, or `default`.
pub open spec fn or_text(o: Option<String>, default: Seq<char>) -> Seq<char> {
    match o {
        Some(s) => s@,
        None => default,
    }
}

/// The id of the `i`-th call of a turn that names none.
pub open spec fn default_call_id(i: nat) -> Seq<char> {
    "call_"@ + decimal(i)
}

/// The call that a scripted call stands for at position `i` of its turn.
pub open spec fn scripted_call(c: ScriptedCall, i: nat) -> ToolCallView {
    ToolCallView {
        id: or_text(c.id, default_call_id(i)),
        name: c.name@,
        args_json: or_text(c.args_json, "{}"@),
    }
}

/// The turn that a scripted turn stands for.
pub open spec fn scripted_turn(t: ScriptedTurn) -> ModelTurnView {
    ModelTurnView {
        content: or_text(t.content, Seq::empty()),
        tool_calls: Seq::new(
            t.tool_calls@.len(),
            |i: int| scripted_call(t.tool_calls@[i], i as nat),
        ),
        usage: None,
    }
}

pub(crate) fn call_id(i: usize) -> (s: String)
    ensures
        s@ == default_call_id(i as nat),
{
    let digits = decimal_text(i as u64);
    let mut s = "call_".to_owned();
    s.append(digits.as_str());
    s
}

pub(crate) fn take_or(o: &Option<String>, default: &str) -> (s: String)
    ensures
        s@ == or_text(*o, default@),
{
    match o {
        Some(t) => t.clone(),
        None => default.to_owned(),
    }
}

fn turn_of_script(t: &ScriptedTurn) -> (r: ModelTurn)
    ensures
        r@ == scripted_turn(*t),
{
    let mut calls: Vec<ToolCall> = Vec::new();
    let mut i: usize = 0;
    while i < t.tool_calls.len()
        invariant
            i <= t.tool_calls@.len(),
            call_views(calls@) =~= scripted_turn(*t).tool_calls.take(i as int),
        decreases t.tool_calls@.len() - i,
    {
        let c = &t.tool_calls[i];
        let id = match &c.id {
            Some(id) => id.clone(),
            None => call_id(i),
        };
        let call = ToolCall { id, name: c.name.clone(), args_json: take_or(&c.args_json, "{}") };
        let ghost before = calls@;
        calls.push(call);
        assert(call@ == scripted_call(*c, i as nat));
        i = i + 1;
        assert(call_views(calls@) =~= call_views(before).push(call@));
        assert(scripted_turn(*t).tool_calls.take(i as int) =~= scripted_turn(*t).tool_calls.take(
            i - 1,
        ).push(scripted_turn(*t).tool_calls[i - 1]));
    }
    assert(scripted_turn(*t).tool_calls.take(t.tool_calls@.len() as int) =~= scripted_turn(
        *t,
    ).tool_calls);
    let content = match &t.content {
        Some(c) => c.clone(),
        None => String::new(),
    };
    ModelTurn { content, tool_calls: calls, usage: None }
}

/// Deterministic multi-turn script for tests and offline demos: the turns that
/// are still to come.
pub struct ScriptedModel {
    pub turns: Vec<ModelTurn>,
}

impl ScriptedModel {
    /// The script that is written as `wire`: a missing content is empty, a
    /// missing id is the position of the call, missing arguments are `{}`.
    pub fn from_config(wire: &Vec<ScriptedTurn>) -> (m: Self)
        ensures
            turn_views(m.turns@) == Seq::new(wire@.len(), |i: int| scripted_turn(wire@[i])),
    {
        let ghost all = Seq::new(wire@.len(), |i: int| scripted_turn(wire@[i]));
        let mut turns: Vec<ModelTurn> = Vec::new();
        let mut i: usize = 0;
        while i < wire.len()
            invariant
                i <= wire@.len(),
                all == Seq::new(wire@.len(), |i: int| scripted_turn(wire@[i])),
                turn_views(turns@) =~= all.take(i as int),
            decreases wire@.len() - i,
        {
            let turn = turn_of_script(&wire[i]);
            let ghost before = turns@;
            turns.push(turn);
            i = i + 1;
            assert(turn_views(turns@) =~= turn_views(before).push(turn@));
            assert(all.take(i as int) =~= all.take(i - 1).push(all[i - 1]));
        }
        assert(all.take(all.len() as int) =~= all);
        ScriptedModel { turns }
    }

    /// A script of the given turns.
    pub fn from_turns(turns: Vec<ModelTurn>) -> (m: Self)
        ensures
            m.turns@ == turns@,
    {
        ScriptedModel { turns }
    }

    /// The next turn of the script. The turns come in order, each once.
    pub fn next_turn(&mut self) -> (r: Result<ModelTurn, ModelError>)
        ensures
            if old(self).turns@.len() == 0 {
                r == Err::<ModelTurn, ModelError>(ModelError::ScriptExhausted)
                    && final(self).turns@ == old(self).turns@
            } else {
                r == Ok::<ModelTurn, ModelError>(old(self).turns@[0]) && final(self).turns@ == old(
                    self,
                ).turns@.skip(1)
            },
    {
        if self.turns.len() == 0 {
            return Err(ModelError::ScriptExhausted);
        }
        let turn = self.turns.remove(0);
        assert(self.turns@ =~= old(self).turns@.skip(1));
        Ok(turn)
    }
}

/// The script that runs when none is configured: write a marker file, then
/// report.
pub fn default_script() -> (wire: Vec<ScriptedTurn>)
    ensures
        wire@.len() == 2,
        scripted_turn(wire@[0]).tool_calls == seq![
            ToolCallView {
                id: default_call_id(0),
                name: "write_file"@,
                args_json: "{\"path\":\"SHIKIGAMI_OK.txt\",\"content\":\"ok\\n\"}"@,
            },
        ],
        scripted_turn(wire@[1]).tool_calls == seq![
            ToolCallView {
                id: default_call_id(0),
                name: "report"@,
                args_json: "{\"summary\":\"scripted run complete\",\"success\":true}"@,
            },
        ],
        scripted_turn(wire@[0]).content.len() == 0,
        scripted_turn(wire@[1]).content.len() == 0,
{
    let mut write: Vec<ScriptedCall> = Vec::new();
    write.push(
        ScriptedCall {
            id: None,
            name: "write_file".to_owned(),
            args_json: Some(
                "{\"path\":\"SHIKIGAMI_OK.txt\",\"content\":\"ok\\n\"}".to_owned(),
            ),
        },
    );
    let mut report: Vec<ScriptedCall> = Vec::new();
    report.push(
        ScriptedCall {
            id: None,
            name: "report".to_owned(),
            args_json: Some(
                "{\"summary\":\"scripted run complete\",\"success\":true}".to_owned(),
            ),
        },
    );
    let mut wire: Vec<ScriptedTurn> = Vec::new();
    wire.push(ScriptedTurn { content: None, tool_calls: write });
    wire.push(ScriptedTurn { content: None, tool_calls: report });
    wire
}

// ---------------------------------------------------------------------------
// Chat completions
// ---------------------------------------------------------------------------

/// A tool as the model sees it.
#[derive(Debug, Clone)]
pub struct ToolDef {
    pub name: String,
    pub description: String,
    /// The JSON schema of the arguments, as text.
    pub schema: String,
}

/// Where trailing slashes of a text begin.
pub open spec fn back_slash(s: Seq<char>, hi: int) -> int
    decreases hi,
{
    if hi > 0 && s[hi - 1] == '/' {
        back_slash(s, hi - 1)
    } else {
        hi
    }
}

/// The chat-completion address below a base address, whose trailing slashes do
/// not count.
pub open spec fn completions_address(base: Seq<char>) -> Seq<char> {
    base.subrange(0, back_slash(base, base.len() as int)) + "/chat/completions"@
}

/// The chat-completion address below a base address.
pub fn completions_url(base: &str) -> (s: String)
    ensures
        s@ == completions_address(base@),
{
    let v = chars_of(base);
    let mut hi: usize = v.len();
    while hi > 0 && v[hi - 1] == '/'
        invariant
            hi <= v@.len(),
            back_slash(v@, v@.len() as int) == back_slash(v@, hi as int),
        decreases hi,
    {
        hi = hi - 1;
    }
    let mut s = text_of(&v, 0, hi);
    s.append("/chat/completions");
    s
}

/// One call of an assistant message in a request.
pub open spec fn wire_call(c: ToolCallView) -> JsonModel {
    JsonModel::Object(
        seq![
            ("id"@, JsonModel::Text(c.id)),
            ("type"@, JsonModel::Text("function"@)),
            (
                "function"@,
                JsonModel::Object(
                    seq![
                        ("name"@, JsonModel::Text(c.name)),
                        ("arguments"@, JsonModel::Text(c.args_json)),
                    ],
                ),
            ),
        ],
    )
}

/// One message of a request: a tool result, an assistant turn with calls, or a
/// plain message.
pub open spec fn wire_message(m: ChatMessageView) -> JsonModel {
    if m.role == "tool"@ {
        JsonModel::Object(
            seq![
                ("role"@, JsonModel::Text("tool"@)),
                ("tool_call_id"@, JsonModel::Text(m.tool_call_id)),
                ("content"@, JsonModel::Text(m.content)),
            ],
        )
    } else if m.tool_calls.len() > 0 {
        JsonModel::Object(
            seq![
                ("role"@, JsonModel::Text("assistant"@)),
                ("content"@, JsonModel::Text(m.content)),
                (
                    "tool_calls"@,
                    JsonModel::List(Seq::new(m.tool_calls.len(), |i: int| wire_call(m.tool_calls[i]))),
                ),
            ],
        )
    } else {
        JsonModel::Object(
            seq![
                ("role"@, JsonModel::Text(m.role)),
                ("content"@, JsonModel::Text(m.content)),
            ],
        )
    }
}

/// One tool of a request. A schema that is no JSON counts as the empty object.
pub open spec fn wire_tool(t: ToolDef) -> JsonModel {
    JsonModel::Object(
        seq![
            ("type"@, JsonModel::Text("function"@)),
            (
                "function"@,
                JsonModel::Object(
                    seq![
                        ("name"@, JsonModel::Text(t.name@)),
                        ("description"@, JsonModel::Text(t.description@)),
                        (
                            "parameters"@,
                            match json_reading(t.schema@) {
                                Ok(p) => p,
                                Err(_) => JsonModel::Object(Seq::empty()),
                            },
                        ),
                    ],
                ),
            ),
        ],
    )
}

/// The body of a chat-completion request.
pub open spec fn wire_request(
    model: Seq<char>,
    system: Seq<char>,
    messages: Seq<ChatMessageView>,
    tools: Seq<ToolDef>,
) -> JsonModel {
    JsonModel::Object(
        seq![
            ("model"@, JsonModel::Text(model)),
            (
                "messages"@,
                JsonModel::List(
                    seq![
                        JsonModel::Object(
                            seq![
                                ("role"@, JsonModel::Text("system"@)),
                                ("content"@, JsonModel::Text(system)),
                            ],
                        ),
                    ] + Seq::new(messages.len(), |i: int| wire_message(messages[i])),
                ),
            ),
            ("tools"@, JsonModel::List(Seq::new(tools.len(), |i: int| wire_tool(tools[i])))),
        ],
    )
}

fn call_json(c: &ToolCall) -> (j: Json)
    ensures
        j.model() == wire_call(c@),
{
    let mut function: Vec<(String, Json)> = Vec::new();
    put_text(&mut function, "name", c.name.as_str());
    put_text(&mut function, "arguments", c.args_json.as_str());
    let mut call: Vec<(String, Json)> = Vec::new();
    put_text(&mut call, "id", c.id.as_str());
    put_text(&mut call, "type", "function");
    let ghost inner = members(function@);
    put(&mut call, "function", Json::object(function));
    assert(inner =~= seq![
        ("name"@, JsonModel::Text(c.name@)),
        ("arguments"@, JsonModel::Text(c.args_json@)),
    ]);
    assert(members(call@) =~= wire_call(c@)->Object_0);
    Json::object(call)
}

fn message_json(m: &ChatMessage) -> (j: Json)
    ensures
        j.model() == wire_message(m@),
{
    let mut o: Vec<(String, Json)> = Vec::new();
    if same(m.role.as_str(), "tool") {
        put_text(&mut o, "role", "tool");
        put_text(&mut o, "tool_call_id", m.tool_call_id.as_str());
        put_text(&mut o, "content", m.content.as_str());
        assert(members(o@) =~= wire_message(m@)->Object_0);
    } else if m.tool_calls.len() > 0 {
        let ghost all = Seq::new(m@.tool_calls.len(), |i: int| wire_call(m@.tool_calls[i]));
        let mut calls: Vec<Json> = Vec::new();
        let mut i: usize = 0;
        while i < m.tool_calls.len()
            invariant
                i <= m.tool_calls@.len(),
                all == Seq::new(m@.tool_calls.len(), |i: int| wire_call(m@.tool_calls[i])),
                items(calls@) =~= all.take(i as int),
            decreases m.tool_calls@.len() - i,
        {
            add_item(&mut calls, call_json(&m.tool_calls[i]));
            i = i + 1;
            assert(all.take(i as int) =~= all.take(i - 1).push(all[i - 1]));
        }
        assert(all.take(all.len() as int) =~= all);
        put_text(&mut o, "role", "assistant");
        put_text(&mut o, "content", m.content.as_str());
        put(&mut o, "tool_calls", Json::list(calls));
        assert(members(o@) =~= wire_message(m@)->Object_0);
    } else {
        put_text(&mut o, "role", m.role.as_str());
        put_text(&mut o, "content", m.content.as_str());
        assert(members(o@) =~= wire_message(m@)->Object_0);
    }
    Json::object(o)
}

fn tool_json(t: &ToolDef) -> (j: Json)
    ensures
        j.model() == wire_tool(*t),
{
    let params = match read_json(t.schema.as_str()) {
        Ok(p) => p,
        Err(_) => {
            let none: Vec<(String, Json)> = Vec::new();
            assert(members(none@) =~= Seq::<(Seq<char>, JsonModel)>::empty());
            Json::object(none)
        },
    };
    assert(params.model() == match json_reading(t.schema@) {
        Ok(p) => p,
        Err(_) => JsonModel::Object(Seq::empty()),
    });
    let mut function: Vec<(String, Json)> = Vec::new();
    put_text(&mut function, "name", t.name.as_str());
    put_text(&mut function, "description", t.description.as_str());
    let ghost schema = params.model();
    put(&mut function, "parameters", params);
    assert(members(function@) =~= seq![
        ("name"@, JsonModel::Text(t.name@)),
        ("description"@, JsonModel::Text(t.description@)),
        ("parameters"@, schema),
    ]);
    let mut o: Vec<(String, Json)> = Vec::new();
    put_text(&mut o, "type", "function");
    let ghost inner = members(function@);
    put(&mut o, "function", Json::object(function));
    assert(wire_tool(*t)->Object_0[1].1->Object_0 =~= inner);
    assert(members(o@) =~= wire_tool(*t)->Object_0);
    Json::object(o)
}

/// The body of a chat-completion request.
pub fn completion_request(
    model: &str,
    system: &str,
    messages: &Vec<ChatMessage>,
    tools: &Vec<ToolDef>,
) -> (j: Json)
    ensures
        j.model() == wire_request(model@, system@, message_views(messages@), tools@),
{
    let ghost views = message_views(messages@);
    let ghost head = JsonModel::Object(
        seq![("role"@, JsonModel::Text("system"@)), ("content"@, JsonModel::Text(system@))],
    );
    let ghost all = seq![head] + Seq::new(views.len(), |i: int| wire_message(views[i]));
    let mut first: Vec<(String, Json)> = Vec::new();
    put_text(&mut first, "role", "system");
    put_text(&mut first, "content", system);
    assert(members(first@) =~= head->Object_0);
    let mut wire: Vec<Json> = Vec::new();
    add_item(&mut wire, Json::object(first));
    let mut i: usize = 0;
    assert(items(wire@) =~= all.take(1));
    while i < messages.len()
        invariant
            i <= messages@.len(),
            views == message_views(messages@),
            all == seq![head] + Seq::new(views.len(), |i: int| wire_message(views[i])),
            items(wire@) =~= all.take(i + 1),
        decreases messages@.len() - i,
    {
        add_item(&mut wire, message_json(&messages[i]));
        i = i + 1;
        assert(all.take(i + 1) =~= all.take(i as int).push(all[i as int]));
        assert(all[i as int] == wire_message(views[i - 1]));
    }
    assert(all.take(all.len() as int) =~= all);
    let ghost defs = Seq::new(tools@.len(), |i: int| wire_tool(tools@[i]));
    let mut list: Vec<Json> = Vec::new();
    let mut k: usize = 0;
    while k < tools.len()
        invariant
            k <= tools@.len(),
            defs == Seq::new(tools@.len(), |i: int| wire_tool(tools@[i])),
            items(list@) =~= defs.take(k as int),
        decreases tools@.len() - k,
    {
        add_item(&mut list, tool_json(&tools[k]));
        k = k + 1;
        assert(defs.take(k as int) =~= defs.take(k - 1).push(defs[k - 1]));
    }
    assert(defs.take(defs.len() as int) =~= defs);
    let mut o: Vec<(String, Json)> = Vec::new();
    put_text(&mut o, "model", model);
    put(&mut o, "messages", Json::list(wire));
    put(&mut o, "tools", Json::list(list));
    assert(members(o@) =~= wire_request(model@, system@, views, tools@)->Object_0);
    Json::object(o)
}

/// The message of the first choice of a response.
pub open spec fn first_choice(response: JsonModel) -> Option<JsonModel> {
    let first = match member(response, "choices"@) {
        Some(JsonModel::List(v)) => if v.len() > 0 {
            Some(v[0])
        } else {
            None
        },
        Some(JsonModel::Object(m)) => member(JsonModel::Object(m), "0"@),
        _ => None,
    };
    match first {
        Some(c) => member(c, "message"@),
        None => None,
    }
}

/// The call at position `i` of a response message.
pub open spec fn response_call(c: JsonModel, i: nat) -> ToolCallView {
    ToolCallView {
        id: text_or(member(c, "id"@), default_call_id(i)),
        name: text_or(nested(c, "function"@, "name"@), Seq::empty()),
        args_json: text_or(nested(c, "function"@, "arguments"@), "{}"@),
    }
}

/// The calls of a response message.
pub open spec fn response_calls(choice: JsonModel) -> Seq<ToolCallView> {
    match as_items(member(choice, "tool_calls"@)) {
        Some(v) => Seq::new(v.len(), |i: int| response_call(v[i], i as nat)),
        None => Seq::empty(),
    }
}

/// The turn that a response holds, if it has a first choice.
pub open spec fn response_turn(response: JsonModel) -> Option<ModelTurnView> {
    match first_choice(response) {
        None => None,
        Some(choice) => Some(
            ModelTurnView {
                content: text_or(member(choice, "content"@), Seq::empty()),
                tool_calls: response_calls(choice),
                usage: None,
            },
        ),
    }
}

/// The turn that a chat-completion response holds: the first choice, with empty
/// content and default ids and arguments where they are missing.
pub fn completion_turn(response: &Json) -> (r: Result<ModelTurn, ModelError>)
    ensures
        match response_turn(response.model()) {
            None => r matches Err(ModelError::Message(m)) && m@ == "missing choices"@,
            Some(turn) => r matches Ok(t) && t@ == turn,
        },
{
    let choices = response.get("choices");
    let first: Option<&Json> = match choices {
        Some(c) => match c.as_list() {
            Some(v) => if v.len() > 0 {
                assert(items(v@)[0] == v@[0].model());
                Some(&v[0])
            } else {
                None
            },
            None => c.get("0"),
        },
        None => None,
    };
    let message: Option<&Json> = match first {
        Some(c) => c.get("message"),
        None => None,
    };
    assert(opt_model(message) == first_choice(response.model()));
    match message {
        None => Err(ModelError::Message("missing choices".to_owned())),
        Some(choice) => {
            let content = choice.text_at("content", "");
            proof {
                reveal_strlit("");
                assert(""@ =~= Seq::<char>::empty());
            }
            let mut tool_calls: Vec<ToolCall> = Vec::new();
            let ghost all = response_calls(choice.model());
            if let Some(list) = choice.get("tool_calls") {
                if let Some(v) = list.as_list() {
                    assert(all =~= Seq::new(
                        v@.len(),
                        |i: int| response_call(items(v@)[i], i as nat),
                    ));
                    let mut i: usize = 0;
                    while i < v.len()
                        invariant
                            i <= v@.len(),
                            all.len() == v@.len(),
                            forall|j: int|
                                0 <= j < v@.len() ==> #[trigger] all[j] == response_call(
                                    v@[j].model(),
                                    j as nat,
                                ),
                            call_views(tool_calls@) =~= all.take(i as int),
                            ""@ == Seq::<char>::empty(),
                        decreases v@.len() - i,
                    {
                        let c = &v[i];
                        let fallback = call_id(i);
                        let call = ToolCall {
                            id: c.text_at("id", fallback.as_str()),
                            name: c.nested_text("function", "name", ""),
                            args_json: c.nested_text("function", "arguments", "{}"),
                        };
                        let ghost before = tool_calls@;
                        tool_calls.push(call);
                        assert(call@ == all[i as int]);
                        i = i + 1;
                        assert(call_views(tool_calls@) =~= call_views(before).push(call@));
                        assert(all.take(i as int) =~= all.take(i - 1).push(all[i - 1]));
                    }
                    assert(all.take(all.len() as int) =~= all);
                }
            }
            assert(call_views(tool_calls@) =~= all);
            Ok(ModelTurn { content, tool_calls, usage: None })
        },
    }
}

proof fn wire_call_members(c: ToolCallView)
    ensures
        member(wire_call(c), "id"@) == Some(JsonModel::Text(c.id)),
        nested(wire_call(c), "function"@, "name"@) == Some(JsonModel::Text(c.name)),
        nested(wire_call(c), "function"@, "arguments"@) == Some(JsonModel::Text(c.args_json)),
        member(wire_call(c), "type"@) == Some(JsonModel::Text("function"@)),
{
    reveal_strlit("id");
    reveal_strlit("type");
    reveal_strlit("function");
    reveal_strlit("name");
    reveal_strlit("arguments");
    reveal_with_fuel(member_from, 4);
    assert("id"@.len() == 2 && "type"@.len() == 4 && "function"@.len() == 8);
    assert("name"@.len() == 4 && "arguments"@.len() == 9);
}

/// A call that is written into a request and read from a response is the same call, at
/// whatever place it stands.
pub proof fn written_call_is_read_back(c: ToolCallView, i: nat)
    ensures
        response_call(wire_call(c), i) == c,
        member(wire_call(c), "id"@) == Some(JsonModel::Text(c.id)),
        member(wire_call(c), "type"@) == Some(JsonModel::Text("function"@)),
        nested(wire_call(c), "function"@, "name"@) == Some(JsonModel::Text(c.name)),
        nested(wire_call(c), "function"@, "arguments"@) == Some(JsonModel::Text(c.args_json)),
{
    wire_call_members(c);
    assert(response_call(wire_call(c), i) =~= c);
}

/// What is read of a call in a response: the id, the name and the arguments that it
/// gives, and where it gives none, an id of its place, no name and empty arguments.
pub proof fn response_call_is_what_the_model_said(c: JsonModel, i: nat)
    ensures
        member(c, "id"@) matches Some(JsonModel::Text(id)) ==> response_call(c, i).id == id,
        nested(c, "function"@, "name"@) matches Some(JsonModel::Text(n)) ==> response_call(
            c,
            i,
        ).name == n,
        nested(c, "function"@, "arguments"@) matches Some(JsonModel::Text(a)) ==> response_call(
            c,
            i,
        ).args_json == a,
        member(c, "id"@) is None ==> response_call(c, i).id == "call_"@ + decimal(i),
        member(c, "function"@) is None ==> response_call(c, i).name.len() == 0 && response_call(
            c,
            i,
        ).args_json == "{}"@,
{
}

/// A response whose first choice carries a text and the written form of some calls is
/// read as just that turn.
pub proof fn response_is_read_as_its_turn(
    text: Seq<char>,
    calls: Seq<ToolCallView>,
    others: Seq<JsonModel>,
)
    ensures
        ({
            let message = JsonModel::Object(
                seq![
                    ("content"@, JsonModel::Text(text)),
                    (
                        "tool_calls"@,
                        JsonModel::List(Seq::new(calls.len(), |i: int| wire_call(calls[i]))),
                    ),
                ],
            );
            let choice = JsonModel::Object(seq![("message"@, message)]);
            let response = JsonModel::Object(
                seq![("choices"@, JsonModel::List(seq![choice] + others))],
            );
            response_turn(response) == Some(
                ModelTurnView { content: text, tool_calls: calls, usage: None },
            )
        }),
{
    reveal_strlit("content");
    reveal_strlit("tool_calls");
    reveal_with_fuel(member_from, 3);
    assert("content"@.len() == 7 && "tool_calls"@.len() == 10);
    let list = Seq::new(calls.len(), |i: int| wire_call(calls[i]));
    let message = JsonModel::Object(
        seq![("content"@, JsonModel::Text(text)), ("tool_calls"@, JsonModel::List(list))],
    );
    assert(member(message, "tool_calls"@) == Some(JsonModel::List(list)));
    assert forall|i: int| 0 <= i < calls.len() implies response_calls(message)[i] == calls[i] by {
        written_call_is_read_back(calls[i], i as nat);
    }
    assert(response_calls(message) =~= calls);
    let choice = JsonModel::Object(seq![("message"@, message)]);
    assert((seq![choice] + others)[0] == choice);
}

/// The messages of a request are the system prompt and then the conversation, one for
/// one; a tool result names the call it answers, and an assistant turn carries its calls.
pub proof fn request_carries_the_conversation(
    model: Seq<char>,
    system: Seq<char>,
    messages: Seq<ChatMessageView>,
    tools: Seq<ToolDef>,
    i: int,
)
    requires
        0 <= i < messages.len(),
    ensures
        ({
            let request = wire_request(model, system, messages, tools);
            let sent = as_items(member(request, "messages"@));
            let m = messages[i];
            &&& member(request, "model"@) == Some(JsonModel::Text(model))
            &&& sent is Some
            &&& sent->0.len() == messages.len() + 1
            &&& member(sent->0[0], "role"@) == Some(JsonModel::Text("system"@))
            &&& member(sent->0[0], "content"@) == Some(JsonModel::Text(system))
            &&& member(sent->0[i + 1], "content"@) == Some(JsonModel::Text(m.content))
            &&& member(sent->0[i + 1], "role"@) == Some(
                JsonModel::Text(
                    if m.role == "tool"@ || m.tool_calls.len() == 0 {
                        m.role
                    } else {
                        "assistant"@
                    },
                ),
            )
            &&& m.role == "tool"@ ==> member(sent->0[i + 1], "tool_call_id"@) == Some(
                JsonModel::Text(m.tool_call_id),
            )
            &&& m.role != "tool"@ && m.tool_calls.len() > 0 ==> response_calls(sent->0[i + 1])
                == m.tool_calls
            &&& as_items(member(request, "tools"@)) is Some
            &&& as_items(member(request, "tools"@))->0.len() == tools.len()
        }),
{
    reveal_strlit("model");
    reveal_strlit("messages");
    reveal_strlit("tools");
    reveal_strlit("role");
    reveal_strlit("content");
    reveal_strlit("tool_call_id");
    reveal_strlit("tool_calls");
    reveal_with_fuel(member_from, 4);
    assert("model"@.len() == 5 && "messages"@.len() == 8 && "tools"@.len() == 5);
    assert("model"@[0] != "tools"@[0]);
    assert("role"@.len() == 4 && "content"@.len() == 7);
    assert("tool_call_id"@.len() == 12 && "tool_calls"@.len() == 10);
    let m = messages[i];
    let sent = wire_message(m);
    if m.role != "tool"@ && m.tool_calls.len() > 0 {
        let list = Seq::new(m.tool_calls.len(), |k: int| wire_call(m.tool_calls[k]));
        assert(member(sent, "tool_calls"@) == Some(JsonModel::List(list)));
        assert forall|k: int| 0 <= k < m.tool_calls.len() implies response_calls(sent)[k]
            == m.tool_calls[k] by {
            written_call_is_read_back(m.tool_calls[k], k as nat);
        }
        assert(response_calls(sent) =~= m.tool_calls);
    }
}

/// A tool stands in a request under its name and description, with its schema as it is
/// read, or none where it is no JSON.
pub proof fn request_offers_the_tools(
    model: Seq<char>,
    system: Seq<char>,
    messages: Seq<ChatMessageView>,
    tools: Seq<ToolDef>,
    i: int,
)
    requires
        0 <= i < tools.len(),
    ensures
        ({
            let offered = as_items(
                member(wire_request(model, system, messages, tools), "tools"@),
            )->0[i];
            &&& nested(offered, "function"@, "name"@) == Some(JsonModel::Text(tools[i].name@))
            &&& nested(offered, "function"@, "description"@) == Some(
                JsonModel::Text(tools[i].description@),
            )
            &&& json_reading(tools[i].schema@) is Ok ==> nested(
                offered,
                "function"@,
                "parameters"@,
            ) == Some(json_reading(tools[i].schema@)->Ok_0)
            &&& json_reading(tools[i].schema@) is Err ==> nested(
                offered,
                "function"@,
                "parameters"@,
            ) == Some(JsonModel::Object(Seq::empty()))
        }),
{
    reveal_strlit("model");
    reveal_strlit("messages");
    reveal_strlit("tools");
    reveal_strlit("type");
    reveal_strlit("function");
    reveal_strlit("name");
    reveal_strlit("description");
    reveal_strlit("parameters");
    reveal_with_fuel(member_from, 4);
    assert("model"@.len() == 5 && "messages"@.len() == 8 && "tools"@.len() == 5);
    assert("model"@[0] != "tools"@[0]);
    assert("type"@.len() == 4 && "function"@.len() == 8 && "name"@.len() == 4);
    assert("description"@.len() == 11 && "parameters"@.len() == 10);
}

/// The address of completions ends the base address, of which only trailing slashes are
/// cut: bases that differ in them have the same address, and the address starts with a
/// base that ends in no slash.
pub proof fn completions_address_extends_its_base(base: Seq<char>)
    ensures
        completions_address(base.push('/')) == completions_address(base),
        base.len() > 0 && base.last() != '/' ==> completions_address(base) == base
            + "/chat/completions"@,
{
    let longer = base.push('/');
    back_slash_of_prefix(longer, base, base.len() as int);
    assert(longer.subrange(0, back_slash(base, base.len() as int)) =~= base.subrange(
        0,
        back_slash(base, base.len() as int),
    )) by {
        back_slash_bounds(base, base.len() as int);
    }
    if base.len() > 0 && base.last() != '/' {
        assert(base.subrange(0, base.len() as int) =~= base);
    }
}

proof fn back_slash_bounds(s: Seq<char>, hi: int)
    requires
        0 <= hi <= s.len(),
    ensures
        0 <= back_slash(s, hi) <= hi,
    decreases hi,
{
    if hi > 0 && s[hi - 1] == '/' {
        back_slash_bounds(s, hi - 1);
    }
}

proof fn back_slash_of_prefix(s: Seq<char>, t: Seq<char>, hi: int)
    requires
        0 <= hi <= t.len() <= s.len(),
        forall|i: int| 0 <= i < t.len() ==> s[i] == t[i],
    ensures
        back_slash(s, hi) == back_slash(t, hi),
    decreases hi,
{
    if hi > 0 && s[hi - 1] == '/' {
        back_slash_of_prefix(s, t, hi - 1);
    }
}

/// A scripted call keeps what the script says and takes the id of its place and empty
/// arguments where it says nothing.
pub proof fn scripted_turn_keeps_the_script(t: ScriptedTurn, i: int)
    requires
        0 <= i < t.tool_calls@.len(),
    ensures
        scripted_turn(t).tool_calls.len() == t.tool_calls@.len(),
        scripted_turn(t).tool_calls[i].name == t.tool_calls@[i].name@,
        t.tool_calls@[i].id is Some ==> scripted_turn(t).tool_calls[i].id
            == t.tool_calls@[i].id->0@,
        t.tool_calls@[i].id is None ==> scripted_turn(t).tool_calls[i].id == "call_"@ + decimal(
            i as nat,
        ),
        t.tool_calls@[i].args_json is Some ==> scripted_turn(t).tool_calls[i].args_json
            == t.tool_calls@[i].args_json->0@,
        t.tool_calls@[i].args_json is None ==> scripted_turn(t).tool_calls[i].args_json == "{}"@,
        t.content is Some ==> scripted_turn(t).content == t.content->0@,
        t.content is None ==> scripted_turn(t).content.len() == 0,
{
}

} // verus!
