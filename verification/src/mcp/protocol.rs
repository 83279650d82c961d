//! The JSON-RPC side of the MCP client: requests, responses, discovered tools
//! and tool results.
use vstd::prelude::*;
use vstd::string::*;

use crate::events::push_number;
use crate::json::{put, put_text, read_json, write_json, Json};
#[allow(unused_imports)]
use crate::json::{
    as_items, as_text, as_unsigned, items, json_reading, json_writing, list_model, member,
    member_is_the_first_of_its_key, members, text_or, JsonModel,
};
use crate::text::join_texts;
#[allow(unused_imports)]
use crate::text::{decimal, join, texts};

verus! {

/// A tool that a server offers.
#[derive(Debug, Clone)]
pub struct ToolInfo {
    pub name: String,
    pub description: String,
    pub input_schema: String,
}

#[verifier::ext_equal]
pub struct ToolInfoView {
    pub name: Seq<char>,
    pub description: Seq<char>,
    pub input_schema: Seq<char>,
}

impl View for ToolInfo {
    type V = ToolInfoView;

    open spec fn view(&self) -> ToolInfoView {
        ToolInfoView {
            name: self.name@,
            description: self.description@,
            input_schema: self.input_schema@,
        }
    }
}

pub open spec fn tool_views(v: Seq<ToolInfo>) -> Seq<ToolInfoView> {
    Seq::new(v.len(), |i: int| v[i]@)
}

/// A request with an id.
pub open spec fn request_of(id: u64, method: Seq<char>, params: JsonModel) -> JsonModel {
    JsonModel::Object(
        seq![
            ("jsonrpc"@, JsonModel::Text("2.0"@)),
            ("id"@, JsonModel::Unsigned(id)),
            ("method"@, JsonModel::Text(method)),
            ("params"@, params),
        ],
    )
}

/// A notification.
pub open spec fn notification_of(method: Seq<char>, params: JsonModel) -> JsonModel {
    JsonModel::Object(
        seq![
            ("jsonrpc"@, JsonModel::Text("2.0"@)),
            ("method"@, JsonModel::Text(method)),
            ("params"@, params),
        ],
    )
}

/// What the client introduces itself with.
pub open spec fn introduction(version: Seq<char>) -> JsonModel {
    JsonModel::Object(
        seq![
            ("protocolVersion"@, JsonModel::Text("2024-11-05"@)),
            ("capabilities"@, JsonModel::Object(Seq::empty())),
            (
                "clientInfo"@,
                JsonModel::Object(
                    seq![
                        ("name"@, JsonModel::Text("shikigami"@)),
                        ("version"@, JsonModel::Text(version)),
                    ],
                ),
            ),
        ],
    )
}

/// The result of a response, or its error.
pub open spec fn result_of(response: JsonModel) -> Result<JsonModel, Seq<char>> {
    match member(response, "error"@) {
        Some(e) => Err("mcp error: "@ + json_writing(e)),
        None => match member(response, "result"@) {
            Some(r) => Ok(r),
            None => Ok(JsonModel::Null),
        },
    }
}

/// The tool that an entry of a listing describes; one without a name is none.
pub open spec fn tool_of(entry: JsonModel) -> Option<ToolInfoView> {
    match as_text(member(entry, "name"@)) {
        None => None,
        Some(name) => if name.len() == 0 {
            None
        } else {
            Some(
                ToolInfoView {
                    name,
                    description: text_or(member(entry, "description"@), ""@),
                    input_schema: json_writing(
                        match member(entry, "inputSchema"@) {
                            Some(schema) => schema,
                            None => JsonModel::Object(
                                seq![("type"@, JsonModel::Text("object"@))],
                            ),
                        },
                    ),
                },
            )
        },
    }
}

/// The tools of the first `n` entries.
pub open spec fn tools_before(v: Seq<JsonModel>, n: int) -> Seq<ToolInfoView>
    decreases n,
{
    if n <= 0 || n > v.len() {
        Seq::empty()
    } else {
        match tool_of(v[n - 1]) {
            Some(t) => tools_before(v, n - 1).push(t),
            None => tools_before(v, n - 1),
        }
    }
}

/// The tools of a listing.
pub open spec fn listed(result: JsonModel) -> Seq<ToolInfoView> {
    match as_items(member(result, "tools"@)) {
        Some(v) => tools_before(v, v.len() as int),
        None => Seq::empty(),
    }
}

/// The texts of the first `n` pieces of content.
pub open spec fn texts_before(v: Seq<JsonModel>, n: int) -> Seq<Seq<char>>
    decreases n,
{
    if n <= 0 || n > v.len() {
        Seq::empty()
    } else {
        match as_text(member(v[n - 1], "text"@)) {
            Some(t) => texts_before(v, n - 1).push(t),
            None => texts_before(v, n - 1),
        }
    }
}

/// What a tool said: its texts, a line each; without any, the whole result.
pub open spec fn said(result: JsonModel) -> Seq<char> {
    let spoken = match as_items(member(result, "content"@)) {
        Some(v) => texts_before(v, v.len() as int),
        None => Seq::empty(),
    };
    if spoken.len() == 0 {
        json_writing(result)
    } else {
        join(spoken, "\n"@)
    }
}

/// Whether a tool says that it failed.
pub open spec fn is_error(result: JsonModel) -> bool {
    member(result, "isError"@) == Some(JsonModel::Bool(true))
}

/// The arguments of a call; those that are no JSON are none.
pub open spec fn arguments_of(args: Seq<char>) -> JsonModel {
    match json_reading(args) {
        Ok(v) => v,
        Err(_) => JsonModel::Object(Seq::empty()),
    }
}

/// What a call asks for.
pub open spec fn call_of(name: Seq<char>, args: Seq<char>) -> JsonModel {
    JsonModel::Object(
        seq![("name"@, JsonModel::Text(name)), ("arguments"@, arguments_of(args))],
    )
}

/// A client of one server: it numbers its requests.
#[derive(Debug)]
pub struct Client {
    pub next_id: u64,
}

fn empty_object() -> (j: Json)
    ensures
        j.model() == JsonModel::Object(Seq::empty()),
{
    let v: Vec<(String, Json)> = Vec::new();
    assert(members(v@) =~= Seq::empty());
    Json::object(v)
}

impl Client {
    /// A client that has asked nothing yet.
    pub fn new() -> (c: Self)
        ensures
            c.next_id == 1,
    {
        Client { next_id: 1 }
    }

    /// A request under the next id.
    pub fn request(&mut self, method: &str, params: Json) -> (j: Json)
        requires
            old(self).next_id < u64::MAX,
        ensures
            j.model() == request_of(old(self).next_id, method@, params.model()),
            final(self).next_id == old(self).next_id + 1,
    {
        let id = self.next_id;
        self.next_id = id + 1;
        let mut o: Vec<(String, Json)> = Vec::new();
        put_text(&mut o, "jsonrpc", "2.0");
        put(&mut o, "id", Json::Unsigned(id));
        put_text(&mut o, "method", method);
        let ghost model = params.model();
        put(&mut o, "params", params);
        assert(members(o@) =~= request_of(id, method@, model)->Object_0);
        Json::object(o)
    }

    /// The request that introduces the client.
    pub fn initialize(&mut self, version: &str) -> (j: Json)
        requires
            old(self).next_id < u64::MAX,
        ensures
            j.model() == request_of(old(self).next_id, "initialize"@, introduction(version@)),
            final(self).next_id == old(self).next_id + 1,
    {
        let mut who: Vec<(String, Json)> = Vec::new();
        put_text(&mut who, "name", "shikigami");
        put_text(&mut who, "version", version);
        let mut o: Vec<(String, Json)> = Vec::new();
        put_text(&mut o, "protocolVersion", "2024-11-05");
        put(&mut o, "capabilities", empty_object());
        let who = Json::object(who);
        assert(who.model()->Object_0 =~= seq![
            ("name"@, JsonModel::Text("shikigami"@)),
            ("version"@, JsonModel::Text(version@)),
        ]);
        put(&mut o, "clientInfo", who);
        assert(members(o@) =~= introduction(version@)->Object_0);
        self.request("initialize", Json::object(o))
    }

    /// The request for the tools of the server.
    pub fn list_tools(&mut self) -> (j: Json)
        requires
            old(self).next_id < u64::MAX,
        ensures
            j.model() == request_of(
                old(self).next_id,
                "tools/list"@,
                JsonModel::Object(Seq::empty()),
            ),
            final(self).next_id == old(self).next_id + 1,
    {
        self.request("tools/list", empty_object())
    }

    /// The request that calls a tool.
    pub fn call_tool(&mut self, name: &str, args_json: &str) -> (j: Json)
        requires
            old(self).next_id < u64::MAX,
        ensures
            j.model() == request_of(old(self).next_id, "tools/call"@, call_of(name@, args_json@)),
            final(self).next_id == old(self).next_id + 1,
    {
        let arguments = match read_json(args_json) {
            Ok(v) => v,
            Err(_) => empty_object(),
        };
        let mut o: Vec<(String, Json)> = Vec::new();
        put_text(&mut o, "name", name);
        put(&mut o, "arguments", arguments);
        assert(members(o@) =~= call_of(name@, args_json@)->Object_0);
        self.request("tools/call", Json::object(o))
    }
}

/// A notification.
pub fn notification(method: &str, params: Json) -> (j: Json)
    ensures
        j.model() == notification_of(method@, params.model()),
{
    let ghost model = params.model();
    let mut o: Vec<(String, Json)> = Vec::new();
    put_text(&mut o, "jsonrpc", "2.0");
    put_text(&mut o, "method", method);
    put(&mut o, "params", params);
    assert(members(o@) =~= notification_of(method@, model)->Object_0);
    Json::object(o)
}

/// The notification that ends the introduction.
pub fn initialized() -> (j: Json)
    ensures
        j.model() == notification_of(
            "notifications/initialized"@,
            JsonModel::Object(Seq::empty()),
        ),
{
    notification("notifications/initialized", empty_object())
}

/// Whether a response answers the request with an id. Others are passed over.
pub fn answers(response: &Json, id: u64) -> (r: bool)
    ensures
        r == (as_unsigned(member(response.model(), "id"@)) == Some(id)),
{
    match response.get("id") {
        Some(v) => match v.as_u64() {
            Some(n) => n == id,
            None => false,
        },
        None => false,
    }
}

/// The result of a response, or its error.
pub fn response_result(response: &Json) -> (r: Result<Json, String>)
    ensures
        match result_of(response.model()) {
            Ok(m) => r matches Ok(j) && j.model() == m,
            Err(t) => r matches Err(s) && s@ == t,
        },
{
    match response.get("error") {
        Some(error) => {
            let text = write_json(error);
            let mut s = "mcp error: ".to_owned();
            s.append(text.as_str());
            Err(s)
        },
        None => match response.get("result") {
            Some(result) => Ok(result.duplicate()),
            None => Ok(Json::Null),
        },
    }
}

/// The tool that an entry of a listing describes.
fn listed_tool(entry: &Json) -> (r: Option<ToolInfo>)
    ensures
        match tool_of(entry.model()) {
            Some(t) => r matches Some(i) && i@ == t,
            None => r is None,
        },
{
    match entry.get("name") {
        None => None,
        Some(name) => match name.as_str() {
            None => None,
            Some(name) => {
                if name.is_empty() {
                    return None;
                }
                let input_schema = match entry.get("inputSchema") {
                    Some(schema) => write_json(schema),
                    None => {
                        let mut o: Vec<(String, Json)> = Vec::new();
                        put_text(&mut o, "type", "object");
                        assert(members(o@) =~= seq![("type"@, JsonModel::Text("object"@))]);
                        let schema = Json::object(o);
                        write_json(&schema)
                    },
                };
                Some(
                    ToolInfo {
                        name: name.to_owned(),
                        description: entry.text_at("description", ""),
                        input_schema,
                    },
                )
            },
        },
    }
}

/// The tools of a listing, in order. Entries without a name are passed over.
pub fn tools_of(result: &Json) -> (v: Vec<ToolInfo>)
    ensures
        tool_views(v@) == listed(result.model()),
{
    broadcast use list_model;

    let mut v: Vec<ToolInfo> = Vec::new();
    assert(tool_views(v@) =~= Seq::<ToolInfoView>::empty());
    match result.get("tools") {
        None => v,
        Some(tools) => match tools.as_list() {
            None => v,
            Some(entries) => {
                let ghost models = items(entries@);
                let mut i: usize = 0;
                while i < entries.len()
                    invariant
                        i <= entries@.len(),
                        models == items(entries@),
                        tool_views(v@) == tools_before(models, i as int),
                    decreases entries@.len() - i,
                {
                    assert(models[i as int] == entries@[i as int].model());
                    match listed_tool(&entries[i]) {
                        Some(t) => {
                            let ghost before = v@;
                            v.push(t);
                            assert(tool_views(v@) =~= tool_views(before).push(t@));
                        },
                        None => {},
                    }
                    i = i + 1;
                }
                v
            },
        },
    }
}

fn spoken_texts(result: &Json) -> (v: Vec<String>)
    ensures
        texts(v@) == (match as_items(member(result.model(), "content"@)) {
            Some(c) => texts_before(c, c.len() as int),
            None => Seq::empty(),
        }),
{
    broadcast use list_model;

    let mut v: Vec<String> = Vec::new();
    assert(texts(v@) =~= Seq::<Seq<char>>::empty());
    match result.get("content") {
        None => v,
        Some(content) => match content.as_list() {
            None => v,
            Some(pieces) => {
                let ghost models = items(pieces@);
                let mut i: usize = 0;
                while i < pieces.len()
                    invariant
                        i <= pieces@.len(),
                        models == items(pieces@),
                        texts(v@) == texts_before(models, i as int),
                    decreases pieces@.len() - i,
                {
                    assert(models[i as int] == pieces@[i as int].model());
                    if let Some(text) = pieces[i].get("text") {
                        if let Some(s) = text.as_str() {
                            let ghost before = v@;
                            v.push(s.to_owned());
                            assert(texts(v@) =~= texts(before).push(s@));
                        }
                    }
                    i = i + 1;
                }
                v
            },
        },
    }
}

/// What a tool said; a tool that says it failed gives an error.
pub fn call_result(result: &Json) -> (r: Result<String, String>)
    ensures
        if is_error(result.model()) {
            r matches Err(s) && s@ == said(result.model())
        } else {
            r matches Ok(s) && s@ == said(result.model())
        },
{
    let spoken = spoken_texts(result);
    assert(texts(spoken@).len() == spoken@.len());
    let text = if spoken.len() == 0 {
        write_json(result)
    } else {
        join_texts(&spoken, "\n")
    };
    let failed = match result.get("isError") {
        Some(v) => v.is_true(),
        None => false,
    };
    if failed {
        Err(text)
    } else {
        Ok(text)
    }
}

/// The error of a request that its server did not answer in time.
pub fn deadline_error(method: &str, timeout_secs: u64) -> (s: String)
    ensures
        s@ == "mcp deadline_exceeded: "@ + method@ + " after "@ + decimal(timeout_secs as nat) + "s"@,
{
    let mut s = "mcp deadline_exceeded: ".to_owned();
    s.append(method);
    s.append(" after ");
    push_number(&mut s, timeout_secs);
    s.append("s");
    s
}

/// A request carries its id, its method and its parameters.
pub proof fn request_carries_what_it_asks(id: u64, method: Seq<char>, params: JsonModel)
    ensures
        as_unsigned(member(request_of(id, method, params), "id"@)) == Some(id),
        as_text(member(request_of(id, method, params), "method"@)) == Some(method),
        member(request_of(id, method, params), "params"@) == Some(params),
        as_text(member(request_of(id, method, params), "jsonrpc"@)) == Some("2.0"@),
{
    reveal_strlit("jsonrpc");
    reveal_strlit("id");
    reveal_strlit("method");
    reveal_strlit("params");
    assert("jsonrpc"@.len() == 7
        && "id"@.len() == 2
        && "method"@.len() == 6
        && "params"@.len() == 6);
    assert("method"@[0] != "params"@[0]);
    let m = request_of(id, method, params)->Object_0;
    member_is_the_first_of_its_key(m, "jsonrpc"@, 0);
    member_is_the_first_of_its_key(m, "id"@, 1);
    member_is_the_first_of_its_key(m, "method"@, 2);
    member_is_the_first_of_its_key(m, "params"@, 3);
}

/// A notification carries its method and its parameters and has no id: nothing answers it.
pub proof fn notification_has_no_id(method: Seq<char>, params: JsonModel)
    ensures
        member(notification_of(method, params), "id"@) is None,
        as_text(member(notification_of(method, params), "method"@)) == Some(method),
        member(notification_of(method, params), "params"@) == Some(params),
{
    reveal_strlit("jsonrpc");
    reveal_strlit("id");
    reveal_strlit("method");
    reveal_strlit("params");
    assert("jsonrpc"@.len() == 7
        && "id"@.len() == 2
        && "method"@.len() == 6
        && "params"@.len() == 6);
    assert("method"@[0] != "params"@[0]);
    let m = notification_of(method, params)->Object_0;
    member_is_the_first_of_its_key(m, "id"@, 3);
    member_is_the_first_of_its_key(m, "method"@, 1);
    member_is_the_first_of_its_key(m, "params"@, 2);
}

/// A response with an error fails, whatever else it holds; one without gives its result, and
/// nothing where it has none.
pub proof fn response_fails_only_with_an_error(r: JsonModel)
    ensures
        result_of(r) is Err <==> member(r, "error"@) is Some,
        result_of(r) is Ok && member(r, "result"@) is Some ==> result_of(r)->Ok_0 == member(
            r,
            "result"@,
        )->0,
        result_of(r) is Ok && member(r, "result"@) is None ==> result_of(r)->Ok_0 is Null,
{
}

/// A call carries the name of the tool and its arguments as they were read; arguments that
/// are no JSON are none.
pub proof fn call_carries_its_arguments(name: Seq<char>, args: Seq<char>)
    ensures
        as_text(member(call_of(name, args), "name"@)) == Some(name),
        json_reading(args) is Ok ==> member(call_of(name, args), "arguments"@) == Some(
            json_reading(args)->Ok_0,
        ),
        json_reading(args) is Err ==> member(call_of(name, args), "arguments"@) == Some(
            JsonModel::Object(Seq::empty()),
        ),
{
    reveal_strlit("name");
    reveal_strlit("arguments");
    assert("name"@.len() == 4 && "arguments"@.len() == 9);
    let m = call_of(name, args)->Object_0;
    member_is_the_first_of_its_key(m, "name"@, 0);
    member_is_the_first_of_its_key(m, "arguments"@, 1);
}

/// A tool is listed just where its entry names it, with the description and the schema that
/// the entry gives.
pub proof fn named_tools_are_listed(entry: JsonModel)
    ensures
        tool_of(entry) is Some <==> as_text(member(entry, "name"@)) is Some && as_text(
            member(entry, "name"@),
        )->0.len() > 0,
        tool_of(entry) is Some ==> tool_of(entry)->0.name == as_text(member(entry, "name"@))->0,
        tool_of(entry) is Some && as_text(member(entry, "description"@)) is Some ==> tool_of(
            entry,
        )->0.description == as_text(member(entry, "description"@))->0,
        tool_of(entry) is Some && member(entry, "inputSchema"@) is Some ==> tool_of(
            entry,
        )->0.input_schema == json_writing(member(entry, "inputSchema"@)->0),
{
}

/// The tools of a list are those of its entries in their order, without the entries that name
/// none.
pub proof fn tools_are_listed_in_order(v: Seq<JsonModel>, entry: JsonModel)
    ensures
        tools_before(Seq::<JsonModel>::empty(), 0).len() == 0,
        tool_of(entry) is Some ==> tools_before(v.push(entry), (v.len() + 1) as int)
            == tools_before(v, v.len() as int).push(tool_of(entry)->0),
        tool_of(entry) is None ==> tools_before(v.push(entry), (v.len() + 1) as int)
            == tools_before(v, v.len() as int),
{
    tools_of_a_front(v, entry, v.len() as int);
}

proof fn tools_of_a_front(v: Seq<JsonModel>, entry: JsonModel, n: int)
    requires
        0 <= n <= v.len(),
    ensures
        tools_before(v.push(entry), n) == tools_before(v, n),
        texts_before(v.push(entry), n) == texts_before(v, n),
    decreases n,
{
    if n > 0 {
        tools_of_a_front(v, entry, n - 1);
    }
}

/// The texts of a result are those of its items in their order, without the items that hold
/// none.
pub proof fn texts_are_read_in_order(v: Seq<JsonModel>, entry: JsonModel)
    ensures
        texts_before(Seq::<JsonModel>::empty(), 0).len() == 0,
        as_text(member(entry, "text"@)) is Some ==> texts_before(
            v.push(entry),
            (v.len() + 1) as int,
        ) == texts_before(v, v.len() as int).push(as_text(member(entry, "text"@))->0),
        as_text(member(entry, "text"@)) is None ==> texts_before(
            v.push(entry),
            (v.len() + 1) as int,
        ) == texts_before(v, v.len() as int),
{
    tools_of_a_front(v, entry, v.len() as int);
}

} // verus!
