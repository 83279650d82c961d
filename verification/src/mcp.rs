//! Minimal MCP client: JSON-RPC 2.0 frames, tool discovery and tool calls.
use vstd::prelude::*;
use vstd::string::*;

#[allow(unused_imports)]
use crate::canonical::{label_cancels, pieces_regroup};
use crate::config::McpServerSettings;
use crate::json::read_json;
#[allow(unused_imports)]
use crate::json::{json_reading, member, text_or, JsonModel};
use crate::model::ToolDef;
use crate::text::same;
#[allow(unused_imports)]
use crate::text::found_is_first;

pub mod framing;
pub mod protocol;

verus! {

/// How a configured server is attached.
#[derive(Debug)]
pub enum AttachPlan {
    /// A fixed tool that needs no server.
    Mock,
    /// A server at this address.
    Http(String),
    /// A process that speaks over its standard streams.
    Stdio,
    /// Nothing to attach.
    Skip,
    /// The configuration is refused, and why.
    Refused(String),
}

/// Whether a server is reached over HTTP: it says so, or it has an address and
/// does not name another transport.
pub open spec fn over_http(server: McpServerSettings) -> bool {
    server.transport@ == "http"@ || (server.url is Some && (server.transport@ == "stdio"@
        || server.transport@.len() == 0))
}

/// How a configured server is attached.
pub fn attach_plan(server: &McpServerSettings) -> (p: AttachPlan)
    ensures
        if server.command@ == "mock"@ {
            p is Mock
        } else if over_http(*server) {
            match server.url {
                Some(url) => p matches AttachPlan::Http(u) && u@ == url@,
                None => p matches AttachPlan::Refused(m) && m@ == "mcp server `"@ + server.name@
                    + "`: http requires url"@,
            }
        } else if server.command@.len() == 0 {
            p is Skip
        } else {
            p is Stdio
        },
{
    if same(server.command.as_str(), "mock") {
        return AttachPlan::Mock;
    }
    let transport = server.transport.as_str();
    let http = same(transport, "http") || (server.url.is_some() && (same(transport, "stdio")
        || transport.is_empty()));
    if http {
        return match &server.url {
            Some(url) => AttachPlan::Http(url.clone()),
            None => {
                let mut s = "mcp server `".to_owned();
                s.append(server.name.as_str());
                s.append("`: http requires url");
                AttachPlan::Refused(s)
            },
        };
    }
    if server.command.as_str().is_empty() {
        return AttachPlan::Skip;
    }
    AttachPlan::Stdio
}

/// The error of a server that could not be attached.
pub fn attach_error(server: &str, error: &str) -> (s: String)
    ensures
        s@ == "mcp server `"@ + server@ + "`: "@ + error@,
{
    let mut s = "mcp server `".to_owned();
    s.append(server);
    s.append("`: ");
    s.append(error);
    s
}

/// The name of a server's tool in the harness.
pub open spec fn tool_name(server: Seq<char>, tool: Seq<char>) -> Seq<char> {
    "mcp."@ + server + "."@ + tool
}

/// The name of a server's tool in the harness.
pub fn full_tool_name(server: &str, tool: &str) -> (s: String)
    ensures
        s@ == tool_name(server@, tool@),
{
    let mut s = "mcp.".to_owned();
    s.append(server);
    s.append(".");
    s.append(tool);
    s
}

/// The tool that stands for a mocked server.
pub fn mock_definition(server: &str) -> (d: ToolDef)
    ensures
        d.name@ == tool_name(server@, "echo"@),
        d.description@ == "Mock MCP echo tool from server "@ + server@,
        d.schema@
            == "{\"type\":\"object\",\"properties\":{\"text\":{\"type\":\"string\"}},\"required\":[\"text\"]}"@,
{
    let mut description = "Mock MCP echo tool from server ".to_owned();
    description.append(server);
    ToolDef {
        name: full_tool_name(server, "echo"),
        description,
        schema: "{\"type\":\"object\",\"properties\":{\"text\":{\"type\":\"string\"}},\"required\":[\"text\"]}".to_owned(),
    }
}

/// What the mocked tool answers to some arguments.
pub open spec fn echo_of(arguments: Result<JsonModel, Seq<char>>) -> Seq<char> {
    "echo:"@ + match arguments {
        Ok(v) => text_or(member(v, "text"@), ""@),
        Err(_) => ""@,
    }
}

/// What the mocked tool answers: the text of its arguments. Arguments that are
/// no JSON have none.
pub fn mock_call(args_json: &str) -> (s: String)
    ensures
        s@ == echo_of(json_reading(args_json@)),
{
    let text = match read_json(args_json) {
        Ok(v) => v.text_at("text", ""),
        Err(_) => "".to_owned(),
    };
    let mut s = "echo:".to_owned();
    s.append(text.as_str());
    s
}

/// The stdin side of a server process.
#[derive(Debug)]
pub struct StdioWrites {
    /// Set for the duration of every write. A write that was given up half way
    /// leaves it set.
    pub write_in_flight: bool,
}

impl StdioWrites {
    /// Whether the next write is accepted: no earlier one was left half way.
    pub open spec fn accepts(self) -> bool {
        !self.write_in_flight
    }

    /// The stream once a write was begun.
    pub open spec fn begun(self) -> StdioWrites {
        StdioWrites { write_in_flight: true }
    }

    /// The stream once a write was carried through.
    pub open spec fn ended(self) -> StdioWrites {
        StdioWrites { write_in_flight: false }
    }

    /// A stream that nothing was written to.
    pub fn new() -> (s: Self)
        ensures
            s.accepts(),
    {
        StdioWrites { write_in_flight: false }
    }

    /// Starts a write. Where an earlier one never ended, the stream is out of
    /// step: nothing is written any more, and the server has to be killed.
    pub fn begin(&mut self) -> (r: Result<(), String>)
        ensures
            *final(self) == old(self).begun(),
            if !old(self).accepts() {
                r matches Err(m) && m@
                    == "mcp stdin desynchronized: a previous request was interrupted mid-frame by its deadline; server killed, no further calls are accepted on this attachment"@
            } else {
                r is Ok
            },
    {
        if self.write_in_flight {
            return Err(
                "mcp stdin desynchronized: a previous request was interrupted mid-frame by its deadline; server killed, no further calls are accepted on this attachment".to_owned(),
            );
        }
        self.write_in_flight = true;
        Ok(())
    }

    /// Ends a write that was carried through, whether it succeeded or not.
    pub fn end(&mut self)
        ensures
            *final(self) == old(self).ended(),
    {
        self.write_in_flight = false;
    }
}

/// One thing that happens to the stdin side of a server process.
pub enum WriteStep {
    /// A write is begun and, where it is accepted, carried through.
    Whole,
    /// A write is begun and, where it is accepted, given up half way.
    Broken,
}

/// The stream after a step: a write that is accepted and carried through is ended, any
/// other is only begun.
pub open spec fn after_write(s: StdioWrites, step: WriteStep) -> StdioWrites {
    if s.accepts() && step is Whole {
        s.begun().ended()
    } else {
        s.begun()
    }
}

/// The stream after some steps.
pub open spec fn after_writes(s: StdioWrites, steps: Seq<WriteStep>) -> StdioWrites
    decreases steps.len(),
{
    if steps.len() == 0 {
        s
    } else {
        after_write(after_writes(s, steps.drop_last()), steps.last())
    }
}

/// Once a write was given up half way, no later write is accepted.
pub proof fn broken_stream_stays_closed(s: StdioWrites, steps: Seq<WriteStep>, i: int)
    requires
        0 <= i < steps.len(),
        steps[i] is Broken,
    ensures
        !after_writes(s, steps).accepts(),
    decreases steps.len(),
{
    if i < steps.len() - 1 {
        assert(steps.drop_last()[i] == steps[i]);
        broken_stream_stays_closed(s, steps.drop_last(), i);
    }
}

/// As long as every write is carried through, the next one is accepted.
pub proof fn whole_writes_keep_a_stream_open(s: StdioWrites, steps: Seq<WriteStep>)
    requires
        s.accepts(),
        forall|i: int| 0 <= i < steps.len() ==> (#[trigger] steps[i]) is Whole,
    ensures
        after_writes(s, steps).accepts(),
    decreases steps.len(),
{
    if steps.len() > 0 {
        let before = steps.drop_last();
        assert forall|i: int| 0 <= i < before.len() implies (#[trigger] before[i]) is Whole by {
            assert(before[i] == steps[i]);
        }
        whole_writes_keep_a_stream_open(s, before);
        assert(steps[steps.len() - 1] is Whole);
    }
}

/// What is left of a frame that was read from a server, or why there is none.
pub fn stdout_error(error: &str) -> (s: String)
    ensures
        s@ == if error@ == "eof"@ {
            "mcp stdout closed"@
        } else {
            error@
        },
{
    if same(error, "eof") {
        "mcp stdout closed".to_owned()
    } else {
        error.to_owned()
    }
}

/// Tools of different servers, or of different names, have different full names, as long as
/// no server has a dot in its name.
pub proof fn full_tool_names_differ(a: Seq<char>, x: Seq<char>, b: Seq<char>, y: Seq<char>)
    requires
        tool_name(a, x) == tool_name(b, y),
        !a.contains('.'),
        !b.contains('.'),
    ensures
        a == b,
        x == y,
{
    reveal_strlit(".");
    assert("."@ =~= seq!['.']);
    pieces_regroup("mcp."@ + a, "."@, x);
    pieces_regroup("mcp."@ + b, "."@, y);
    pieces_regroup("mcp."@, a, "."@ + x);
    pieces_regroup("mcp."@, b, "."@ + y);
    let s = a + ("."@ + x);
    let t = b + ("."@ + y);
    label_cancels("mcp."@, s, t);
    assert forall|j: int| 0 <= j < a.len() implies #[trigger] s[j] != '.' by {
        assert(s[j] == a[j]);
        assert(a.contains(a[j]));
    }
    assert forall|j: int| 0 <= j < b.len() implies #[trigger] t[j] != '.' by {
        assert(t[j] == b[j]);
        assert(b.contains(b[j]));
    }
    assert(s[a.len() as int] == '.');
    assert(t[b.len() as int] == '.');
    found_is_first(s, '.', 0, a.len() as int);
    found_is_first(t, '.', 0, b.len() as int);
    assert(a =~= s.take(a.len() as int));
    assert(b =~= t.take(a.len() as int));
    label_cancels(a, "."@ + x, "."@ + y);
    label_cancels("."@, x, y);
}

/// A server is reached over HTTP where that is its transport, and where it has an address and
/// no other transport.
pub proof fn address_asks_for_http(server: McpServerSettings)
    ensures
        server.transport@ == "http"@ ==> over_http(server),
        server.url is Some && server.transport@.len() == 0 ==> over_http(server),
        server.url is Some && server.transport@ == "stdio"@ ==> over_http(server),
        server.url is None && server.transport@ != "http"@ ==> !over_http(server),
        server.transport@ != "http"@ && server.transport@ != "stdio"@ && server.transport@.len()
            > 0 ==> !over_http(server),
{
}

/// The fixed tool echoes the text of its arguments, and nothing where they have none.
pub proof fn mock_echoes_its_text(v: JsonModel, t: Seq<char>, why: Seq<char>)
    ensures
        member(v, "text"@) == Some(JsonModel::Text(t)) ==> echo_of(Ok(v)) == "echo:"@ + t,
        echo_of(Err(why)) == "echo:"@,
{
    reveal_strlit("");
    assert("echo:"@ + ""@ =~= "echo:"@);
}

} // verus!
