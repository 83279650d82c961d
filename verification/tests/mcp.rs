use shikigami::config::{McpFraming, McpServerSettings};
use shikigami::json::Json;
use shikigami::mcp::framing::{
    decode, encode, encode_line, read, Frame, MAX_FRAME_BYTES, MAX_HEADER_BYTES,
};
use shikigami::mcp::protocol::{
    answers, call_result, deadline_error, initialized, response_result, tools_of, Client,
};
use shikigami::mcp::{
    attach_error, attach_plan, full_tool_name, mock_call, mock_definition, stdout_error,
    AttachPlan, StdioWrites,
};
use shikigami::mcp_server::background_run::{wait_timed_out, JobPhase, WaitStep};
use shikigami::mcp_server::{
    build_request, frame_message, handle_message, initialize_result, parse_call, respond_done,
    summary_pretty, tools_list_result, Handled, HostCall, HostDone, McpRunSummary,
    McpServerState,
};
use shikigami::model::TokenUsage;
use shikigami::run::{ParkInfo, ParkKind, RunResult, RunTermination};

fn json(text: &str) -> Json {
    let bytes = text.as_bytes().to_vec();
    let end = bytes.len();
    decode(&bytes, 0, end).unwrap()
}

fn shown(value: &Json) -> String {
    let mut line = encode_line(value).unwrap();
    line.pop();
    String::from_utf8(line).unwrap()
}

/// Reads the first message of a stream and cuts it off.
fn read_first(stream: &mut Vec<u8>) -> Result<Json, String> {
    match read(stream, true) {
        Frame::More => Err("more".into()),
        Frame::Failed(m) => Err(m),
        Frame::Body { start, end, next } => {
            let message = decode(stream, start, end);
            stream.drain(..next);
            message
        }
    }
}

fn read_error(text: &str) -> String {
    let mut stream = text.as_bytes().to_vec();
    read_first(&mut stream).unwrap_err()
}

#[test]
fn round_trips_a_message() {
    let message = json(r#"{"jsonrpc":"2.0","id":1,"result":{}}"#);
    let mut framed = encode(&message);
    assert_eq!(shown(&read_first(&mut framed).unwrap()), shown(&message));
}

#[test]
fn reads_newline_delimited_and_content_length_frames_from_one_stream() {
    let first = json(r#"{"jsonrpc":"2.0","id":1,"result":{"framing":"newline"}}"#);
    let second = json(r#"{"jsonrpc":"2.0","id":2,"result":{"framing":"headers"}}"#);
    let third = json(r#"{"jsonrpc":"2.0","id":3,"result":{}}"#);
    let mut stream = encode_line(&first).unwrap();
    stream.extend_from_slice(b"\r\n");
    stream.extend(encode(&second));
    // Leading JSON whitespace must not be mistaken for header bytes.
    stream.extend_from_slice(b" \t ");
    stream.extend(encode_line(&third).unwrap());
    assert_eq!(shown(&read_first(&mut stream).unwrap()), shown(&first));
    assert_eq!(shown(&read_first(&mut stream).unwrap()), shown(&second));
    assert_eq!(shown(&read_first(&mut stream).unwrap()), shown(&third));
    assert_eq!(read_first(&mut stream).unwrap_err(), "eof");

    let padded = format!("{}{{\"id\":1}}\n", " ".repeat(MAX_HEADER_BYTES + 1));
    assert!(read_error(&padded).contains("padding"));
}

#[test]
fn newline_frames_stay_bounded_and_single_line() {
    let oversized = format!("{{\"pad\":\"{}\"}}\n", "x".repeat(MAX_FRAME_BYTES));
    assert!(read_error(&oversized).contains("exceeds"));

    let unterminated = r#"{"jsonrpc":"2.0","id":1}"#;
    assert!(read_error(unterminated).contains("unterminated"));

    let mut framed = encode_line(&json(r#"{"text":"line one\nline two"}"#)).unwrap();
    assert_eq!(framed.iter().filter(|byte| **byte == b'\n').count(), 1);
    assert!(!framed.starts_with(b"Content-Length"));
    assert_eq!(
        read_first(&mut framed).unwrap().get("text").unwrap().as_str(),
        Some("line one\nline two")
    );
}

#[test]
fn rejects_oversized_duplicate_and_invalid_lengths_before_body_read() {
    let oversized = format!("Content-Length: {}\r\n\r\n", MAX_FRAME_BYTES + 1);
    assert!(read_error(&oversized).contains("exceeds"));

    let duplicate = "Content-Length: 2\r\nContent-Length: 2\r\n\r\n{}";
    assert!(read_error(duplicate).contains("duplicate"));

    let invalid = "Content-Length: nope\r\n\r\n";
    assert!(read_error(invalid).contains("invalid"));
}

#[test]
fn rejects_oversized_headers_before_body_read() {
    let header = format!("X-Fill: {}\r\n\r\n", "x".repeat(MAX_HEADER_BYTES));
    assert!(read_error(&header).contains("headers exceed"));
}

#[test]
fn a_frame_is_awaited_until_it_is_whole() {
    let framed = encode(&json(r#"{"id":1}"#));
    for cut in 0..framed.len() {
        assert!(matches!(read(&framed[..cut].to_vec(), false), Frame::More), "{cut}");
    }
    assert!(matches!(read(&framed, false), Frame::Body { .. }));
}

#[test]
fn protocol_owns_initialize_discovery_and_call_projection() {
    let mut client = Client::new();
    let first = client.initialize("0.1.0");
    assert_eq!(first.get("method").unwrap().as_str(), Some("initialize"));
    assert_eq!(
        initialized().get("method").unwrap().as_str(),
        Some("notifications/initialized")
    );
    let second = client.list_tools();
    assert_eq!(second.get("id").unwrap().as_u64(), Some(2));
    let listed = json(
        r#"{"jsonrpc":"2.0","id":2,"result":{"tools":[{"name":"ping","description":"Ping","inputSchema":{"type":"object"}}]}}"#,
    );
    assert!(answers(&listed, 2));
    assert!(!answers(&listed, 1));
    let tools = tools_of(&response_result(&listed).unwrap());
    assert_eq!(tools.len(), 1);
    assert_eq!(tools[0].name, "ping");
    assert_eq!(tools[0].input_schema, r#"{"type":"object"}"#);
    let third = client.call_tool("ping", "{}");
    assert_eq!(third.get_nested("params", "name").unwrap().as_str(), Some("ping"));
    let called = json(
        r#"{"jsonrpc":"2.0","id":3,"result":{"content":[{"type":"text","text":"one"},{"type":"text","text":"two"}]}}"#,
    );
    assert_eq!(call_result(&response_result(&called).unwrap()).unwrap(), "one\ntwo");
}

#[test]
fn protocol_projects_json_rpc_errors() {
    let error = response_result(&json(
        r#"{"jsonrpc":"2.0","id":1,"error":{"code":-1,"message":"denied"}}"#,
    ))
    .unwrap_err();
    assert!(error.contains("denied"), "{error}");
}

#[test]
fn failed_tools_and_deadlines_are_failures() {
    let denied = json(
        r#"{"isError":true,"content":[{"type":"text","text":"permission_denied"}]}"#,
    );
    assert!(call_result(&denied).unwrap_err().contains("permission_denied"));
    assert!(deadline_error("tools/call", 1).contains("deadline_exceeded"));
}

fn server(transport: &str, command: &str, url: Option<&str>) -> McpServerSettings {
    McpServerSettings {
        name: "demo".into(),
        command: command.into(),
        args: vec![],
        transport: transport.into(),
        url: url.map(|u| u.to_string()),
        token_env: None,
        framing: McpFraming::ContentLength,
        timeout_secs: 30,
    }
}

#[test]
fn mock_mcp_registers_and_echoes() {
    assert!(matches!(attach_plan(&server("stdio", "mock", None)), AttachPlan::Mock));
    assert_eq!(mock_definition("demo").name, "mcp.demo.echo");
    assert_eq!(full_tool_name("demo", "echo"), "mcp.demo.echo");
    assert_eq!(mock_call(r#"{"text":"hi"}"#), "echo:hi");
}

#[test]
fn servers_are_attached_by_their_transport() {
    assert!(matches!(
        attach_plan(&server("http", "", Some("http://127.0.0.1:1/mcp"))),
        AttachPlan::Http(url) if url == "http://127.0.0.1:1/mcp"
    ));
    assert!(matches!(attach_plan(&server("http", "", None)), AttachPlan::Refused(_)));
    assert!(matches!(attach_plan(&server("stdio", "python3", None)), AttachPlan::Stdio));
    assert!(attach_error("demo", "gone").contains("demo"));
    assert_eq!(stdout_error("eof"), "mcp stdout closed");
    assert_eq!(stdout_error("frame exceeds"), "frame exceeds");
}

#[test]
fn an_interrupted_write_closes_the_stream() {
    let mut writes = StdioWrites::new();
    writes.begin().unwrap();
    writes.end();
    writes.begin().unwrap();
    writes.end();
    writes.begin().unwrap();
    assert!(writes.begin().is_err());
    assert!(writes.begin().is_err());
}

#[test]
fn mcp_resume_id_rejects_path_components() {
    let err = build_request(&json(r#"{"resume_run_id":"../other"}"#)).unwrap_err();
    assert!(err.contains("opaque ASCII run id"), "{err}");
    build_request(&json(r#"{"resume_run_id":"abc-123"}"#)).unwrap();
}

#[test]
fn initialize_and_list_tools() {
    let list = match handle_message(
        &json(r#"{"jsonrpc":"2.0","id":2,"method":"tools/list","params":{}}"#),
        "shikigami",
        "0.1.0",
    ) {
        Handled::Reply(reply) => reply,
        _ => panic!("a list is answered"),
    };
    let tools = list.get_nested("result", "tools").unwrap().as_list().unwrap();
    let names: Vec<&str> =
        tools.iter().filter_map(|t| t.get("name").and_then(|n| n.as_str())).collect();
    assert!(names.contains(&"doctor"));
    assert!(names.contains(&"run"));
    assert!(names.contains(&"run_start"));
    assert!(names.contains(&"run_status"));
    assert!(names.contains(&"run_wait"));
    assert_eq!(shown(&tools_list_result()), shown(list.get("result").unwrap()));
    let first = initialize_result("shikigami", "0.1.0");
    assert_eq!(first.get_nested("serverInfo", "name").unwrap().as_str(), Some("shikigami"));
}

#[test]
fn run_requires_task_without_resume() {
    let reply = match handle_message(
        &json(
            r#"{"jsonrpc":"2.0","id":1,"method":"tools/call","params":{"name":"run","arguments":{}}}"#,
        ),
        "shikigami",
        "0.1.0",
    ) {
        Handled::Reply(reply) => reply,
        _ => panic!("a bad call is answered"),
    };
    assert!(reply.get_nested("result", "isError").unwrap().is_true());
}

#[test]
fn notification_has_no_response() {
    assert!(matches!(
        handle_message(
            &json(r#"{"jsonrpc":"2.0","method":"notifications/initialized","params":{}}"#),
            "shikigami",
            "0.1.0",
        ),
        Handled::Silent
    ));
}

#[test]
fn unknown_methods_and_tools_are_errors() {
    match handle_message(
        &json(r#"{"jsonrpc":"2.0","id":4,"method":"nope"}"#),
        "shikigami",
        "0.1.0",
    ) {
        Handled::Reply(reply) => {
            assert!(shown(&reply).contains("-32601"));
        }
        _ => panic!("an unknown method is answered"),
    }
    assert!(parse_call(&json(r#"{"name":"nope","arguments":{}}"#)).is_err());
    assert!(matches!(
        parse_call(&json(r#"{"name":"run_wait","arguments":{"timeout_secs":3}}"#)).unwrap(),
        HostCall::RunWait(Some(3))
    ));
    match parse_call(&json(r#"{"name":"run","arguments":{"task":"go","keep_workspace":true}}"#)) {
        Ok(HostCall::Run(request)) => {
            assert_eq!(request.task, "go");
            assert!(request.keep_workspace);
        }
        _ => panic!("a run is parsed"),
    }
}

fn result() -> RunResult {
    RunResult {
        run_id: "run-1".into(),
        success: true,
        summary: "done".into(),
        turns: 2,
        workspace: "/ws".into(),
        artifact_dir: None,
        termination: RunTermination::Completed,
        park: None,
        prompt_id: "p".into(),
        usage: TokenUsage { input_tokens: 1, output_tokens: 2 },
        cost: None,
        todos: vec![],
    }
}

fn concat_lines(lines: &[&str]) -> String {
    lines.join("\n")
}

#[test]
fn a_finished_run_is_told_to_the_client() {
    let summary = McpRunSummary::from_result(&result());
    let reply = respond_done(Json::Unsigned(9), &HostDone::Run(summary));
    assert_eq!(reply.get("id").unwrap().as_u64(), Some(9));
    assert!(shown(&reply).contains("run-1"));
    let expected = concat_lines(&[
        "{",
        r#"  "run_id": "run-1","#,
        r#"  "success": true,"#,
        r#"  "summary": "done","#,
        r#"  "turns": 2,"#,
        r#"  "workspace": "/ws","#,
        r#"  "termination": "completed","#,
        r#"  "prompt_id": "p","#,
        r#"  "usage": {"#,
        r#"    "input_tokens": 1,"#,
        r#"    "output_tokens": 2"#,
        "  }",
        "}",
    ]);
    assert_eq!(summary_pretty(&McpRunSummary::from_result(&result())), expected);
    let mut parked = McpRunSummary::from_result(&result());
    parked.park = Some(ParkInfo {
        reason: "r".into(),
        question: "a \"b\"".into(),
        tool_call_id: "c".into(),
        kind: ParkKind::Approval,
        approval_id: None,
    });
    let member = concat_lines(&[
        r#"  "termination": "completed","#,
        r#"  "park": {"#,
        r#"    "reason": "r","#,
        r#"    "question": "a \"b\"","#,
        r#"    "tool_call_id": "c""#,
        "  },",
        r#"  "prompt_id": "p","#,
    ]);
    assert!(summary_pretty(&parked).contains(&member));
    let failed = respond_done(Json::Unsigned(9), &HostDone::Failed("broken".into()));
    assert!(failed.get_nested("result", "isError").unwrap().is_true());
}

#[test]
fn background_runs_follow_one_another() {
    let mut state = McpServerState::new();
    assert_eq!(state.background.phase, JobPhase::Idle);
    assert!(matches!(state.background.wait(), WaitStep::Refused(_)));
    state.background.start().unwrap();
    assert!(state.background.start().is_err());
    assert!(matches!(state.background.wait(), WaitStep::Pending));
    let events: Vec<String> = (0..40).map(|i| format!("event-{i}")).collect();
    state.background.finish(events, Ok(McpRunSummary::from_result(&result())));
    let status = json(&state.background.status_json());
    assert_eq!(status.get("phase").unwrap().as_str(), Some("finished"));
    assert!(status.get_nested("result", "success").unwrap().is_true());
    assert!(matches!(state.background.wait(), WaitStep::Finished(_)));
    state.background.start().unwrap();
    assert!(wait_timed_out(5).contains("5"));
}

#[test]
fn server_messages_are_framed_with_their_length() {
    let mut framed = frame_message(&json(r#"{"id":1}"#));
    assert!(framed.starts_with(b"Content-Length: 8\r\n\r\n"));
    assert_eq!(shown(&read_first(&mut framed).unwrap()), r#"{"id":1}"#);
}

#[test]
fn a_frame_is_found_in_whatever_pieces_it_comes() {
    for stream in [
        &b" \r\nContent-Length: 2\r\nX: y\r\n\r\n{}rest"[..],
        &b"\n{\"id\":1}\r\nrest"[..],
    ] {
        let Frame::Body { start, end, next } = read(&stream.to_vec(), false) else {
            panic!("the stream holds a frame");
        };
        for length in 0..next {
            assert!(matches!(read(&stream[..length].to_vec(), false), Frame::More));
        }
        for length in next..=stream.len() {
            for eof in [false, true] {
                match read(&stream[..length].to_vec(), eof) {
                    Frame::Body { start: a, end: b, next: c } => {
                        assert_eq!((a, b, c), (start, end, next));
                    }
                    other => panic!("{other:?}"),
                }
            }
        }
    }
}

#[test]
fn a_mixed_and_padded_stream_is_read_back_in_order() {
    let messages: Vec<Json> =
        (0..6).map(|id| json(&format!(r#"{{"id":{id},"text":"a\nb"}}"#))).collect();
    let pads: [&[u8]; 4] = [b"", b"\n", b" \t\r\n", &[b' '; MAX_HEADER_BYTES]];
    let mut stream = Vec::new();
    for (index, message) in messages.iter().enumerate() {
        stream.extend_from_slice(pads[index % 4]);
        if index % 3 == 0 {
            stream.extend(encode(message));
        } else {
            stream.extend(encode_line(message).unwrap());
        }
    }
    stream.extend_from_slice(pads[3]);
    for message in &messages {
        assert_eq!(shown(&read_first(&mut stream).unwrap()), shown(message));
    }
    assert_eq!(read_first(&mut stream).unwrap_err(), "eof");
}
