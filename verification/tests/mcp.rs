use kiln_gateway::chat::CallText;
use kiln_gateway::mcp::flatten_content;
use kiln_gateway::mcp::initialize_params;
use kiln_gateway::mcp::negotiated_version;
use kiln_gateway::mcp::read_tools_page;
use kiln_gateway::mcp::settle_call;
use kiln_gateway::mcp::status_json;
use kiln_gateway::mcp::tools_in_scope;
use kiln_gateway::mcp::tools_params;
use kiln_gateway::mcp::CallOutcome;
use kiln_gateway::mcp::CallStep;
use kiln_gateway::mcp::McpAction;
use kiln_gateway::mcp::McpEntry;
use kiln_gateway::mcp::McpError;
use kiln_gateway::mcp::McpEvent;
use kiln_gateway::mcp::McpRegistry;
use kiln_gateway::mcp::McpRounds;
use kiln_gateway::mcp::McpServer;
use kiln_gateway::mcp::McpServerConfig;
use kiln_gateway::mcp::McpState;
use kiln_gateway::mcp::McpSupervision;
use kiln_gateway::mcp::McpTool;
use kiln_gateway::mcp::McpToolSet;
use kiln_gateway::mcp::McpTransportKind;
use kiln_gateway::mcp::ToolCallResult;
use kiln_gateway::mcp::MAX_ROUNDS;
use kiln_gateway::mcp::PROTOCOL_VERSION;
use kiln_gateway::mcp_wire::http_body_kind;
use kiln_gateway::mcp_wire::http_headers;
use kiln_gateway::mcp_wire::http_message_outcome;
use kiln_gateway::mcp_wire::SseReader;
use kiln_gateway::mcp_wire::StdioAct;
use kiln_gateway::mcp_wire::StdioCmd;
use kiln_gateway::mcp_wire::StdioSession;
use kiln_gateway::worker::FinishReason;
use kiln_gateway::worker::Finished;
use kiln_gateway::worker::WorkerErrorCode;
use serde_json::Value;

fn json(text: &str) -> Value {
    serde_json::from_str(text).expect("json")
}

fn tool(name: &str) -> McpTool {
    McpTool {
        name: name.to_string(),
        description: Some(format!("{name} tool")),
        input_schema: json(r#"{"type": "object", "properties": {}}"#),
    }
}

fn config(name: &str) -> McpServerConfig {
    McpServerConfig {
        name: name.to_string(),
        transport: McpTransportKind::Stdio,
        command: vec!["srv".to_string()],
        env: vec![],
        url: None,
        tool_timeout_secs: 30,
    }
}

fn connected(name: &str, tools: &[&str]) -> McpServer {
    McpServer {
        config: config(name),
        state: McpState::Connected {
            tools: tools.iter().map(|t| tool(t)).collect(),
            protocol_version: PROTOCOL_VERSION.to_string(),
        },
        live: true,
    }
}

fn set_of(names: &[&str]) -> McpToolSet {
    McpToolSet {
        entries: names
            .iter()
            .map(|n| McpEntry {
                tool: tool(n),
                server: 0,
            })
            .collect(),
    }
}

/// Sends a request and has it written; returns the line.
fn send(session: &mut StdioSession, id: u64, method: &str, params: Value) -> Value {
    let command = StdioCmd::Request {
        id,
        method: method.to_string(),
        params,
    };
    match session.on_command(Some(command)) {
        StdioAct::WriteRequest { id: written, line } => {
            assert_eq!(written, id);
            assert!(session.on_request_written(id, Ok(())).is_none());
            json(&line)
        }
        other => panic!("{other:?}"),
    }
}

fn delivered(act: StdioAct, id: u64) -> Result<Value, McpError> {
    match act {
        StdioAct::Deliver { id: to, outcome } => {
            assert_eq!(to, id);
            outcome
        }
        other => panic!("{other:?}"),
    }
}

#[test]
fn stdio_handshake_and_tool_call_round_trip() {
    let mut session = StdioSession::new();
    let init = send(&mut session, 1, "initialize", initialize_params("0"));
    assert_eq!(init["method"], "initialize");
    assert_eq!(init["jsonrpc"], "2.0");
    let reply = format!(
        r#"{{"jsonrpc":"2.0","id":1,"result":{{"protocolVersion":"{PROTOCOL_VERSION}","capabilities":{{"tools":{{}}}}}}}}"#
    );
    let init = delivered(session.on_line(Some(&reply)), 1).expect("initialize");
    assert_eq!(init["protocolVersion"], PROTOCOL_VERSION);
    assert_eq!(negotiated_version(&init), PROTOCOL_VERSION);
    let notify = StdioCmd::Notify {
        method: "notifications/initialized".to_string(),
        params: json("{}"),
    };
    match session.on_command(Some(notify)) {
        StdioAct::WriteNotify { line } => {
            assert_eq!(json(&line)["method"], "notifications/initialized")
        }
        other => panic!("{other:?}"),
    }
    let list = send(&mut session, 2, "tools/list", tools_params(&None));
    assert_eq!(list["method"], "tools/list");
    let reply = r#"{"jsonrpc":"2.0","id":2,"result":{"tools":[{"name":"get_weather",
        "description":"Weather.","inputSchema":{"type":"object"}}]}}"#
        .replace('\n', " ");
    let page = delivered(session.on_line(Some(&reply)), 2).expect("tools/list");
    let mut tools = Vec::new();
    assert_eq!(read_tools_page(&page, &mut tools), None);
    assert_eq!(tools.len(), 1);
    assert_eq!(tools[0].name, "get_weather");

    let call = send(
        &mut session,
        3,
        "tools/call",
        json(r#"{"name": "get_weather", "arguments": {"city": "Paris"}}"#),
    );
    assert_eq!(call["params"]["name"], "get_weather");
    assert_eq!(call["params"]["arguments"]["city"], "Paris");
    let reply = r#"{"jsonrpc":"2.0","id":3,"result":{"content":[{"type":"text","text":"21C"}]}}"#;
    let result = delivered(session.on_line(Some(reply)), 3).expect("call");
    assert_eq!(flatten_content(&result), "21C");
}

#[test]
fn unanswered_call_times_out_and_late_reply_is_discarded() {
    let mut session = StdioSession::new();
    send(&mut session, 5, "tools/call", json(r#"{"name": "hang"}"#));
    // The caller gave up: the server is told.
    match session.on_command(Some(StdioCmd::CancelPending { id: 5 })) {
        StdioAct::Write { line } => {
            let cancelled = json(&line);
            assert_eq!(cancelled["method"], "notifications/cancelled");
            assert_eq!(cancelled["params"]["requestId"], 5);
        }
        other => panic!("{other:?}"),
    }
    // A late reply must not confuse a subsequent request.
    let late = r#"{"jsonrpc":"2.0","id":5,"result":{"late":true}}"#;
    assert!(matches!(session.on_line(Some(late)), StdioAct::Nothing));
    let request = send(&mut session, 6, "ping2", json("{}"));
    assert_eq!(request["method"], "ping2");
    let fresh = r#"{"jsonrpc":"2.0","id":6,"result":{"fresh":true}}"#;
    let outcome = delivered(session.on_line(Some(fresh)), 6);
    assert_eq!(outcome.expect("fresh reply")["fresh"], true);
}

#[test]
fn server_eof_fails_pending_and_flips_broken() {
    let mut session = StdioSession::new();
    send(&mut session, 1, "tools/call", json(r#"{"name": "x"}"#));
    send(&mut session, 2, "tools/call", json(r#"{"name": "y"}"#));
    assert!(matches!(session.on_line(None), StdioAct::Stop));
    let mut failed = session.close();
    failed.sort();
    assert_eq!(failed, vec![1, 2]);
    assert!(session.close().is_empty());
    assert!(McpError::Closed.breaks_connection());
    assert!(!McpError::Timeout.breaks_connection());
}

#[test]
fn server_ping_is_answered_and_list_changed_notifies() {
    let mut session = StdioSession::new();
    let ping = r#"{"jsonrpc":"2.0","id":777,"method":"ping","params":{}}"#;
    match session.on_line(Some(ping)) {
        StdioAct::Write { line } => {
            let pong = json(&line);
            assert_eq!(pong["id"], 777);
            assert!(pong.get("result").is_some());
        }
        other => panic!("{other:?}"),
    }
    let changed = r#"{"jsonrpc":"2.0","method":"notifications/tools/list_changed","params":{}}"#;
    assert!(matches!(
        session.on_line(Some(changed)),
        StdioAct::ToolsChanged
    ));
    // Other requests are declined; noise is ignored.
    let other = r#"{"jsonrpc":"2.0","id":8,"method":"sampling/createMessage","params":{}}"#;
    match session.on_line(Some(other)) {
        StdioAct::Write { line } => assert_eq!(json(&line)["error"]["code"], -32601),
        other => panic!("{other:?}"),
    }
    assert!(matches!(
        session.on_line(Some("not json")),
        StdioAct::Nothing
    ));
}

#[test]
fn rpc_error_response_is_a_typed_error() {
    let mut session = StdioSession::new();
    send(&mut session, 4, "tools/call", json(r#"{"name": "boom"}"#));
    let reply = r#"{"jsonrpc":"2.0","id":4,"error":{"code":-32602,"message":"bad params"}}"#;
    match delivered(session.on_line(Some(reply)), 4) {
        Err(McpError::Rpc { code, message }) => {
            assert_eq!(code, -32602);
            assert_eq!(message, "bad params");
        }
        other => panic!("expected Rpc error, got {other:?}"),
    }
    let failed = session.on_request_written(9, Err("pipe".to_string()));
    assert_eq!(
        failed.expect("not written").message(),
        "MCP transport error: pipe"
    );
    assert!(matches!(session.on_command(None), StdioAct::Stop));
    assert!(matches!(
        session.on_command(Some(StdioCmd::Close)),
        StdioAct::Stop
    ));
}

#[test]
fn client_tools_shadow_mcp_tools_in_merge() {
    let mut set = set_of(&["get_weather", "read_file"]);
    let mut tools =
        vec![json(r#"{"type": "function", "function": {"name": "get_weather", "parameters": {}}}"#)];
    set.merge_into(&mut tools);
    // The client's get_weather stands; only read_file is added.
    assert_eq!(tools.len(), 2);
    assert_eq!(tools[1]["function"]["name"], "read_file");
    // The shadowed name left the dispatch set: its calls go to the client.
    assert!(!set.contains("get_weather"));
    assert!(set.contains("read_file"));
}

#[test]
fn openai_def_shape() {
    let def = tool("get_weather").openai_def();
    assert_eq!(def["type"], "function");
    assert_eq!(def["function"]["name"], "get_weather");
    assert_eq!(def["function"]["description"], "get_weather tool");
    assert_eq!(def["function"]["parameters"]["type"], "object");
}

#[test]
fn admin_status_json_shows_states_and_shadowing() {
    let registry = McpRegistry {
        servers: vec![
            connected("a", &["get_weather", "read_file"]),
            connected("b", &["get_weather"]), // shadowed by a's
            McpServer {
                config: config("c"),
                state: McpState::Retrying {
                    attempt: 3,
                    last_error: "spawn failed".to_string(),
                },
                live: false,
            },
        ],
    };
    let body = status_json(&registry);
    let servers = body["servers"].as_array().expect("servers array");
    assert_eq!(servers.len(), 3);
    assert_eq!(servers[0]["status"], "connected");
    assert_eq!(servers[0]["tools"][0]["name"], "get_weather");
    assert_eq!(servers[0]["tools"][0]["active"], true);
    assert_eq!(servers[0]["tools"][1]["active"], true);
    // b's duplicate is listed but inert.
    assert_eq!(servers[1]["tools"][0]["name"], "get_weather");
    assert_eq!(servers[1]["tools"][0]["active"], false);
    // c shows its retry state and the error an operator needs.
    assert_eq!(servers[2]["status"], "retrying");
    assert_eq!(servers[2]["attempt"], 3);
    assert_eq!(servers[2]["last_error"], "spawn failed");
    assert!(servers[2]["tools"].as_array().expect("array").is_empty());
}

#[test]
fn flatten_content_variants() {
    // Text items join with newlines.
    assert_eq!(
        flatten_content(&json(
            r#"{"content": [{"type": "text", "text": "a"}, {"type": "text", "text": "b"}]}"#
        )),
        "a\nb"
    );
    // Non-text items serialize.
    let flattened = flatten_content(&json(
        r#"{"content": [{"type": "image", "data": "xyz", "mimeType": "image/png"}]}"#,
    ));
    assert!(flattened.contains("image/png"), "{flattened}");
    // structuredContent backfills when content is absent.
    assert_eq!(
        flatten_content(&json(r#"{"structuredContent": {"n": 1}}"#)),
        r#"{"n":1}"#
    );
    assert_eq!(flatten_content(&json("{}")), "");
}

fn registry() -> McpRegistry {
    McpRegistry {
        servers: vec![
            connected("a", &["get_weather", "read_file"]),
            connected("b", &["get_weather", "clock"]),
        ],
    }
}

#[test]
fn the_first_server_owns_a_name() {
    let set = registry().snapshot();
    let names: Vec<&str> = set.entries.iter().map(|e| e.tool.name.as_str()).collect();
    assert_eq!(names, vec!["get_weather", "read_file", "clock"]);
    assert_eq!(set.entries[0].server, 0);
    assert_eq!(set.entries[2].server, 1);
    assert!(McpRegistry::disabled().snapshot().is_empty());
    assert!(McpToolSet::empty().is_empty());
    let fresh = McpRegistry::start(vec![config("a")]);
    assert_eq!(fresh.servers[0].state.label(), "connecting");
}

fn ask(registry: &McpRegistry, name: &str, arguments: &str, total: Option<u128>) -> CallStep {
    registry
        .snapshot()
        .plan_call(registry, name, arguments, 1_000, total)
}

#[test]
fn calls_are_planned_and_bounded() {
    let mut registry = registry();
    match ask(&registry, "clock", r#"{"tz": "UTC"}"#, None) {
        CallStep::Ask {
            server,
            params,
            deadline_ns,
        } => {
            assert_eq!(server, 1);
            assert_eq!(params["name"], "clock");
            assert_eq!(params["arguments"]["tz"], "UTC");
            assert_eq!(deadline_ns, 30_000_001_000);
        }
        other => panic!("{other:?}"),
    }
    match ask(&registry, "clock", "", Some(9_000)) {
        CallStep::Ask {
            params, deadline_ns, ..
        } => {
            assert_eq!(params["arguments"], json("{}"));
            assert_eq!(deadline_ns, 9_000);
        }
        other => panic!("{other:?}"),
    }
    let answer = |step: CallStep| match step {
        CallStep::Answer { text, outcome } => (text, outcome),
        other => panic!("{other:?}"),
    };
    let (text, outcome) = answer(ask(&registry, "ghost", "", None));
    assert_eq!(text, "tool 'ghost' is not available");
    assert_eq!(outcome, None);
    let (text, outcome) = answer(ask(&registry, "clock", "{", None));
    assert!(text.contains("not valid JSON"), "{text}");
    assert_eq!(outcome, Some(CallOutcome::ToolError));
    registry.servers[1].live = false;
    let (text, outcome) = answer(ask(&registry, "clock", "", None));
    assert_eq!(
        text,
        "tool 'clock' is currently unavailable (MCP server 'b' is not connected)"
    );
    assert_eq!(outcome, Some(CallOutcome::Unavailable));
}

#[test]
fn answers_become_texts_for_the_model() {
    let said = |r: (ToolCallResult, CallOutcome)| match r {
        (ToolCallResult::Text(t), o) => (t, o),
        other => panic!("{other:?}"),
    };
    let ok = json(r#"{"content": [{"type": "text", "text": "21C"}]}"#);
    assert_eq!(
        said(settle_call(Ok(ok), 30, 0, None)),
        ("21C".to_string(), CallOutcome::Success)
    );
    let bad = json(r#"{"isError": true, "content": [{"type": "text", "text": "no"}]}"#);
    assert_eq!(
        said(settle_call(Ok(bad), 30, 0, None)),
        ("no".to_string(), CallOutcome::ToolError)
    );
    assert_eq!(
        said(settle_call(Err(McpError::Timeout), 30, 5, Some(6))),
        (
            "tool call timed out after 30 seconds".to_string(),
            CallOutcome::Timeout
        )
    );
    assert!(matches!(
        settle_call(Err(McpError::Timeout), 30, 6, Some(6)),
        (ToolCallResult::TotalTimeout, CallOutcome::Timeout)
    ));
    assert_eq!(
        said(settle_call(
            Err(McpError::Rpc {
                code: -32602,
                message: "bad params".to_string()
            }),
            30,
            0,
            None
        )),
        (
            "tool call failed: MCP server error -32602: bad params".to_string(),
            CallOutcome::Error
        )
    );
    for (outcome, label) in [
        (CallOutcome::Success, "ok"),
        (CallOutcome::ToolError, "tool_error"),
        (CallOutcome::Error, "error"),
        (CallOutcome::Timeout, "timeout"),
        (CallOutcome::Unavailable, "unavailable"),
    ] {
        assert_eq!(outcome.label(), label);
    }
}

#[test]
fn servers_are_retried_without_end() {
    let mut server = McpServer::new(config("a"));
    let mut s = McpSupervision::new();
    let step = s.supervise(
        &mut server,
        McpEvent::Failed(McpError::Spawn("no such file".to_string())),
    );
    assert!(matches!(step.action, McpAction::Wait { .. }));
    assert_eq!(server.state.label(), "retrying");
    assert!(!server.live);
    assert_eq!(
        s.supervise(&mut server, McpEvent::Woken).action,
        McpAction::Connect
    );
    let event = McpEvent::Connected {
        tools: vec![tool("f")],
        protocol_version: PROTOCOL_VERSION.to_string(),
    };
    assert_eq!(s.supervise(&mut server, event).action, McpAction::Serve);
    assert!(server.live);
    assert_eq!(s.attempt, 0);
    assert_eq!(
        s.supervise(&mut server, McpEvent::Lost).action,
        McpAction::Reconnect
    );
    assert!(!server.live);
    match &server.state {
        McpState::Retrying { last_error, .. } => assert_eq!(last_error, "connection lost"),
        other => panic!("{other:?}"),
    }
    assert_eq!(
        s.supervise(&mut server, McpEvent::Shutdown).action,
        McpAction::Stop
    );
}

#[test]
fn tool_pages_accumulate() {
    let mut tools = Vec::new();
    let page = json(
        r#"{"tools": [{"name": "a"}, {"nameless": 1}, {"name": "b", "inputSchema": {"x": 1}}],
            "nextCursor": "p2"}"#,
    );
    let cursor = read_tools_page(&page, &mut tools);
    assert_eq!(cursor.as_deref(), Some("p2"));
    assert_eq!(tools_params(&cursor)["cursor"], "p2");
    assert_eq!(read_tools_page(&json(r#"{"tools": [{"name": "c"}]}"#), &mut tools), None);
    let names: Vec<&str> = tools.iter().map(|t| t.name.as_str()).collect();
    assert_eq!(names, vec!["a", "b", "c"]);
    assert_eq!(tools[1].input_schema["x"], 1);
    assert_eq!(tools[0].input_schema["type"], "object");
}

#[test]
fn http_answers_are_read() {
    let headers = http_headers(&Some("s1".to_string()), &Some("v".to_string()));
    assert!(headers.contains(&("content-type", "application/json".to_string())));
    assert_eq!(headers.len(), 4);
    assert_eq!(http_headers(&None, &None).len(), 2);
    assert!(http_body_kind(true, "200 OK", "text/event-stream; charset=utf-8").expect("stream"));
    assert!(!http_body_kind(true, "200 OK", "application/json").expect("json"));
    assert_eq!(
        http_body_kind(false, "502 Bad Gateway", "").expect_err("status").message(),
        "MCP transport error: HTTP 502 Bad Gateway"
    );
    let outcome = http_message_outcome(r#"{"jsonrpc":"2.0","id":1,"result":{"n":1}}"#);
    assert_eq!(outcome.expect("result")["n"], 1);
    assert!(http_message_outcome("nope").is_err());
}

#[test]
fn event_streams_may_be_cut_anywhere() {
    let stream = "event: message\r\ndata: {\"id\":9,\"result\":{}}\r\n\r\ndata: {\"jsonrpc\":\"2.0\",\"id\":1,\ndata: \"result\":{\"n\":1}}\n\n";
    for cut in 0..stream.len() {
        let mut reader = SseReader::new();
        let (a, b) = stream.as_bytes().split_at(cut);
        let mut found = reader.push(&a.to_vec(), 1);
        if found.is_none() {
            found = reader.push(&b.to_vec(), 1);
        }
        let outcome = found.expect("response").expect("result");
        assert_eq!(outcome["n"], 1, "cut at {cut}");
    }
    let mut reader = SseReader::new();
    assert!(reader.push(&b"data: {\"id\":2,\"result\":{}}".to_vec(), 2).is_none());
    assert!(reader.finish(2).is_ok());
    assert_eq!(
        reader.finish(3).expect_err("other id").message(),
        "MCP transport error: SSE stream ended without a response"
    );
}

fn call(name: &str) -> CallText {
    CallText {
        name: name.to_string(),
        arguments: r#"{"city": "Paris"}"#.to_string(),
    }
}

#[test]
fn rounds_execute_only_server_calls() {
    let mut rounds = McpRounds::new(vec![], set_of(&["get_weather"]));
    let calls = vec![call("get_weather")];
    assert!(rounds.should_execute("stop", false, &calls, 1));
    assert!(!rounds.should_execute("length", false, &calls, 1));
    assert!(!rounds.should_execute("stop", true, &calls, 1));
    assert!(!rounds.should_execute("stop", false, &calls, 0));
    assert!(!rounds.should_execute("stop", false, &vec![], 0));
    // A mixed turn goes to the client whole.
    let mixed = vec![call("get_weather"), call("mine")];
    assert!(!rounds.should_execute("stop", false, &mixed, 2));

    rounds.record_round("Checking.".to_string(), &calls, &vec!["21C".to_string()]);
    assert_eq!(rounds.round, 1);
    assert_eq!(rounds.messages.len(), 2);
    assert_eq!(rounds.messages[0].role, "assistant");
    let recorded = rounds.messages[0].tool_calls.as_ref().expect("calls");
    assert_eq!(recorded[0].arguments["city"], "Paris");
    assert_eq!(rounds.messages[1].role, "tool");
    assert_eq!(rounds.messages[1].content, "21C");
    rounds.round = MAX_ROUNDS;
    assert!(!rounds.should_execute("stop", false, &calls, 1));

    rounds.count(&Finished {
        finish_reason: FinishReason::Stop,
        prompt_tokens: 5,
        completion_tokens: 3,
        error_code: WorkerErrorCode::Unspecified,
        error_detail: String::new(),
        matched_stop: String::new(),
    });
    assert_eq!(rounds.prompt_tokens_total, 5);
    assert_eq!(rounds.completion_tokens_total, 3);
    assert!(tools_in_scope(false, true, false));
    assert!(!tools_in_scope(true, true, false));
    assert!(!tools_in_scope(false, false, false));
    assert!(!tools_in_scope(false, true, true));
}
