use kiln_gateway::anthropic::MessageContent;
use kiln_gateway::anthropic::MessagesRequest;
use kiln_gateway::anthropic::RequestMessage;
use kiln_gateway::chat::Released;
use kiln_gateway::chat::TextPipeline;
use kiln_gateway::chat::ToolEvent;
use kiln_gateway::config::KilnConfig;
use kiln_gateway::config::ModelConfig;
use kiln_gateway::config::WorkerKind;
use kiln_gateway::error::ApiError;
use kiln_gateway::lifecycle::Lifecycle;
use kiln_gateway::mcp::McpEntry;
use kiln_gateway::mcp::McpRounds;
use kiln_gateway::mcp::McpTool;
use kiln_gateway::mcp::McpToolSet;
use kiln_gateway::message_flow::end_round;
use kiln_gateway::message_flow::fail_stream;
use kiln_gateway::message_flow::finish_response;
use kiln_gateway::message_flow::finish_stream;
use kiln_gateway::message_flow::respond_round;
use kiln_gateway::message_flow::start_stream;
use kiln_gateway::message_flow::stream_round_end;
use kiln_gateway::message_flow::stream_segments;
use kiln_gateway::message_flow::MessageHead;
use kiln_gateway::message_flow::MessageItem;
use kiln_gateway::message_flow::RoundEnd;
use kiln_gateway::message_flow::RoundParts;
use kiln_gateway::messages::anthropic_stop_reason;
use kiln_gateway::messages::fresh_segments;
use kiln_gateway::messages::matched_stop_of;
use kiln_gateway::messages::new_tool_use_id;
use kiln_gateway::messages::open_messages;
use kiln_gateway::messages::plan_messages;
use kiln_gateway::messages::require_template_and_tools;
use kiln_gateway::messages::round_request_id;
use kiln_gateway::messages::segments_of;
use kiln_gateway::messages::BlockAssembler;
use kiln_gateway::messages::BlockStreamer;
use kiln_gateway::messages::Segment;
use kiln_gateway::messages::ThinkPiece;
use kiln_gateway::registry::ModelEntry;
use kiln_gateway::registry::ModelFacts;
use kiln_gateway::registry::Registry;
use kiln_gateway::status::WorkerStatus;
use kiln_gateway::worker::FinishReason;
use kiln_gateway::worker::Finished;
use kiln_gateway::worker::WorkerErrorCode;
use serde_json::Value;

fn entry(has_tokenizer: bool) -> ModelEntry {
    ModelEntry {
        id: "m".to_string(),
        model_path: "/models/m".to_string(),
        draft_path: None,
        socket_path: "/run/m.sock".to_string(),
        config: ModelConfig {
            id: "m".to_string(),
            path: "/models/m".to_string(),
            worker: WorkerKind::Auto,
            pinned: false,
            ttl_seconds: 0,
            speculative: None,
        },
        worker_kind: WorkerKind::Rust,
        has_tokenizer,
        has_template: has_tokenizer,
        created_unix: 3,
    }
}

fn request(model: &str) -> MessagesRequest {
    MessagesRequest {
        model: model.to_string(),
        max_tokens: Some(8),
        messages: vec![RequestMessage {
            role: "user".to_string(),
            content: MessageContent::Text("x".to_string()),
        }],
        system: None,
        temperature: None,
        top_p: None,
        top_k: None,
        stop_sequences: Some(vec!["END".to_string()]),
        stream: false,
        tools: None,
        tool_choice: None,
        thinking: None,
        metadata: None,
    }
}

fn finished(finish_reason: FinishReason) -> Finished {
    Finished {
        finish_reason,
        prompt_tokens: 5,
        completion_tokens: 9,
        error_code: WorkerErrorCode::Unspecified,
        error_detail: String::new(),
        matched_stop: String::new(),
    }
}

fn head() -> MessageHead {
    MessageHead {
        id: "msg_1".to_string(),
        model: "m".to_string(),
    }
}

fn text(t: &str) -> Segment {
    Segment::Text(t.to_string())
}

fn thinking(t: &str) -> Segment {
    Segment::Thinking(t.to_string())
}

fn tool_use(name: &str) -> Vec<Segment> {
    vec![
        Segment::ToolStart {
            id: "toolu_1".to_string(),
            name: name.to_string(),
        },
        Segment::ToolArgs {
            delta: "{\"city\":".to_string(),
        },
        Segment::ToolArgs {
            delta: "\"Paris\"}".to_string(),
        },
        Segment::ToolEnd,
    ]
}

fn names(items: &[MessageItem]) -> Vec<&'static str> {
    items.iter().map(|i| i.event()).collect()
}

#[test]
fn messages_pass_the_gates() {
    let mut config = KilnConfig::default();
    config.models.push(ModelConfig {
        id: "m".to_string(),
        path: "/models/m".to_string(),
        worker: WorkerKind::Python,
        pinned: false,
        ttl_seconds: 0,
        speculative: None,
    });
    let facts = ModelFacts {
        is_local: true,
        arch: Err("phi3".to_string()),
        tokenizer: Err("none".to_string()),
        draft_is_local: false,
        has_template: true,
        channel: Ok(()),
    };
    let registry = Registry::from_config(&config, &vec![facts], None, 3).expect("registry");
    let mut ledger = Lifecycle::new(1000, Some(2000), 0);
    assert!(ledger.add_slot("m", WorkerStatus::Ready, false, 0));
    let (opened, _) = open_messages(&registry, &mut ledger, &request("ghost"), 1);
    assert_eq!(opened.expect_err("unknown").status, 404);
    let (opened, _) = open_messages(&registry, &mut ledger, &request("m"), 1);
    let (at, v) = opened.expect("open");
    assert_eq!(at, 0);
    let plan = plan_messages(&v, &entry(false), "r", vec![1, 2], 0).expect("plan");
    assert_eq!(plan.max_tokens, 8);
    assert_eq!(plan.stop_strings, vec!["END"]);
    let plan = plan_messages(&v, &entry(true), "r", vec![1, 2], 0).expect("plan");
    assert!(plan.stop_strings.is_empty());
    let e = plan_messages(&v, &entry(true), "r", vec![], 0).expect_err("empty");
    assert_eq!(e.message, "rendered prompt is empty");
    let e = plan_messages(&v, &entry(true), "r", vec![1; 4], 4).expect_err("long");
    assert_eq!(e.code, "context_length_exceeded");
    let mut bad = request("m");
    bad.max_tokens = None;
    let (opened, _) = open_messages(&registry, &mut ledger, &bad, 1);
    assert_eq!(opened.expect_err("no max_tokens").status, 400);
}

#[test]
fn tools_are_checked_before_the_template() {
    assert!(require_template_and_tools(&entry(true), true, true).is_ok());
    let e = require_template_and_tools(&entry(false), true, false).expect_err("tools");
    assert!(e.message.contains("tool-call format"));
    let e = require_template_and_tools(&entry(false), false, false).expect_err("template");
    assert_eq!(
        e.message,
        "model 'm' has no chat template; messages are unavailable for it"
    );
}

#[test]
fn tool_use_ids_are_fresh() {
    let a = new_tool_use_id();
    assert_ne!(a, new_tool_use_id());
    assert_eq!(a.len(), 38);
    assert!(a.starts_with("toolu_"));
}

#[test]
fn calls_get_tagged_ids_in_responses_and_streams() {
    let start = ToolEvent::CallStart {
        index: 0,
        name: "f".to_string(),
    };
    let segments = fresh_segments(start, false, &vec![]);
    let id = match &segments[0] {
        Segment::ToolStart { id, .. } => id.clone(),
        other => panic!("{other:?}"),
    };
    assert!(id.starts_with("toolu_") && id.len() == 38, "{id}");
    let mut assembler = BlockAssembler::new();
    assembler.push_all(&segments);
    let content = assembler.into_content();
    assert_eq!(content[0].to_json()["id"], id.as_str());
    let mut streamer = BlockStreamer::new();
    let frames = stream_segments(&mut streamer, &segments);
    assert!(frames[0].data().contains(&id), "{}", frames[0].data());
    let text = fresh_segments(ToolEvent::Content("a".to_string()), false, &vec![]);
    assert!(matches!(&text[0], Segment::Text(t) if t == "a"));
}

#[test]
fn held_text_lands_before_the_tool_block() {
    let held = vec![ThinkPiece::Text("so ".to_string())];
    let start = ToolEvent::CallStart {
        index: 0,
        name: "f".to_string(),
    };
    let segments = segments_of(start, true, &held, "toolu_9".to_string());
    assert_eq!(segments.len(), 2);
    assert!(matches!(&segments[0], Segment::Text(t) if t == "so "));
    assert!(matches!(&segments[1], Segment::ToolStart { id, name } if id == "toolu_9" && name == "f"));
    let content = ToolEvent::Content("<think>a</think>b".to_string());
    let pieces = vec![
        ThinkPiece::Thinking("a".to_string()),
        ThinkPiece::Text("b".to_string()),
    ];
    let segments = segments_of(content, true, &pieces, String::new());
    assert!(matches!(&segments[0], Segment::Thinking(t) if t == "a"));
    assert!(matches!(&segments[1], Segment::Text(t) if t == "b"));
    // Without think tags, content is text as it stands.
    let content = ToolEvent::Content("<think>".to_string());
    let segments = segments_of(content, false, &vec![], String::new());
    assert!(matches!(&segments[0], Segment::Text(t) if t == "<think>"));
    let end = ToolEvent::CallEnd { index: 0 };
    assert!(matches!(segments_of(end, false, &vec![], String::new())[0], Segment::ToolEnd));
}

#[test]
fn stop_sequences_are_the_requests_own() {
    let ours = vec!["END".to_string()];
    let end = |m: &str| Some(m.to_string());
    assert_eq!(
        anthropic_stop_reason("stop", 0, end("END"), &ours),
        ("stop_sequence", end("END"))
    );
    // A model's own end token is no stop sequence.
    assert_eq!(
        anthropic_stop_reason("stop", 0, end("<|eot|>"), &ours),
        ("end_turn", None)
    );
    assert_eq!(anthropic_stop_reason("stop", 1, end("END"), &ours), ("tool_use", None));
    assert_eq!(anthropic_stop_reason("length", 1, None, &ours), ("max_tokens", None));
    assert_eq!(anthropic_stop_reason("stop", 0, None, &ours), ("end_turn", None));

    let mut f = finished(FinishReason::Stop);
    f.matched_stop = "</s>".to_string();
    let mut p = TextPipeline::for_entry(&entry(true));
    assert_eq!(matched_stop_of(&p, &f).as_deref(), Some("</s>"));
    let hit = Released {
        text: "a".to_string(),
        hit: Some("END".to_string()),
    };
    p.push(String::new(), 1, Some(Ok(hit))).expect("push");
    assert_eq!(matched_stop_of(&p, &f).as_deref(), Some("END"));
}

#[test]
fn blocks_open_and_close_in_order() {
    let mut streamer = BlockStreamer::new();
    let start = start_stream(&head(), 5);
    assert_eq!(start.event(), "message_start");
    let payload = start.payload();
    assert_eq!(payload["message"]["usage"]["input_tokens"], 5);
    assert_eq!(payload["message"]["content"].as_array().map(|c| c.len()), Some(0));
    assert!(payload["message"]["stop_reason"].is_null());

    let items = stream_segments(&mut streamer, &vec![thinking("hm"), text("a"), text("b")]);
    assert_eq!(
        names(&items),
        vec![
            "content_block_start",
            "content_block_delta",
            "content_block_stop",
            "content_block_start",
            "content_block_delta",
            "content_block_delta"
        ]
    );
    let payload = items[0].payload();
    assert_eq!(payload["index"], 0);
    assert_eq!(payload["content_block"]["type"], "thinking");
    assert_eq!(items[3].payload()["index"], 1);
    assert_eq!(items[5].payload()["delta"]["text"], "b");
    assert_eq!(streamer.index(), 1);

    let p = TextPipeline::for_entry(&entry(true));
    let items = finish_stream(
        &mut streamer,
        &tool_use("f"),
        &p,
        1,
        finished(FinishReason::Stop),
        &vec![],
    );
    assert_eq!(
        names(&items),
        vec![
            "content_block_stop",
            "content_block_start",
            "content_block_delta",
            "content_block_delta",
            "content_block_stop",
            "message_delta",
            "message_stop"
        ]
    );
    let delta = items[5].payload();
    assert_eq!(delta["delta"]["stop_reason"], "tool_use");
    assert_eq!(delta["usage"]["output_tokens"], 9);
    // Every payload repeats the name of its event.
    for item in &items {
        let sent: Value = serde_json::from_str(&item.data()).expect("json");
        assert_eq!(sent["type"], item.event());
    }
}

#[test]
fn failed_message_streams_end_with_the_error() {
    let mut streamer = BlockStreamer::new();
    stream_segments(&mut streamer, &vec![text("a")]);
    let p = TextPipeline::for_entry(&entry(true));
    let items = finish_stream(
        &mut streamer,
        &vec![],
        &p,
        0,
        finished(FinishReason::Cancelled),
        &vec![],
    );
    assert_eq!(names(&items), vec!["content_block_stop", "error"]);
    assert_eq!(
        items[1].payload()["error"]["message"],
        "request was cancelled"
    );
    let items = fail_stream(ApiError::internal("x".to_string()));
    assert_eq!(names(&items), vec!["error"]);
}

#[test]
fn collected_messages_match_streamed_ones() {
    let mut segments = vec![thinking("h"), thinking("m"), text("It is "), text("sunny.")];
    segments.extend(tool_use("get_weather"));
    let mut assembler = BlockAssembler::new();
    assembler.push_all(&segments);
    let p = TextPipeline::for_entry(&entry(true));
    let body = finish_response(
        &head(),
        assembler,
        &p,
        1,
        finished(FinishReason::Stop),
        &vec![],
    )
    .expect("response")
    .to_json();
    assert_eq!(body["id"], "msg_1");
    assert_eq!(body["content"][0]["thinking"], "hm");
    assert_eq!(body["content"][1]["text"], "It is sunny.");
    assert_eq!(body["content"][2]["type"], "tool_use");
    assert_eq!(body["content"][2]["input"]["city"], "Paris");
    assert_eq!(body["stop_reason"], "tool_use");
    assert_eq!(body["usage"]["output_tokens"], 9);

    let mut streamer = BlockStreamer::new();
    let items = stream_segments(&mut streamer, &segments);
    let streamed: String = items
        .iter()
        .filter_map(|i| i.payload()["delta"]["text"].as_str().map(|t| t.to_string()))
        .collect();
    assert_eq!(streamed, "It is sunny.");

    let e = finish_response(
        &head(),
        BlockAssembler::new(),
        &p,
        0,
        finished(FinishReason::PreemptedFatal),
        &vec![],
    );
    assert!(e.is_err());
}

fn rounds() -> McpRounds {
    let tool = McpTool {
        name: "get_weather".to_string(),
        description: None,
        input_schema: serde_json::from_str("{}").expect("json"),
    };
    McpRounds::new(
        vec![],
        McpToolSet {
            entries: vec![McpEntry { tool, server: 0 }],
        },
    )
}

#[test]
fn server_calls_are_withheld_and_executed() {
    let mut rounds = rounds();
    let mut parts = RoundParts::new();
    let mut segments = vec![text("Checking. ")];
    segments.extend(tool_use("get_weather"));
    let live = parts.take(segments);
    assert_eq!(live.len(), 1);
    assert_eq!(parts.text_content, "Checking. ");
    assert_eq!(parts.calls.len(), 1);
    assert_eq!(parts.calls[0].arguments, "{\"city\":\"Paris\"}");
    assert_eq!(parts.tool_segments.len(), 4);
    let p = TextPipeline::for_entry(&entry(true));
    let end = end_round(&mut rounds, &parts, &p, 1, finished(FinishReason::Stop));
    assert!(matches!(end, RoundEnd::Execute(_)), "{end:?}");
    assert_eq!(rounds.completion_tokens_total, 9);
    let end = end_round(&mut rounds, &parts, &p, 1, finished(FinishReason::Cancelled));
    assert!(matches!(end, RoundEnd::Failed(_)), "{end:?}");
    assert_eq!(rounds.completion_tokens_total, 9);
}

#[test]
fn client_calls_surface_with_the_summed_usage() {
    let mut rounds = rounds();
    rounds.prompt_tokens_total = 100;
    rounds.completion_tokens_total = 50;
    let mut parts = RoundParts::new();
    parts.take(tool_use("mine"));
    let p = TextPipeline::for_entry(&entry(true));
    let reason = match end_round(&mut rounds, &parts, &p, 1, finished(FinishReason::Stop)) {
        RoundEnd::Respond { finish_reason, .. } => finish_reason,
        other => panic!("{other:?}"),
    };
    let body = respond_round(
        &head(),
        BlockAssembler::new(),
        &parts,
        &rounds,
        reason,
        1,
        None,
        &vec![],
    )
    .to_json();
    assert_eq!(body["content"][0]["name"], "mine");
    assert_eq!(body["stop_reason"], "tool_use");
    assert_eq!(body["usage"]["input_tokens"], 105);
    assert_eq!(body["usage"]["output_tokens"], 59);

    rounds.completion_tokens_total = u64::MAX;
    let mut streamer = BlockStreamer::new();
    let items = stream_round_end(
        &mut streamer,
        &parts,
        &rounds,
        reason,
        1,
        None,
        &vec![],
    );
    assert_eq!(
        names(&items),
        vec![
            "content_block_start",
            "content_block_delta",
            "content_block_delta",
            "content_block_stop",
            "message_delta",
            "message_stop"
        ]
    );
    assert_eq!(items[4].payload()["usage"]["output_tokens"], u32::MAX);
}

#[test]
fn later_rounds_have_their_own_request_ids() {
    assert_eq!(round_request_id("a-b", 0), "a-b");
    assert_eq!(round_request_id("a-b", 1), "a-b-r1");
    assert_eq!(round_request_id("", 12), "-r12");
}
