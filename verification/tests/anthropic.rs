use kiln_gateway::anthropic::BlockDelta;
use kiln_gateway::anthropic::ContentBlock;
use kiln_gateway::anthropic::ContentBlockDeltaEvent;
use kiln_gateway::anthropic::MessageContent;
use kiln_gateway::anthropic::MessagesRequest;
use kiln_gateway::anthropic::MessagesResponse;
use kiln_gateway::anthropic::RequestContentBlock;
use kiln_gateway::anthropic::RequestMessage;
use kiln_gateway::anthropic::RequestTool;
use kiln_gateway::anthropic::SystemBlock;
use kiln_gateway::anthropic::SystemSpec;
use kiln_gateway::anthropic::ThinkingSpec;
use kiln_gateway::anthropic::ToolResultContent;
use kiln_gateway::anthropic::Usage;
use kiln_gateway::float::Single;
use serde_json::Value;

fn json(text: &str) -> Value {
    serde_json::from_str(text).expect("json")
}

fn says(role: &str, content: &str) -> RequestMessage {
    RequestMessage {
        role: role.to_string(),
        content: MessageContent::Text(content.to_string()),
    }
}

fn blocks(role: &str, blocks: Vec<RequestContentBlock>) -> RequestMessage {
    RequestMessage {
        role: role.to_string(),
        content: MessageContent::Blocks(blocks),
    }
}

fn request(max_tokens: Option<u32>, messages: Vec<RequestMessage>) -> MessagesRequest {
    MessagesRequest {
        model: "m".to_string(),
        max_tokens,
        messages,
        system: None,
        temperature: None,
        top_p: None,
        top_k: None,
        stop_sequences: None,
        stream: false,
        tools: None,
        tool_choice: None,
        thinking: None,
        metadata: None,
    }
}

fn base() -> MessagesRequest {
    request(Some(8), vec![says("user", "x")])
}

fn tool(name: &str) -> RequestTool {
    RequestTool {
        tool_type: None,
        name: Some(name.to_string()),
        description: None,
        input_schema: None,
    }
}

fn text_block(text: &str) -> RequestContentBlock {
    RequestContentBlock::Text {
        text: text.to_string(),
    }
}

#[test]
fn anthropic_minimal_request_validates() {
    let v = request(Some(32), vec![says("user", "hi")])
        .validate()
        .expect("valid");
    assert_eq!(v.max_tokens, 32);
    assert_eq!(v.messages.len(), 1);
    assert_eq!(v.messages[0].role, "user");
    assert_eq!(f32::from_bits(v.sampling.temperature.bits), 1.0);
    assert_eq!(v.sampling.top_k, 0);
    assert!(!v.stream);
    assert!(!v.thinking_disabled);
}

#[test]
fn system_prompt_prepends_a_system_message() {
    // String form and block form are equivalent.
    for system in [
        SystemSpec::Text("be brief".to_string()),
        SystemSpec::Blocks(vec![SystemBlock {
            block_type: "text".to_string(),
            text: Some("be brief".to_string()),
        }]),
    ] {
        let mut r = request(Some(8), vec![says("user", "hi")]);
        r.system = Some(system);
        let v = r.validate().expect("valid");
        assert_eq!(v.messages[0].role, "system");
        assert_eq!(v.messages[0].content, "be brief");
        assert_eq!(v.messages[1].role, "user");
    }
}

#[test]
fn tool_history_round_trips_into_template_shape() {
    let mut r = request(
        Some(8),
        vec![
            says("user", "weather?"),
            blocks(
                "assistant",
                vec![
                    RequestContentBlock::Thinking {
                        thinking: "let me check".to_string(),
                    },
                    text_block("Checking."),
                    RequestContentBlock::ToolUse {
                        id: Some("toolu_1".to_string()),
                        name: "get_weather".to_string(),
                        input: json(r#"{"city": "Paris"}"#),
                    },
                ],
            ),
            blocks(
                "user",
                vec![RequestContentBlock::ToolResult {
                    tool_use_id: Some("toolu_1".to_string()),
                    content: Some(ToolResultContent::Text("21C".to_string())),
                    is_error: false,
                }],
            ),
        ],
    );
    r.tools = Some(vec![RequestTool {
        tool_type: None,
        name: Some("get_weather".to_string()),
        description: Some("Weather.".to_string()),
        input_schema: Some(json(r#"{"type": "object"}"#)),
    }]);
    let v = r.validate().expect("valid");

    // The tool is converted to the shape that templates render.
    assert_eq!(
        v.tools[0],
        json(
            r#"{"type": "function", "function": {
                "name": "get_weather", "description": "Weather.",
                "parameters": {"type": "object"}}}"#
        )
    );
    let assistant = &v.messages[1];
    assert_eq!(assistant.role, "assistant");
    assert_eq!(assistant.content, "Checking."); // thinking dropped
    let calls = assistant.tool_calls.as_ref().expect("kept");
    assert_eq!(calls[0].name, "get_weather");
    assert_eq!(calls[0].arguments, json(r#"{"city": "Paris"}"#));
    // The result became a tool-role message, no empty user message.
    assert_eq!(v.messages[2].role, "tool");
    assert_eq!(v.messages[2].content, "21C");
    assert_eq!(v.messages.len(), 3);
}

#[test]
fn tool_choice_none_drops_tools_and_thinking_disabled_maps() {
    let mut r = base();
    r.tools = Some(vec![tool("f")]);
    r.tool_choice = Some(json(r#"{"type": "none"}"#));
    r.thinking = Some(ThinkingSpec {
        thinking_type: "disabled".to_string(),
        budget_tokens: None,
    });
    let v = r.validate().expect("valid");
    assert!(v.tools.is_empty());
    assert!(v.tools_disabled);
    assert!(v.thinking_disabled);
}

#[test]
fn anthropic_rejects_unsupported_features() {
    let mut all = vec![
        (
            request(None, vec![says("user", "x")]),
            "'max_tokens' is required",
        ),
        (request(Some(8), vec![]), "non-empty"),
        (
            request(Some(8), vec![says("system", "x")]),
            "unsupported message role",
        ),
        (
            request(
                Some(8),
                vec![blocks("user", vec![RequestContentBlock::Image])],
            ),
            "image content",
        ),
        (
            request(
                Some(8),
                vec![blocks(
                    "user",
                    vec![RequestContentBlock::ToolUse {
                        id: Some("t".to_string()),
                        name: "f".to_string(),
                        input: json("{}"),
                    }],
                )],
            ),
            "only valid on assistant",
        ),
    ];
    let mut r = base();
    r.temperature = Some(Single {
        bits: 1.5f32.to_bits(),
    });
    all.push((r, "'temperature'"));
    let mut r = base();
    r.top_k = Some(-1);
    all.push((r, "'top_k'"));
    let mut r = base();
    r.tools = Some(vec![tool("f")]);
    r.tool_choice = Some(json(r#"{"type": "any"}"#));
    all.push((r, "tool_choice"));
    let mut r = base();
    r.tools = Some(vec![tool("f")]);
    r.tool_choice = Some(json(
        r#"{"type": "auto", "disable_parallel_tool_use": true}"#,
    ));
    all.push((r, "disable_parallel_tool_use"));
    let mut r = base();
    r.tools = Some(vec![RequestTool {
        tool_type: Some("web_search_20260209".to_string()),
        ..tool("web_search")
    }]);
    all.push((r, "unsupported tool type"));
    let mut r = base();
    r.thinking = Some(ThinkingSpec {
        thinking_type: "extended".to_string(),
        budget_tokens: None,
    });
    all.push((r, "thinking.type"));
    for (r, needle) in all {
        let err = r.validate().expect_err("must reject");
        assert!(err.message.contains(needle), "{} !~ {needle}", err.message);
        assert_eq!(err.status, 400);
    }
}

#[test]
fn response_and_event_wire_shapes() {
    let response = MessagesResponse {
        id: "msg_1".to_string(),
        response_type: "message",
        role: "assistant",
        model: "m".to_string(),
        content: vec![
            ContentBlock::Thinking {
                thinking: "hm".to_string(),
                signature: "",
            },
            ContentBlock::Text {
                text: "hi".to_string(),
            },
            ContentBlock::ToolUse {
                id: "toolu_1".to_string(),
                name: "f".to_string(),
                input: json(r#"{"a": 1}"#),
            },
        ],
        stop_reason: Some("tool_use"),
        stop_sequence: None,
        usage: Usage {
            input_tokens: 3,
            output_tokens: 5,
        },
    };
    let v = response.to_json();
    assert_eq!(v["type"], "message");
    assert_eq!(v["content"][0]["type"], "thinking");
    assert_eq!(v["content"][0]["thinking"], "hm");
    assert_eq!(v["content"][0]["signature"], "");
    assert_eq!(v["content"][1]["text"], "hi");
    assert_eq!(v["content"][2]["input"]["a"], 1);
    assert_eq!(v["stop_reason"], "tool_use");
    assert!(v["stop_sequence"].is_null());
    assert_eq!(v["usage"]["input_tokens"], 3);

    let delta = ContentBlockDeltaEvent {
        index: 1,
        delta: BlockDelta::InputJson {
            partial_json: "{\"a\":".to_string(),
        },
    };
    let v = delta.to_json();
    assert_eq!(v["type"], "content_block_delta");
    assert_eq!(v["index"], 1);
    assert_eq!(v["delta"]["type"], "input_json_delta");
    assert_eq!(v["delta"]["partial_json"], "{\"a\":");
}

#[test]
fn user_turns_keep_results_before_text() {
    let v = request(
        Some(8),
        vec![blocks(
            "user",
            vec![
                RequestContentBlock::ToolResult {
                    tool_use_id: None,
                    content: Some(ToolResultContent::Blocks(vec![
                        text_block("a"),
                        text_block("b"),
                    ])),
                    is_error: false,
                },
                text_block("and?"),
            ],
        )],
    )
    .validate()
    .expect("valid");
    assert_eq!(v.messages.len(), 2);
    assert_eq!(v.messages[0].role, "tool");
    assert_eq!(v.messages[0].content, "ab");
    assert_eq!(v.messages[1].role, "user");
    assert_eq!(v.messages[1].content, "and?");
}
