use kiln_gateway::error::ApiError;
use kiln_gateway::float::Single;
use kiln_gateway::openai::AssistantMessage;
use kiln_gateway::openai::ChatCompletion;
use kiln_gateway::openai::ChatCompletionChunk;
use kiln_gateway::openai::ChatCompletionRequest;
use kiln_gateway::openai::Choice;
use kiln_gateway::openai::ChunkChoice;
use kiln_gateway::openai::CompletionChoice;
use kiln_gateway::openai::CompletionRequest;
use kiln_gateway::openai::ContentPart;
use kiln_gateway::openai::Delta;
use kiln_gateway::openai::DeltaToolCall;
use kiln_gateway::openai::MessageContent;
use kiln_gateway::openai::PromptSpec;
use kiln_gateway::openai::RequestMessage;
use kiln_gateway::openai::ResponseFormat;
use kiln_gateway::openai::ResponseToolCall;
use kiln_gateway::openai::StopSpec;
use kiln_gateway::openai::StreamOptions;
use kiln_gateway::openai::TextCompletion;
use kiln_gateway::openai::Usage;
use kiln_gateway::openai::FALLBACK_MAX_TOKENS;

fn single(x: f32) -> Option<Single> {
    Some(Single { bits: x.to_bits() })
}

fn says(role: &str, content: &str) -> RequestMessage {
    RequestMessage {
        role: role.to_string(),
        content: Some(MessageContent::Text(content.to_string())),
        name: None,
    }
}

fn request(messages: Vec<RequestMessage>) -> ChatCompletionRequest {
    ChatCompletionRequest {
        model: "m".to_string(),
        messages,
        stream: false,
        stream_options: None,
        temperature: None,
        top_p: None,
        max_tokens: None,
        max_completion_tokens: None,
        stop: None,
        seed: None,
        presence_penalty: None,
        frequency_penalty: None,
        n: None,
        logprobs: false,
        top_logprobs: None,
        tools: None,
        tool_choice: None,
        response_format: None,
        user: None,
    }
}

fn base() -> ChatCompletionRequest {
    request(vec![says("user", "x")])
}

#[test]
fn openai_minimal_request_validates() {
    let v = request(vec![says("user", "hi")]).validate().expect("valid");
    assert_eq!(v.messages.len(), 1);
    assert_eq!(f32::from_bits(v.sampling.temperature.bits), 1.0);
    assert_eq!(v.sampling.seed, 0);
    assert!(!v.stream);
    assert_eq!(v.max_tokens, None);
}

fn part(text: &str) -> ContentPart {
    ContentPart {
        part_type: "text".to_string(),
        text: Some(text.to_string()),
    }
}

#[test]
fn developer_role_maps_to_system_and_parts_concatenate() {
    let mut parts = says("user", "");
    parts.content = Some(MessageContent::Parts(vec![part("a"), part("b")]));
    let v = request(vec![says("developer", "be brief"), parts])
        .validate()
        .expect("valid");
    assert_eq!(v.messages[0].role, "system");
    assert_eq!(v.messages[1].content, "ab");
}

fn rejected(request: ChatCompletionRequest, needle: &str) {
    let err: ApiError = request.validate().expect_err("must reject");
    assert!(err.message.contains(needle), "{} !~ {needle}", err.message);
    assert_eq!(err.status, 400);
}

#[test]
fn openai_rejects_unsupported_features() {
    let mut r = base();
    r.n = Some(2);
    rejected(r, "'n' > 1");
    let mut r = base();
    r.logprobs = true;
    rejected(r, "logprobs");
    let mut r = base();
    r.tools = Some(serde_json::Value::Array(vec![]));
    rejected(r, "tool calling");
    rejected(request(vec![says("tool", "x")]), "unsupported message role");
    let mut r = base();
    r.temperature = single(9.0);
    rejected(r, "'temperature'");
    let mut r = base();
    r.response_format = Some(ResponseFormat {
        format_type: "json_schema".to_string(),
    });
    rejected(r, "response_format");
    rejected(request(vec![]), "non-empty");
}

#[test]
fn sampling_ranges_are_inclusive() {
    for (t, ok) in [(0.0, true), (2.0, true), (2.1, false), (-0.1, false), (f32::NAN, false)] {
        let mut r = base();
        r.temperature = single(t);
        assert_eq!(r.validate().is_ok(), ok, "temperature {t}");
        let mut r = base();
        r.presence_penalty = single(-t);
        assert_eq!(r.validate().is_ok(), t <= 2.0 && t >= -2.0, "presence {t}");
    }
    for (p, ok) in [(0.5, true), (1.0, true), (1.5, false)] {
        let mut r = base();
        r.top_p = single(p);
        assert_eq!(r.validate().is_ok(), ok, "top_p {p}");
    }
}

#[test]
fn requests_keep_what_they_ask_for() {
    let mut r = base();
    r.stream = true;
    r.stream_options = Some(StreamOptions {
        include_usage: true,
    });
    r.max_tokens = Some(7);
    r.max_completion_tokens = Some(9);
    r.seed = Some(42);
    r.stop = Some(StopSpec::Many(vec!["a".to_string(), "b".to_string()]));
    r.temperature = single(0.5);
    let v = r.validate().expect("valid");
    assert!(v.stream && v.include_usage);
    assert_eq!(v.max_tokens, Some(9));
    assert_eq!(v.sampling.seed, 42);
    assert_eq!(v.stop_strings, vec!["a", "b"]);
    assert_eq!(f32::from_bits(v.sampling.temperature.bits), 0.5);
    let mut r = base();
    r.stop = Some(StopSpec::One("end".to_string()));
    assert_eq!(r.validate().expect("valid").stop_strings, vec!["end"]);
    let mut r = base();
    r.stream_options = Some(StreamOptions {
        include_usage: true,
    });
    rejected(r, "stream_options");
}

#[test]
fn effective_max_tokens_paths() {
    let v = base().validate().expect("valid");
    // Remaining context when known.
    assert_eq!(v.effective_max_tokens(100, 1000).expect("fits"), 900);
    // Fallback when unknown.
    assert_eq!(
        v.effective_max_tokens(100, 0).expect("fits"),
        FALLBACK_MAX_TOKENS
    );
    // Overflow is a clean 400.
    let err = v.effective_max_tokens(1000, 1000).expect_err("overflow");
    assert_eq!(err.code, "context_length_exceeded");
}

fn completion(prompt: Option<PromptSpec>) -> CompletionRequest {
    CompletionRequest {
        model: "m".to_string(),
        prompt,
        stream: false,
        stream_options: None,
        temperature: None,
        top_p: None,
        max_tokens: None,
        stop: None,
        seed: None,
        presence_penalty: None,
        frequency_penalty: None,
        n: None,
        best_of: None,
        logprobs: None,
        echo: false,
        suffix: None,
        user: None,
    }
}

fn text(prompt: &str) -> CompletionRequest {
    completion(Some(PromptSpec::Text(prompt.to_string())))
}

#[test]
fn minimal_completion_request_validates() {
    let v = text("Once").validate().expect("valid");
    assert_eq!(v.prompt, "Once");
    assert_eq!(v.max_tokens, None);
    assert_eq!(f32::from_bits(v.sampling.temperature.bits), 1.0);
    assert!(!v.stream);
    // The legacy default applies at submit time.
    assert_eq!(v.effective_max_tokens(10, 1000).expect("fits"), 16);
    assert_eq!(v.effective_max_tokens(10, 0).expect("fits"), 16);
}

#[test]
fn completion_prompt_forms() {
    let many = |list: &[&str]| {
        Some(PromptSpec::Many(
            list.iter().map(|s| s.to_string()).collect(),
        ))
    };
    let v = completion(many(&["one"]))
        .validate()
        .expect("single-element array is valid");
    assert_eq!(v.prompt, "one");

    for (request, needle) in [
        (completion(None), "'prompt' is required"),
        (text(""), "non-empty"),
        (completion(many(&["a", "b"])), "exactly one string"),
        (
            completion(Some(PromptSpec::Tokens(vec![1, 2, 3]))),
            "token-id prompts",
        ),
        (
            completion(Some(PromptSpec::ManyTokens(vec![vec![1, 2], vec![3]]))),
            "token-id prompts",
        ),
    ] {
        let err = request.validate().expect_err("must reject");
        assert!(err.message.contains(needle), "{} !~ {needle}", err.message);
    }
}

#[test]
fn completion_rejects_unsupported_features() {
    let mut all = Vec::new();
    let mut r = text("x");
    r.n = Some(2);
    all.push((r, "'n' > 1"));
    let mut r = text("x");
    r.best_of = Some(3);
    all.push((r, "'best_of' > 1"));
    let mut r = text("x");
    r.logprobs = Some(5);
    all.push((r, "logprobs"));
    let mut r = text("x");
    r.echo = true;
    all.push((r, "'echo'"));
    let mut r = text("x");
    r.suffix = Some("end".to_string());
    all.push((r, "'suffix'"));
    let mut r = text("x");
    r.max_tokens = Some(0);
    all.push((r, "'max_tokens'"));
    let mut r = text("x");
    r.stream_options = Some(StreamOptions {
        include_usage: true,
    });
    all.push((r, "'stream_options' requires"));
    let mut r = text("x");
    r.temperature = single(9.0);
    all.push((r, "'temperature'"));
    for (r, needle) in all {
        let err = r.validate().expect_err("must reject");
        assert!(err.message.contains(needle), "{} !~ {needle}", err.message);
        assert_eq!(err.status, 400);
    }
}

#[test]
fn completion_context_overflow_is_a_clean_400() {
    let v = text("x").validate().expect("valid");
    let err = v.effective_max_tokens(1000, 1000).expect_err("overflow");
    assert_eq!(err.code, "context_length_exceeded");
}

const USAGE: Usage = Usage {
    prompt_tokens: 1,
    completion_tokens: 2,
    total_tokens: 3,
};

#[test]
fn text_completion_usage_serialization() {
    // Non-streaming: usage always an object.
    let full = TextCompletion {
        id: "cmpl-x".to_string(),
        object: "text_completion",
        created: 1,
        model: "m".to_string(),
        choices: vec![CompletionChoice {
            index: 0,
            text: "hi".to_string(),
            finish_reason: Some("stop"),
        }],
        usage: Some(Some(USAGE)),
    };
    let json = full.to_json();
    assert_eq!(json["usage"]["total_tokens"], 3);
    assert_eq!(json["choices"][0]["finish_reason"], "stop");
    assert!(json["choices"][0]["logprobs"].is_null());
    // Stream data chunk without usage: field omitted entirely.
    let chunk = TextCompletion {
        usage: None,
        ..full
    };
    let json = chunk.to_json();
    assert!(json.get("usage").is_none());
}

#[test]
fn stream_usage_chunk_serialization() {
    let chunk = ChatCompletionChunk {
        id: "chatcmpl-x".to_string(),
        object: "chat.completion.chunk",
        created: 1,
        model: "m".to_string(),
        choices: vec![],
        usage: Some(None),
    };
    let json = chunk.to_json();
    assert!(json["usage"].is_null());
    assert!(json.get("usage").is_some());
    let chunk = ChatCompletionChunk {
        usage: None,
        ..chunk
    };
    let json = chunk.to_json();
    assert!(json.get("usage").is_none());
}

#[test]
fn chat_responses_have_the_wire_shape() {
    let full = ChatCompletion {
        id: "chatcmpl-x".to_string(),
        object: "chat.completion",
        created: 9,
        model: "m".to_string(),
        choices: vec![Choice {
            index: 0,
            message: AssistantMessage {
                role: "assistant",
                content: None,
                tool_calls: Some(vec![ResponseToolCall {
                    id: "call_1".to_string(),
                    name: "f".to_string(),
                    arguments: "{}".to_string(),
                }]),
            },
            finish_reason: "tool_calls",
        }],
        usage: USAGE,
    };
    let json = full.to_json();
    assert_eq!(json["created"], 9);
    let message = &json["choices"][0]["message"];
    assert!(message["content"].is_null());
    assert_eq!(message["tool_calls"][0]["function"]["name"], "f");
    assert_eq!(message["tool_calls"][0]["type"], "function");

    let chunk = ChatCompletionChunk {
        id: "chatcmpl-x".to_string(),
        object: "chat.completion.chunk",
        created: 9,
        model: "m".to_string(),
        choices: vec![ChunkChoice {
            index: 0,
            delta: Delta {
                role: None,
                content: None,
                tool_calls: Some(vec![DeltaToolCall {
                    index: 0,
                    id: Some("call_1".to_string()),
                    call_type: Some("function"),
                    name: Some("f".to_string()),
                    arguments: String::new(),
                }]),
            },
            finish_reason: None,
        }],
        usage: None,
    };
    let json = chunk.to_json();
    let delta = &json["choices"][0]["delta"];
    assert!(delta.get("role").is_none());
    assert!(delta.get("content").is_none());
    assert_eq!(delta["tool_calls"][0]["id"], "call_1");
    assert!(json["choices"][0]["finish_reason"].is_null());
}
