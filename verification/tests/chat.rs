use kiln_gateway::chat::admit_memory;
use kiln_gateway::chat::classify_finished;
use kiln_gateway::chat::encoded_prompt;
use kiln_gateway::chat::fail_stream;
use kiln_gateway::chat::new_call_id;
use kiln_gateway::chat::open_chat;
use kiln_gateway::chat::plan_chat;
use kiln_gateway::chat::ready_entry;
use kiln_gateway::chat::rendered_prompt;
use kiln_gateway::chat::require_template;
use kiln_gateway::chat::require_tool_format;
use kiln_gateway::chat::response_id;
use kiln_gateway::chat::ChatItem;
use kiln_gateway::chat::EncodeFailure;
use kiln_gateway::chat::Released;
use kiln_gateway::chat::ResponseHead;
use kiln_gateway::chat::StreamEnd;
use kiln_gateway::chat::StreamFailure;
use kiln_gateway::chat::TailRelease;
use kiln_gateway::chat::TextPipeline;
use kiln_gateway::chat::ToolEvent;
use kiln_gateway::chat::ToolRoute;
use kiln_gateway::chat_flow::ChatCollector;
use kiln_gateway::chat_flow::ChatStream;
use kiln_gateway::chat_flow::ChunkStep;
use kiln_gateway::completions::finish_text;
use kiln_gateway::completions::finish_text_stream;
use kiln_gateway::completions::open_completion;
use kiln_gateway::completions::plan_completion;
use kiln_gateway::completions::text_delta;
use kiln_gateway::config::KilnConfig;
use kiln_gateway::config::ModelConfig;
use kiln_gateway::config::WorkerKind;
use kiln_gateway::error::ApiError;
use kiln_gateway::lifecycle::Command;
use kiln_gateway::lifecycle::Lifecycle;
use kiln_gateway::openai::ChatCompletionRequest;
use kiln_gateway::openai::CompletionRequest;
use kiln_gateway::openai::MessageContent;
use kiln_gateway::openai::PromptSpec;
use kiln_gateway::openai::RequestMessage;
use kiln_gateway::registry::ModelEntry;
use kiln_gateway::registry::ModelFacts;
use kiln_gateway::registry::Registry;
use kiln_gateway::status::UnloadReason;
use kiln_gateway::status::WorkerStatus;
use kiln_gateway::timeout::TimeoutScope;
use kiln_gateway::worker::FinishReason;
use kiln_gateway::worker::Finished;
use kiln_gateway::worker::RpcStatus;
use kiln_gateway::worker::WorkerErrorCode;
use serde_json::Value;

fn state() -> (Registry, Lifecycle) {
    let mut config = KilnConfig::default();
    config.models.push(ModelConfig {
        id: "m".to_string(),
        path: "/models/m".to_string(),
        worker: WorkerKind::Python,
        pinned: false,
        ttl_seconds: 0,
        speculative: None,
    });
    let facts = ModelFacts {
        is_local: true,
        arch: Err("phi3".to_string()),
        tokenizer: Err("none".to_string()),
        draft_is_local: false,
        has_template: true,
        channel: Ok(()),
    };
    let registry = Registry::from_config(&config, &vec![facts], None, 3).expect("registry");
    let mut ledger = Lifecycle::new(1000, Some(2000), 0);
    assert!(ledger.add_slot("m", WorkerStatus::Ready, false, 0));
    (registry, ledger)
}

fn entry(has_tokenizer: bool) -> ModelEntry {
    ModelEntry {
        id: "m".to_string(),
        model_path: "/models/m".to_string(),
        draft_path: None,
        socket_path: "/run/m.sock".to_string(),
        config: ModelConfig {
            id: "m".to_string(),
            path: "/models/m".to_string(),
            worker: WorkerKind::Auto,
            pinned: false,
            ttl_seconds: 0,
            speculative: None,
        },
        worker_kind: if has_tokenizer {
            WorkerKind::Rust
        } else {
            WorkerKind::Python
        },
        has_tokenizer,
        has_template: has_tokenizer,
        created_unix: 3,
    }
}

fn ask(model: &str, role: &str) -> ChatCompletionRequest {
    ChatCompletionRequest {
        model: model.to_string(),
        messages: vec![RequestMessage {
            role: role.to_string(),
            content: Some(MessageContent::Text("hi".to_string())),
            name: None,
        }],
        stream: false,
        stream_options: None,
        temperature: None,
        top_p: None,
        max_tokens: None,
        max_completion_tokens: None,
        stop: None,
        seed: None,
        presence_penalty: None,
        frequency_penalty: None,
        n: None,
        logprobs: false,
        top_logprobs: None,
        tools: None,
        tool_choice: None,
        response_format: None,
        user: None,
    }
}

fn finished(finish_reason: FinishReason) -> Finished {
    Finished {
        finish_reason,
        prompt_tokens: 5,
        completion_tokens: 9,
        error_code: WorkerErrorCode::Unspecified,
        error_detail: String::new(),
        matched_stop: String::new(),
    }
}

fn head() -> ResponseHead {
    ResponseHead {
        id: "chatcmpl-1".to_string(),
        created: 7,
        model: "m".to_string(),
    }
}

fn released(text: &str, hit: Option<&str>) -> Option<Result<Released, String>> {
    Some(Ok(Released {
        text: text.to_string(),
        hit: hit.map(|h| h.to_string()),
    }))
}

fn parsed(item: &ChatItem) -> Value {
    serde_json::from_str(&item.data()).expect("json")
}

#[test]
fn requests_pass_the_gates_in_order() {
    let (registry, mut ledger) = state();
    let (opened, command) = open_chat(&registry, &mut ledger, &ask("m", "user"), 4);
    let (at, validated) = opened.expect("open");
    assert_eq!(at, 0);
    assert_eq!(validated.messages.len(), 1);
    assert!(command.is_none());

    let (opened, _) = open_chat(&registry, &mut ledger, &ask("ghost", "user"), 4);
    assert_eq!(opened.expect_err("unknown").status, 404);
    // An unknown model is named before a bad message is.
    let (opened, _) = open_chat(&registry, &mut ledger, &ask("ghost", "robot"), 4);
    assert_eq!(opened.expect_err("unknown").status, 404);
    let (opened, _) = open_chat(&registry, &mut ledger, &ask("m", "robot"), 4);
    assert_eq!(opened.expect_err("bad role").status, 400);

    // A parked model is woken, and the client is told to come back.
    ledger.set_status(
        "m",
        WorkerStatus::Unloaded {
            reason: UnloadReason::IdleTtl,
        },
    );
    let (found, command) = ready_entry(&registry, &mut ledger, "m", 5);
    assert_eq!(found.expect_err("parked").status, 503);
    assert_eq!(command, Some(Command::Load));

    ledger.set_status("m", WorkerStatus::Failed);
    let (found, command) = ready_entry(&registry, &mut ledger, "m", 5);
    let e = found.expect_err("failed");
    assert_eq!((e.status, e.code), (502, "worker_failed"));
    assert!(command.is_none());
}

#[test]
fn memory_admission_precedes_validation() {
    let (registry, mut ledger) = state();
    ledger.set_pool_commitment("m", 5000);
    let e = admit_memory(&mut ledger, "m").expect_err("over budget");
    assert_eq!((e.status, e.code), (503, "insufficient_memory"));
    let (opened, _) = open_chat(&registry, &mut ledger, &ask("m", "robot"), 4);
    assert_eq!(opened.expect_err("over budget").code, "insufficient_memory");
}

#[test]
fn prompts_fail_with_their_reason() {
    assert_eq!(rendered_prompt(Ok("p".to_string())).expect("prompt"), "p");
    let e = rendered_prompt(Err("bad role".to_string())).expect_err("template");
    assert_eq!(e.message, "chat template rejected messages: bad role");
    assert_eq!(e.status, 400);
    assert_eq!(encoded_prompt(Ok(vec![1, 2])).expect("ids"), vec![1, 2]);
    let e = encoded_prompt(Err(EncodeFailure::Local("x".to_string()))).expect_err("local");
    assert_eq!((e.status, e.message.as_str()), (500, "prompt tokenization failed: x"));
    let e = encoded_prompt(Err(EncodeFailure::Worker(RpcStatus {
        code: 14,
        message: "gone".to_string(),
    })))
    .expect_err("worker");
    assert_eq!((e.status, e.code), (502, "worker_crashed"));
}

#[test]
fn templates_and_formats_are_required() {
    assert!(require_template(&entry(true), "chat completions").is_ok());
    let e = require_template(&entry(false), "chat completions").expect_err("none");
    assert_eq!(
        e.message,
        "model 'm' has no chat template; chat completions are unavailable for it"
    );
    assert!(require_tool_format("m", true, true).is_ok());
    assert!(require_tool_format("m", false, false).is_ok());
    let e = require_tool_format("m", true, false).expect_err("format");
    assert!(e.message.contains("no known tool-call format"));
}

#[test]
fn plans_carry_the_request() {
    let mut request = ask("m", "user");
    request.stop = Some(kiln_gateway::openai::StopSpec::One("END".to_string()));
    let v = request.validate().expect("valid");
    // The gateway matches stops itself for a model it detokenizes.
    let plan = plan_chat(&v, &entry(true), "r-1", vec![1, 2, 3], 10, false, false).expect("plan");
    assert_eq!(plan.request_id, "r-1");
    assert_eq!(plan.token_ids, vec![1, 2, 3]);
    assert_eq!(plan.max_tokens, 7);
    assert!(plan.stop_strings.is_empty());
    let plan = plan_chat(&v, &entry(false), "r-1", vec![1], 0, false, false).expect("plan");
    assert_eq!(plan.stop_strings, vec!["END"]);

    let e = plan_chat(&v, &entry(true), "r", vec![], 10, false, false).expect_err("empty");
    assert_eq!(e.message, "rendered prompt is empty");
    let e = plan_chat(&v, &entry(true), "r", vec![1; 10], 10, true, false).expect_err("long");
    assert_eq!(e.code, "context_length_exceeded");
    let e = plan_chat(&v, &entry(true), "r", vec![1], 10, true, false).expect_err("grammar");
    assert!(e.message.contains("structured output"));
    assert!(plan_chat(&v, &entry(true), "r", vec![1], 10, true, true).is_ok());
}

#[test]
fn ids_are_fresh_and_shaped() {
    assert_eq!(response_id("chatcmpl-", "0a-1b-2c"), "chatcmpl-0a1b2c");
    let a = new_call_id();
    let b = new_call_id();
    assert_ne!(a, b);
    assert_eq!(a.len(), 37);
    assert!(a.starts_with("call_"));
    assert!(a[5..].chars().all(|c| c.is_ascii_hexdigit()));
}

#[test]
fn streams_end_with_done_or_an_error() {
    match classify_finished(finished(FinishReason::Length), false) {
        StreamEnd::Done { finish_reason, .. } => assert_eq!(finish_reason, "length"),
        other => panic!("{other:?}"),
    }
    // A match on the gateway's side wins over whatever the worker reports.
    match classify_finished(finished(FinishReason::Cancelled), true) {
        StreamEnd::Done { finish_reason, .. } => assert_eq!(finish_reason, "stop"),
        other => panic!("{other:?}"),
    }
    let failed = |f: Finished| -> ApiError {
        match classify_finished(f, false) {
            StreamEnd::Failed(e) => e,
            other => panic!("{other:?}"),
        }
    };
    assert_eq!(
        failed(finished(FinishReason::Cancelled)).message,
        "request was cancelled"
    );
    assert_eq!(
        failed(finished(FinishReason::PreemptedFatal)).message,
        "request could not be completed (preempted); retry"
    );
    let mut broken = finished(FinishReason::Error);
    broken.error_code = WorkerErrorCode::CtxOverflow;
    assert_eq!(failed(broken).status, 400);
}

#[test]
fn worker_failures_are_told_apart() {
    let e = StreamFailure::Closed.error();
    assert!(e.message.contains("ended without a result"));
    let e = StreamFailure::TimedOut {
        scope: TimeoutScope::Total,
        secs: 3,
    }
    .error();
    assert_eq!(e.status, 504);
    let e = StreamFailure::Rpc(RpcStatus {
        code: 14,
        message: "gone".to_string(),
    })
    .error();
    assert_eq!(e.status, 502);
    let items = fail_stream(e);
    assert_eq!(items.len(), 1);
    assert_eq!(parsed(&items[0])["error"]["code"], "worker_crashed");
}

#[test]
fn nothing_follows_a_stop_match() {
    let mut p = TextPipeline::for_entry(&entry(true));
    assert!(p.wants_decoding());
    let step = p.step(String::new(), 2, released("Hello", None)).expect("step");
    assert_eq!(step, ("Hello".to_string(), false));
    let step = p.step(String::new(), 3, released(" wor", Some("END"))).expect("step");
    assert_eq!(step, (" wor".to_string(), true));
    assert!(p.stop_matched());
    assert!(!p.wants_decoding());
    // Later tokens bring nothing, and the match is reported once.
    let step = p.step(String::new(), 4, None).expect("step");
    assert_eq!(step, (String::new(), false));
    assert_eq!(p.finish(None).expect("finish"), "");
    assert_eq!(p.matched_stop().as_deref(), Some("END"));
    let mut f = finished(FinishReason::Cancelled);
    p.apply_usage(&mut f);
    assert_eq!(f.completion_tokens, 5);
}

#[test]
fn worker_text_passes_through() {
    let mut p = TextPipeline::for_entry(&entry(false));
    assert!(!p.wants_decoding());
    assert_eq!(p.push("abc".to_string(), 9, None).expect("push"), "abc");
    assert_eq!(p.finish(None).expect("finish"), "");
    assert!(!p.stop_matched());
    let mut f = finished(FinishReason::Stop);
    p.apply_usage(&mut f);
    assert_eq!(f.completion_tokens, 9);
}

#[test]
fn completed_calls_change_the_reason() {
    let mut route = ToolRoute::new(true);
    assert_eq!(route.adjust_reason("stop"), "stop");
    route.push("<call>".to_string(), call_events());
    assert_eq!(route.adjust_reason("stop"), "tool_calls");
    assert_eq!(route.adjust_reason("length"), "length");
}

fn call_events() -> Vec<ToolEvent> {
    vec![
        ToolEvent::CallStart {
            index: 0,
            name: "f".to_string(),
        },
        ToolEvent::CallArgs {
            index: 0,
            delta: "{\"a\"".to_string(),
        },
        ToolEvent::CallArgs {
            index: 0,
            delta: ":1}".to_string(),
        },
        ToolEvent::CallEnd { index: 0 },
    ]
}

#[test]
fn chat_streams_run_from_role_to_done() {
    let (mut stream, first) = ChatStream::open(head(), &entry(true), false, true);
    let body = parsed(&first);
    assert_eq!(body["object"], "chat.completion.chunk");
    assert_eq!(body["choices"][0]["delta"]["role"], "assistant");
    assert!(body["usage"].is_null());
    let text = match stream.on_tokens(String::new(), 2, released("Hi", None)) {
        ChunkStep::Route { text, cancel } => {
            assert!(!cancel);
            text
        }
        other => panic!("{other:?}"),
    };
    let items = stream.on_routed(text, vec![]);
    assert_eq!(items.len(), 1);
    assert_eq!(parsed(&items[0])["choices"][0]["delta"]["content"], "Hi");
    let tail = stream
        .on_tail(Some(Ok(TailRelease {
            text: String::new(),
            hit: None,
            held: "!".to_string(),
        })))
        .expect("tail");
    assert_eq!(tail, "!");
    let items = stream.on_routed(tail, vec![]);
    assert_eq!(parsed(&items[0])["choices"][0]["delta"]["content"], "!");
    let items = stream.end(finished(FinishReason::Stop));
    assert_eq!(items.len(), 3);
    assert_eq!(parsed(&items[0])["choices"][0]["finish_reason"], "stop");
    let usage = parsed(&items[1]);
    assert_eq!(usage["choices"].as_array().map(|c| c.len()), Some(0));
    assert_eq!(usage["usage"]["total_tokens"], 14);
    assert_eq!(items[2].data(), "[DONE]");
}

#[test]
fn a_failed_stream_has_no_end_marker() {
    let (mut stream, _) = ChatStream::open(head(), &entry(true), false, false);
    match stream.on_tokens(String::new(), 1, Some(Err("bad utf-8".to_string()))) {
        ChunkStep::Fail(e) => assert!(e.message.contains("bad utf-8")),
        other => panic!("{other:?}"),
    }
    let items = stream.end(finished(FinishReason::Cancelled));
    assert_eq!(items.len(), 1);
    assert_eq!(
        parsed(&items[0])["error"]["message"],
        "request was cancelled"
    );
}

#[test]
fn streamed_calls_and_collected_calls_agree() {
    let (mut stream, _) = ChatStream::open(head(), &entry(true), true, false);
    let items = stream.on_routed("raw".to_string(), call_events());
    // The end of a call has no chunk of its own.
    assert_eq!(items.len(), 3);
    let start = parsed(&items[0]);
    let call = &start["choices"][0]["delta"]["tool_calls"][0];
    assert_eq!(call["index"], 0);
    assert_eq!(call["type"], "function");
    assert_eq!(call["function"]["name"], "f");
    let streamed: String = items
        .iter()
        .map(|i| {
            parsed(i)["choices"][0]["delta"]["tool_calls"][0]["function"]["arguments"]
                .as_str()
                .expect("arguments")
                .to_string()
        })
        .collect();
    let items = stream.end(finished(FinishReason::Stop));
    assert_eq!(
        parsed(&items[0])["choices"][0]["finish_reason"],
        "tool_calls"
    );

    let mut collected = ChatCollector::open(head(), &entry(true), true);
    assert!(collected.on_routed("raw".to_string(), call_events()));
    let body = collected
        .end(finished(FinishReason::Stop))
        .expect("response")
        .to_json();
    let message = &body["choices"][0]["message"];
    assert_eq!(message["tool_calls"][0]["function"]["arguments"], streamed.as_str());
    assert_eq!(streamed, "{\"a\":1}");
    assert_eq!(body["choices"][0]["finish_reason"], "tool_calls");
    assert!(message["content"].is_null());
    assert!(message["tool_calls"][0]["id"]
        .as_str()
        .expect("id")
        .starts_with("call_"));
}

#[test]
fn responses_are_collected() {
    let mut collected = ChatCollector::open(head(), &entry(true), false);
    for piece in ["Hel", "lo"] {
        match collected.on_tokens(String::new(), 1, released(piece, None)) {
            ChunkStep::Route { text, .. } => assert!(collected.on_routed(text, vec![])),
            other => panic!("{other:?}"),
        }
    }
    let tail = collected
        .on_tail(Some(Ok(TailRelease {
            text: "!".to_string(),
            hit: None,
            held: String::new(),
        })))
        .expect("tail");
    assert!(collected.on_routed(tail, vec![]));
    let body = collected
        .end(finished(FinishReason::Length))
        .expect("response")
        .to_json();
    assert_eq!(body["id"], "chatcmpl-1");
    assert_eq!(body["object"], "chat.completion");
    assert_eq!(body["choices"][0]["message"]["content"], "Hello!");
    assert_eq!(body["choices"][0]["finish_reason"], "length");
    assert_eq!(body["usage"]["prompt_tokens"], 5);

    let mut strays = ChatCollector::open(head(), &entry(true), true);
    let stray = vec![ToolEvent::CallArgs {
        index: 3,
        delta: "x".to_string(),
    }];
    assert!(!strays.on_routed(String::new(), stray));
    let e = strays
        .end(finished(FinishReason::Cancelled))
        .expect_err("cancelled");
    assert_eq!(e.message, "request was cancelled");
}

fn completion(model: &str) -> CompletionRequest {
    CompletionRequest {
        model: model.to_string(),
        prompt: Some(PromptSpec::Text("once".to_string())),
        suffix: None,
        stream: false,
        stream_options: None,
        temperature: None,
        top_p: None,
        max_tokens: None,
        stop: None,
        seed: None,
        presence_penalty: None,
        frequency_penalty: None,
        n: None,
        best_of: None,
        echo: false,
        logprobs: None,
        user: None,
    }
}

#[test]
fn text_completions_use_the_same_machinery() {
    let (registry, mut ledger) = state();
    let (opened, _) = open_completion(&registry, &mut ledger, &completion("ghost"), 4);
    assert_eq!(opened.expect_err("unknown").status, 404);
    let (opened, command) = open_completion(&registry, &mut ledger, &completion("m"), 4);
    let (at, v) = opened.expect("open");
    assert_eq!(at, 0);
    assert!(command.is_none());
    let plan = plan_completion(&v, &entry(true), "r", vec![1, 2], 100).expect("plan");
    assert_eq!(plan.max_tokens, 16);
    let e = plan_completion(&v, &entry(true), "r", vec![], 100).expect_err("empty");
    assert_eq!(e.message, "prompt tokenized to no tokens");
    let e = plan_completion(&v, &entry(true), "r", vec![1; 9], 8).expect_err("long");
    assert_eq!(e.code, "context_length_exceeded");
}

#[test]
fn text_completions_are_framed() {
    let p = TextPipeline::for_entry(&entry(false));
    assert!(text_delta(&head(), String::new(), false).is_none());
    let c = text_delta(&head(), "a".to_string(), false).expect("chunk").to_json();
    assert_eq!(c["object"], "text_completion");
    assert_eq!(c["choices"][0]["text"], "a");
    assert!(c["choices"][0]["finish_reason"].is_null());
    let body = finish_text(&head(), "abc".to_string(), &p, finished(FinishReason::Stop))
        .expect("body")
        .to_json();
    assert_eq!(body["choices"][0]["text"], "abc");
    assert_eq!(body["choices"][0]["finish_reason"], "stop");
    assert_eq!(body["usage"]["total_tokens"], 14);
    let e = finish_text(&head(), String::new(), &p, finished(FinishReason::Cancelled));
    assert_eq!(e.expect_err("cancelled").message, "request was cancelled");

    let items = finish_text_stream(&head(), &p, finished(FinishReason::Length), true);
    assert_eq!(items.len(), 3);
    let last: Value = serde_json::from_str(&items[0].data()).expect("json");
    assert_eq!(last["choices"][0]["finish_reason"], "length");
    let usage: Value = serde_json::from_str(&items[1].data()).expect("json");
    assert_eq!(usage["usage"]["completion_tokens"], 9);
    assert_eq!(items[2].data(), "[DONE]");
    let items = finish_text_stream(&head(), &p, finished(FinishReason::Unspecified), true);
    assert_eq!(items.len(), 1);
}
