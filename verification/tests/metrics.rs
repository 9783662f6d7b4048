use kiln_gateway::error::ApiError;
use kiln_gateway::lifecycle::AdmitConstraint;
use kiln_gateway::lifecycle::MemoryDenial;
use kiln_gateway::lifecycle::MemoryReport;
use kiln_gateway::mcp::CallOutcome;
use kiln_gateway::mcp::McpError;
use kiln_gateway::mcp::McpEvent;
use kiln_gateway::metrics::Endpoint;
use kiln_gateway::metrics::Metrics;
use kiln_gateway::metrics::RateLimitKind;
use kiln_gateway::metrics::WorkerStats;
use kiln_gateway::sysmem::SystemMemory;
use kiln_gateway::timeout::TimeoutScope;
use kiln_gateway::worker::FinishReason;
use kiln_gateway::worker::Finished;
use kiln_gateway::worker::WorkerErrorCode;

#[test]
fn registers_and_encodes() {
    let mut metrics = Metrics::new().expect("metrics build");
    metrics.record_http("POST", "/v1/chat/completions", 200, 1_500_000);
    metrics.set_up("m", true);
    let text = metrics.encode().expect("encode");
    assert!(text.contains("kiln_http_requests_total"), "{text}");
    assert!(
        text.contains("method=\"POST\",path=\"/v1/chat/completions\",status=\"200\""),
        "{text}"
    );
    assert!(text.contains("kiln_worker_up{model=\"m\"} 1"), "{text}");
    metrics.set_up("m", false);
    let text = metrics.encode().expect("encode");
    assert!(text.contains("kiln_worker_up{model=\"m\"} 0"), "{text}");
}

#[test]
fn memory_gauges_record_and_clear() {
    let mut metrics = Metrics::new().expect("metrics build");
    metrics.set_memory(1000, 700, 50);
    let report = MemoryReport {
        weights_bytes: 500,
        kv_pool_allocated_bytes: 100,
        kv_pool_used_bytes: 0,
        mlx_active_bytes: 620,
        mlx_cache_bytes: 80,
        process_rss_bytes: 900,
    };
    metrics
        .worker_memory
        .record(&mut metrics.store, "m", &report, 700);
    metrics.record_unload("m", "evicted");
    let text = metrics.encode().expect("encode");
    for needle in [
        "kiln_memory_budget_bytes 1000",
        "kiln_memory_used_bytes 700",
        "kiln_memory_reserved_bytes 50",
        "kiln_worker_memory_bytes{model=\"m\"} 700",
        "kiln_worker_weights_bytes{model=\"m\"} 500",
        "kiln_worker_mlx_cache_bytes{model=\"m\"} 80",
        "kiln_worker_unloads_total{model=\"m\",reason=\"evicted\"} 1",
    ] {
        assert!(text.contains(needle), "missing {needle} in:\n{text}");
    }
    metrics.worker_memory.clear(&mut metrics.store, "m");
    let text = metrics.encode().expect("encode");
    assert!(
        text.contains("kiln_worker_memory_bytes{model=\"m\"} 0"),
        "{text}"
    );
}

#[test]
fn worker_stats_reexport_with_model_label() {
    let mut metrics = Metrics::new().expect("metrics build");
    let stats = WorkerStats {
        requests_total: 7,
        requests_failed: 0,
        requests_cancelled: 0,
        requests_preempted: 0,
        tokens_prefilled_total: 0,
        tokens_generated_total: 0,
        prefix_tokens_reused_total: 2016,
        kv_blocks_allocated: 0,
        kv_blocks_free: 448,
        ssd_blocks_stored: 0,
        ssd_reads_total: 0,
        ssd_writes_total: 63,
        ssd_fingerprint_rejects_total: 0,
        spec_tokens_proposed_total: 0,
        spec_tokens_accepted_total: 0,
        engine_steps_total: 1234,
    };
    metrics.worker_stats.record(&mut metrics.store, "m", &stats);
    let text = metrics.encode().expect("encode");
    for needle in [
        "kiln_worker_requests_total{model=\"m\"} 7",
        "kiln_worker_prefix_tokens_reused_total{model=\"m\"} 2016",
        "kiln_worker_kv_blocks_free{model=\"m\"} 448",
        "kiln_worker_ssd_writes_total{model=\"m\"} 63",
        "kiln_worker_engine_steps_total{model=\"m\"} 1234",
    ] {
        assert!(text.contains(needle), "missing {needle} in:\n{text}");
    }
}

#[test]
fn requests_are_counted_by_endpoint_and_outcome() {
    let mut metrics = Metrics::new().expect("metrics build");
    metrics.record_outcome(Endpoint::Messages, "m", "client_error");
    metrics.record_outcome(Endpoint::Completions, "m", "unavailable");
    let finished = Finished {
        finish_reason: FinishReason::Stop,
        prompt_tokens: 5,
        completion_tokens: 3,
        error_code: WorkerErrorCode::Unspecified,
        error_detail: String::new(),
        matched_stop: String::new(),
    };
    metrics.record_ok(Endpoint::Chat, "m", &finished);
    metrics.record_ok(Endpoint::Chat, "m", &finished);
    metrics.record_restart("m");
    let text = metrics.encode().expect("encode");
    for needle in [
        "kiln_messages_total{model=\"m\",outcome=\"client_error\"} 1",
        "kiln_completions_total{model=\"m\",outcome=\"unavailable\"} 1",
        "kiln_chat_completions_total{model=\"m\",outcome=\"ok\"} 2",
        "kiln_prompt_tokens_total{model=\"m\"} 10",
        "kiln_completion_tokens_total{model=\"m\"} 6",
        "kiln_worker_restarts_total{model=\"m\"} 1",
    ] {
        assert!(text.contains(needle), "missing {needle} in:\n{text}");
    }
}

fn has_line(text: &str, line: &str) -> bool {
    text.lines().any(|l| l == line)
}

#[test]
fn every_metric_has_its_line() {
    let mut metrics = Metrics::new().expect("metrics build");
    let text = metrics.encode().expect("encode");
    assert!(has_line(&text, "kiln_memory_budget_bytes 0"), "{text}");
    assert!(has_line(&text, "kiln_system_pressure_level 0"), "{text}");
    assert!(!text.contains("kiln_worker_up"), "{text}");

    metrics.set_memory(u64::MAX, 1 << 53, 3);
    metrics.set_system(SystemMemory {
        available_bytes: 4096,
        swap_used_bytes: 17,
        pressure_level: 2,
    });
    metrics.record_http("GET", "/a\"b\\c\nd", 404, 10);
    let text = metrics.encode().expect("encode");
    for line in [
        "# HELP kiln_memory_used_bytes Bytes currently charged against the machine budget",
        "# TYPE kiln_memory_used_bytes gauge",
        "# TYPE kiln_http_requests_total counter",
        "# TYPE kiln_http_request_duration_seconds histogram",
        "kiln_memory_used_bytes 9007199254740992",
        "kiln_memory_reserved_bytes 3",
        "kiln_system_available_bytes 4096",
        "kiln_system_swap_used_bytes 17",
        "kiln_system_pressure_level 2",
        "kiln_http_requests_total{method=\"GET\",path=\"/a\\\"b\\\\c\\nd\",status=\"404\"} 1",
    ] {
        assert!(has_line(&text, line), "missing {line} in:\n{text}");
    }
    // Beyond 2^53 the number is a float's.
    assert!(
        has_line(&text, "kiln_memory_budget_bytes 9223372036854776000"),
        "{text}"
    );
}

#[test]
fn refusals_and_losses_are_counted() {
    let mut metrics = Metrics::new().expect("metrics build");
    let denial = MemoryDenial {
        needed_bytes: 400,
        headroom_bytes: 100,
        constraint: AdmitConstraint::Budget,
    };
    metrics.record_refusal("m", &ApiError::insufficient_memory("m", denial));
    metrics.record_refusal("m", &ApiError::model_loading("m"));
    metrics.record_uncovered("m", 0);
    assert!(!metrics
        .encode()
        .expect("encode")
        .contains("kiln_admission_uncovered_bytes_total"));
    metrics.record_uncovered("m", 250);
    metrics.record_uncovered("m", 400);
    metrics.record_load_reject(AdmitConstraint::SystemPressure);
    metrics.record_load_reject(AdmitConstraint::Budget);
    metrics.record_rate_limited("alice", RateLimitKind::Requests);
    metrics.record_rate_limited("alice", RateLimitKind::Tokens);
    metrics.record_rate_limited("alice", RateLimitKind::Tokens);
    metrics.record_timeout(TimeoutScope::Ttft);
    metrics.record_timeout(TimeoutScope::Total);
    let text = metrics.encode().expect("encode");
    for line in [
        "kiln_admission_rejects_total{model=\"m\"} 1",
        "kiln_admission_uncovered_bytes_total{model=\"m\"} 650",
        "kiln_load_rejects_total{constraint=\"system_pressure\"} 1",
        "kiln_load_rejects_total{constraint=\"budget\"} 1",
        "kiln_rate_limited_total{key=\"alice\",limit=\"requests\"} 1",
        "kiln_rate_limited_total{key=\"alice\",limit=\"tokens\"} 2",
        "kiln_timeout_total{scope=\"ttft\"} 1",
        "kiln_timeout_total{scope=\"total\"} 1",
    ] {
        assert!(has_line(&text, line), "missing {line} in:\n{text}");
    }
}

#[test]
fn mcp_servers_are_shown() {
    let mut metrics = Metrics::new().expect("metrics build");
    metrics.record_mcp("fs", &McpEvent::Failed(McpError::Closed));
    let text = metrics.encode().expect("encode");
    assert!(has_line(&text, "kiln_mcp_up{server=\"fs\"} 0"), "{text}");
    metrics.record_mcp(
        "fs",
        &McpEvent::Connected {
            tools: vec![],
            protocol_version: "2025-06-18".to_string(),
        },
    );
    metrics.record_mcp("fs", &McpEvent::Woken);
    let text = metrics.encode().expect("encode");
    for line in [
        "kiln_mcp_up{server=\"fs\"} 1",
        "kiln_mcp_connect_attempts_total{outcome=\"error\",server=\"fs\"} 1",
        "kiln_mcp_connect_attempts_total{outcome=\"ok\",server=\"fs\"} 1",
    ] {
        assert!(has_line(&text, line), "missing {line} in:\n{text}");
    }
    metrics.record_mcp("fs", &McpEvent::Lost);
    metrics.record_tool_call("fs", "read", CallOutcome::Success);
    metrics.record_tool_call("fs", "read", CallOutcome::Timeout);
    let text = metrics.encode().expect("encode");
    for line in [
        "kiln_mcp_up{server=\"fs\"} 0",
        "kiln_mcp_tool_calls_total{outcome=\"ok\",server=\"fs\",tool=\"read\"} 1",
        "kiln_mcp_tool_calls_total{outcome=\"timeout\",server=\"fs\",tool=\"read\"} 1",
    ] {
        assert!(has_line(&text, line), "missing {line} in:\n{text}");
    }
}
