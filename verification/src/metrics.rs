//! Metrics: the families the gateway exports, and what its events do to them.
//! Label cardinality is bounded: a path is the matched route pattern, never the
//! raw URI, and a model is a configured id.
//!
//! The families mirrored from workers hold worker-lifetime totals, so they are
//! gauges: they reset when a worker restarts.

use crate::error::ApiError;
use crate::lifecycle::AdmitConstraint;
use crate::lifecycle::MemoryReport;
use crate::mcp::CallOutcome;
use crate::mcp::McpEvent;
use crate::metric_store;
use crate::metric_store::FamilyKind;
use crate::metric_store::MetricStore;
use crate::sysmem::SystemMemory;
use crate::text;
use crate::timeout::TimeoutScope;
use crate::worker::Finished;
use vstd::prelude::*;
use vstd::string::*;

verus! {

/// The description of a family.
struct FamilyLine {
    kind: FamilyKind,
    name: &'static str,
    help: &'static str,
    labels: Vec<&'static str>,
}

impl View for FamilyLine {
    type V = metric_store::Family;

    closed spec fn view(&self) -> metric_store::Family {
        metric_store::family(
            self.kind,
            self.name@,
            self.help@,
            metric_store::labels_view(self.labels@),
        )
    }
}

/// What a list of lines describes.
spec fn lines_view(lines: Seq<FamilyLine>) -> Seq<metric_store::Family> {
    Seq::new(lines.len(), |i: int| lines[i]@)
}

fn labels0() -> (r: Vec<&'static str>)
    ensures
        metric_store::labels_view(r@) == Seq::<Seq<char>>::empty(),
{
    let v: Vec<&'static str> = Vec::new();
    assert(metric_store::labels_view(v@) =~= Seq::<Seq<char>>::empty());
    v
}

fn labels1<'a>(a: &'a str) -> (r: Vec<&'a str>)
    ensures
        r@.len() == 1,
        metric_store::labels_view(r@) == seq![a@],
{
    let mut v: Vec<&'a str> = Vec::new();
    v.push(a);
    assert(metric_store::labels_view(v@) =~= seq![a@]);
    v
}

fn labels2<'a>(a: &'a str, b: &'a str) -> (r: Vec<&'a str>)
    ensures
        r@.len() == 2,
        metric_store::labels_view(r@) == seq![a@, b@],
{
    let mut v: Vec<&'a str> = Vec::new();
    v.push(a);
    v.push(b);
    assert(metric_store::labels_view(v@) =~= seq![a@, b@]);
    v
}

fn labels3<'a>(a: &'a str, b: &'a str, c: &'a str) -> (r: Vec<&'a str>)
    ensures
        r@.len() == 3,
        metric_store::labels_view(r@) == seq![a@, b@, c@],
{
    let mut v: Vec<&'a str> = Vec::new();
    v.push(a);
    v.push(b);
    v.push(c);
    assert(metric_store::labels_view(v@) =~= seq![a@, b@, c@]);
    v
}

/// One line of a list.
fn describe(
    lines: &mut Vec<FamilyLine>,
    kind: FamilyKind,
    name: &'static str,
    help: &'static str,
    labels: Vec<&'static str>,
)
    ensures
        lines_view(final(lines)@) == lines_view(old(lines)@).push(
            metric_store::family(kind, name@, help@, metric_store::labels_view(labels@)),
        ),
{
    lines.push(FamilyLine { kind, name, help, labels });
    assert(lines_view(lines@) =~= lines_view(old(lines)@).push(
        metric_store::family(kind, name@, help@, metric_store::labels_view(labels@)),
    ));
}

/// The families of what the gateway itself does.
pub open spec fn gateway_families() -> Seq<metric_store::Family> {
    seq![
        metric_store::family(
            FamilyKind::Counters,
            "kiln_http_requests_total"@,
            "HTTP requests handled, by method, matched route, and status"@,
            seq!["method"@, "path"@, "status"@],
        ),
        metric_store::family(
            FamilyKind::Histograms,
            "kiln_http_request_duration_seconds"@,
            "HTTP request latency by matched route"@,
            seq!["path"@],
        ),
        metric_store::family(
            FamilyKind::Counters,
            "kiln_chat_completions_total"@,
            "Chat completion requests by model and outcome"@,
            seq!["model"@, "outcome"@],
        ),
        metric_store::family(
            FamilyKind::Counters,
            "kiln_completions_total"@,
            "Legacy text completion requests by model and outcome"@,
            seq!["model"@, "outcome"@],
        ),
        metric_store::family(
            FamilyKind::Counters,
            "kiln_messages_total"@,
            "Anthropic Messages requests by model and outcome"@,
            seq!["model"@, "outcome"@],
        ),
        metric_store::family(
            FamilyKind::Counters,
            "kiln_prompt_tokens_total"@,
            "Prompt tokens processed per model"@,
            seq!["model"@],
        ),
        metric_store::family(
            FamilyKind::Counters,
            "kiln_completion_tokens_total"@,
            "Completion tokens generated per model"@,
            seq!["model"@],
        ),
        metric_store::family(
            FamilyKind::Counters,
            "kiln_worker_restarts_total"@,
            "Worker crash-restarts per model"@,
            seq!["model"@],
        ),
        metric_store::family(
            FamilyKind::Gauges,
            "kiln_worker_up"@,
            "1 while the model's worker is Ready, else 0"@,
            seq!["model"@],
        ),
        metric_store::family(
            FamilyKind::Counters,
            "kiln_worker_unloads_total"@,
            "Deliberate worker unloads per model and reason (evicted | idle_ttl | over_budget)"@,
            seq!["model"@, "reason"@],
        ),
        metric_store::family(
            FamilyKind::OneGauge,
            "kiln_memory_budget_bytes"@,
            "Machine memory budget for all workers"@,
            Seq::empty(),
        ),
        metric_store::family(
            FamilyKind::OneGauge,
            "kiln_memory_used_bytes"@,
            "Bytes currently charged against the machine budget"@,
            Seq::empty(),
        ),
    ]
}

fn gateway_list(lines: &mut Vec<FamilyLine>)
    ensures
        lines_view(final(lines)@) == lines_view(old(lines)@) + gateway_families(),
{
    let ghost before = lines_view(lines@);
    describe(
        lines,
        FamilyKind::Counters,
        "kiln_http_requests_total",
        "HTTP requests handled, by method, matched route, and status",
        labels3("method", "path", "status"),
    );
    describe(
        lines,
        FamilyKind::Histograms,
        "kiln_http_request_duration_seconds",
        "HTTP request latency by matched route",
        labels1("path"),
    );
    describe(
        lines,
        FamilyKind::Counters,
        "kiln_chat_completions_total",
        "Chat completion requests by model and outcome",
        labels2("model", "outcome"),
    );
    describe(
        lines,
        FamilyKind::Counters,
        "kiln_completions_total",
        "Legacy text completion requests by model and outcome",
        labels2("model", "outcome"),
    );
    describe(
        lines,
        FamilyKind::Counters,
        "kiln_messages_total",
        "Anthropic Messages requests by model and outcome",
        labels2("model", "outcome"),
    );
    describe(
        lines,
        FamilyKind::Counters,
        "kiln_prompt_tokens_total",
        "Prompt tokens processed per model",
        labels1("model"),
    );
    describe(
        lines,
        FamilyKind::Counters,
        "kiln_completion_tokens_total",
        "Completion tokens generated per model",
        labels1("model"),
    );
    describe(
        lines,
        FamilyKind::Counters,
        "kiln_worker_restarts_total",
        "Worker crash-restarts per model",
        labels1("model"),
    );
    describe(
        lines,
        FamilyKind::Gauges,
        "kiln_worker_up",
        "1 while the model's worker is Ready, else 0",
        labels1("model"),
    );
    describe(
        lines,
        FamilyKind::Counters,
        "kiln_worker_unloads_total",
        "Deliberate worker unloads per model and reason (evicted | idle_ttl | over_budget)",
        labels2("model", "reason"),
    );
    describe(
        lines,
        FamilyKind::OneGauge,
        "kiln_memory_budget_bytes",
        "Machine memory budget for all workers",
        labels0(),
    );
    describe(
        lines,
        FamilyKind::OneGauge,
        "kiln_memory_used_bytes",
        "Bytes currently charged against the machine budget",
        labels0(),
    );
    assert(lines_view(lines@) =~= before + gateway_families());
}

/// The families of what the gateway refuses or cannot account for, of the system's
/// memory, and of the MCP servers.
pub open spec fn alert_families() -> Seq<metric_store::Family> {
    seq![
        metric_store::family(
            FamilyKind::OneGauge,
            "kiln_memory_reserved_bytes"@,
            "Bytes reserved for pool growth that was admitted but not yet reported"@,
            Seq::empty(),
        ),
        metric_store::family(
            FamilyKind::OneGauge,
            "kiln_system_available_bytes"@,
            "Memory the system could give at the last probe"@,
            Seq::empty(),
        ),
        metric_store::family(
            FamilyKind::OneGauge,
            "kiln_system_swap_used_bytes"@,
            "Swap allocated by the system at the last probe"@,
            Seq::empty(),
        ),
        metric_store::family(
            FamilyKind::OneGauge,
            "kiln_system_pressure_level"@,
            "Memory pressure the kernel reported at the last probe"@,
            Seq::empty(),
        ),
        metric_store::family(
            FamilyKind::Counters,
            "kiln_admission_rejects_total"@,
            "Requests refused because their projected memory growth exceeds the headroom, per model"@,
            seq!["model"@],
        ),
        metric_store::family(
            FamilyKind::Counters,
            "kiln_admission_uncovered_bytes_total"@,
            "Pool bytes that materialized without a reservation that covers them, per model"@,
            seq!["model"@],
        ),
        metric_store::family(
            FamilyKind::Counters,
            "kiln_load_rejects_total"@,
            "Model loads refused, by the constraint that refused them"@,
            seq!["constraint"@],
        ),
        metric_store::family(
            FamilyKind::Counters,
            "kiln_rate_limited_total"@,
            "Requests refused by a rate limit, by API key and limit (requests | tokens)"@,
            seq!["key"@, "limit"@],
        ),
        metric_store::family(
            FamilyKind::Counters,
            "kiln_timeout_total"@,
            "Requests ended by a timeout, by the budget that expired (ttft | total)"@,
            seq!["scope"@],
        ),
        metric_store::family(
            FamilyKind::Gauges,
            "kiln_mcp_up"@,
            "1 while the MCP server is connected, else 0"@,
            seq!["server"@],
        ),
        metric_store::family(
            FamilyKind::Counters,
            "kiln_mcp_connect_attempts_total"@,
            "Connection attempts to MCP servers, by outcome (ok | error)"@,
            seq!["outcome"@, "server"@],
        ),
        metric_store::family(
            FamilyKind::Counters,
            "kiln_mcp_tool_calls_total"@,
            "Tool calls executed on MCP servers, by outcome"@,
            seq!["outcome"@, "server"@, "tool"@],
        ),
    ]
}

fn alert_list(lines: &mut Vec<FamilyLine>)
    ensures
        lines_view(final(lines)@) == lines_view(old(lines)@) + alert_families(),
{
    let ghost before = lines_view(lines@);
    describe(
        lines,
        FamilyKind::OneGauge,
        "kiln_memory_reserved_bytes",
        "Bytes reserved for pool growth that was admitted but not yet reported",
        labels0(),
    );
    describe(
        lines,
        FamilyKind::OneGauge,
        "kiln_system_available_bytes",
        "Memory the system could give at the last probe",
        labels0(),
    );
    describe(
        lines,
        FamilyKind::OneGauge,
        "kiln_system_swap_used_bytes",
        "Swap allocated by the system at the last probe",
        labels0(),
    );
    describe(
        lines,
        FamilyKind::OneGauge,
        "kiln_system_pressure_level",
        "Memory pressure the kernel reported at the last probe",
        labels0(),
    );
    describe(
        lines,
        FamilyKind::Counters,
        "kiln_admission_rejects_total",
        "Requests refused because their projected memory growth exceeds the headroom, per model",
        labels1("model"),
    );
    describe(
        lines,
        FamilyKind::Counters,
        "kiln_admission_uncovered_bytes_total",
        "Pool bytes that materialized without a reservation that covers them, per model",
        labels1("model"),
    );
    describe(
        lines,
        FamilyKind::Counters,
        "kiln_load_rejects_total",
        "Model loads refused, by the constraint that refused them",
        labels1("constraint"),
    );
    describe(
        lines,
        FamilyKind::Counters,
        "kiln_rate_limited_total",
        "Requests refused by a rate limit, by API key and limit (requests | tokens)",
        labels2("key", "limit"),
    );
    describe(
        lines,
        FamilyKind::Counters,
        "kiln_timeout_total",
        "Requests ended by a timeout, by the budget that expired (ttft | total)",
        labels1("scope"),
    );
    describe(
        lines,
        FamilyKind::Gauges,
        "kiln_mcp_up",
        "1 while the MCP server is connected, else 0",
        labels1("server"),
    );
    describe(
        lines,
        FamilyKind::Counters,
        "kiln_mcp_connect_attempts_total",
        "Connection attempts to MCP servers, by outcome (ok | error)",
        labels2("outcome", "server"),
    );
    describe(
        lines,
        FamilyKind::Counters,
        "kiln_mcp_tool_calls_total",
        "Tool calls executed on MCP servers, by outcome",
        labels3("outcome", "server", "tool"),
    );
    assert(lines_view(lines@) =~= before + alert_families());
}

/// The families of the workers' memory reports.
pub open spec fn memory_families() -> Seq<metric_store::Family> {
    seq![
        metric_store::family(
            FamilyKind::Gauges,
            "kiln_worker_memory_bytes"@,
            "Budgeted footprint of the worker: max(mlx active, weights + KV pool) + mlx cache"@,
            seq!["model"@],
        ),
        metric_store::family(
            FamilyKind::Gauges,
            "kiln_worker_weights_bytes"@,
            "Weight bytes held by the worker (target + draft)"@,
            seq!["model"@],
        ),
        metric_store::family(
            FamilyKind::Gauges,
            "kiln_worker_kv_pool_allocated_bytes"@,
            "Preallocated KV pool bytes (target + draft)"@,
            seq!["model"@],
        ),
        metric_store::family(
            FamilyKind::Gauges,
            "kiln_worker_mlx_active_bytes"@,
            "MLX active memory reported by the worker"@,
            seq!["model"@],
        ),
        metric_store::family(
            FamilyKind::Gauges,
            "kiln_worker_mlx_cache_bytes"@,
            "MLX buffer-cache memory reported by the worker"@,
            seq!["model"@],
        ),
        metric_store::family(
            FamilyKind::Gauges,
            "kiln_worker_process_rss_bytes"@,
            "Worker process resident set size"@,
            seq!["model"@],
        ),
    ]
}

fn memory_list(lines: &mut Vec<FamilyLine>)
    ensures
        lines_view(final(lines)@) == lines_view(old(lines)@) + memory_families(),
{
    let ghost before = lines_view(lines@);
    describe(
        lines,
        FamilyKind::Gauges,
        "kiln_worker_memory_bytes",
        "Budgeted footprint of the worker: max(mlx active, weights + KV pool) + mlx cache",
        labels1("model"),
    );
    describe(
        lines,
        FamilyKind::Gauges,
        "kiln_worker_weights_bytes",
        "Weight bytes held by the worker (target + draft)",
        labels1("model"),
    );
    describe(
        lines,
        FamilyKind::Gauges,
        "kiln_worker_kv_pool_allocated_bytes",
        "Preallocated KV pool bytes (target + draft)",
        labels1("model"),
    );
    describe(
        lines,
        FamilyKind::Gauges,
        "kiln_worker_mlx_active_bytes",
        "MLX active memory reported by the worker",
        labels1("model"),
    );
    describe(
        lines,
        FamilyKind::Gauges,
        "kiln_worker_mlx_cache_bytes",
        "MLX buffer-cache memory reported by the worker",
        labels1("model"),
    );
    describe(
        lines,
        FamilyKind::Gauges,
        "kiln_worker_process_rss_bytes",
        "Worker process resident set size",
        labels1("model"),
    );
    assert(lines_view(lines@) =~= before + memory_families());
}

/// The families of the workers' statistics.
pub open spec fn stat_families() -> Seq<metric_store::Family> {
    seq![
        metric_store::family(
            FamilyKind::Gauges,
            "kiln_worker_requests_total"@,
            "Requests accepted by the worker (worker lifetime)"@,
            seq!["model"@],
        ),
        metric_store::family(
            FamilyKind::Gauges,
            "kiln_worker_requests_failed_total"@,
            "Requests finished with an error (worker lifetime)"@,
            seq!["model"@],
        ),
        metric_store::family(
            FamilyKind::Gauges,
            "kiln_worker_requests_cancelled_total"@,
            "Requests cancelled (worker lifetime)"@,
            seq!["model"@],
        ),
        metric_store::family(
            FamilyKind::Gauges,
            "kiln_worker_requests_preempted_total"@,
            "Preemption events under memory pressure (worker lifetime)"@,
            seq!["model"@],
        ),
        metric_store::family(
            FamilyKind::Gauges,
            "kiln_worker_tokens_prefilled_total"@,
            "Prompt tokens prefilled (worker lifetime)"@,
            seq!["model"@],
        ),
        metric_store::family(
            FamilyKind::Gauges,
            "kiln_worker_tokens_generated_total"@,
            "Tokens generated (worker lifetime)"@,
            seq!["model"@],
        ),
        metric_store::family(
            FamilyKind::Gauges,
            "kiln_worker_prefix_tokens_reused_total"@,
            "Prompt tokens served from the radix prefix cache (worker lifetime)"@,
            seq!["model"@],
        ),
        metric_store::family(
            FamilyKind::Gauges,
            "kiln_worker_kv_blocks_allocated"@,
            "KV pool blocks currently owned by requests or the prefix cache"@,
            seq!["model"@],
        ),
        metric_store::family(
            FamilyKind::Gauges,
            "kiln_worker_kv_blocks_free"@,
            "KV pool blocks currently free"@,
            seq!["model"@],
        ),
        metric_store::family(
            FamilyKind::Gauges,
            "kiln_worker_ssd_blocks_stored"@,
            "KV blocks persisted in the SSD tier"@,
            seq!["model"@],
        ),
        metric_store::family(
            FamilyKind::Gauges,
            "kiln_worker_ssd_reads_total"@,
            "KV blocks loaded from the SSD tier (worker lifetime)"@,
            seq!["model"@],
        ),
        metric_store::family(
            FamilyKind::Gauges,
            "kiln_worker_ssd_writes_total"@,
            "KV blocks flushed to the SSD tier (worker lifetime)"@,
            seq!["model"@],
        ),
        metric_store::family(
            FamilyKind::Gauges,
            "kiln_worker_ssd_fingerprint_rejects_total"@,
            "SSD slabs/slots rejected by fingerprint or verification (worker lifetime)"@,
            seq!["model"@],
        ),
        metric_store::family(
            FamilyKind::Gauges,
            "kiln_worker_engine_steps_total"@,
            "Engine iterations (worker lifetime)"@,
            seq!["model"@],
        ),
    ]
}

fn stat_list(lines: &mut Vec<FamilyLine>)
    ensures
        lines_view(final(lines)@) == lines_view(old(lines)@) + stat_families(),
{
    let ghost before = lines_view(lines@);
    describe(
        lines,
        FamilyKind::Gauges,
        "kiln_worker_requests_total",
        "Requests accepted by the worker (worker lifetime)",
        labels1("model"),
    );
    describe(
        lines,
        FamilyKind::Gauges,
        "kiln_worker_requests_failed_total",
        "Requests finished with an error (worker lifetime)",
        labels1("model"),
    );
    describe(
        lines,
        FamilyKind::Gauges,
        "kiln_worker_requests_cancelled_total",
        "Requests cancelled (worker lifetime)",
        labels1("model"),
    );
    describe(
        lines,
        FamilyKind::Gauges,
        "kiln_worker_requests_preempted_total",
        "Preemption events under memory pressure (worker lifetime)",
        labels1("model"),
    );
    describe(
        lines,
        FamilyKind::Gauges,
        "kiln_worker_tokens_prefilled_total",
        "Prompt tokens prefilled (worker lifetime)",
        labels1("model"),
    );
    describe(
        lines,
        FamilyKind::Gauges,
        "kiln_worker_tokens_generated_total",
        "Tokens generated (worker lifetime)",
        labels1("model"),
    );
    describe(
        lines,
        FamilyKind::Gauges,
        "kiln_worker_prefix_tokens_reused_total",
        "Prompt tokens served from the radix prefix cache (worker lifetime)",
        labels1("model"),
    );
    describe(
        lines,
        FamilyKind::Gauges,
        "kiln_worker_kv_blocks_allocated",
        "KV pool blocks currently owned by requests or the prefix cache",
        labels1("model"),
    );
    describe(
        lines,
        FamilyKind::Gauges,
        "kiln_worker_kv_blocks_free",
        "KV pool blocks currently free",
        labels1("model"),
    );
    describe(
        lines,
        FamilyKind::Gauges,
        "kiln_worker_ssd_blocks_stored",
        "KV blocks persisted in the SSD tier",
        labels1("model"),
    );
    describe(
        lines,
        FamilyKind::Gauges,
        "kiln_worker_ssd_reads_total",
        "KV blocks loaded from the SSD tier (worker lifetime)",
        labels1("model"),
    );
    describe(
        lines,
        FamilyKind::Gauges,
        "kiln_worker_ssd_writes_total",
        "KV blocks flushed to the SSD tier (worker lifetime)",
        labels1("model"),
    );
    describe(
        lines,
        FamilyKind::Gauges,
        "kiln_worker_ssd_fingerprint_rejects_total",
        "SSD slabs/slots rejected by fingerprint or verification (worker lifetime)",
        labels1("model"),
    );
    describe(
        lines,
        FamilyKind::Gauges,
        "kiln_worker_engine_steps_total",
        "Engine iterations (worker lifetime)",
        labels1("model"),
    );
    assert(lines_view(lines@) =~= before + stat_families());
}

/// The family has a proper description, and its labels stand in the order in
/// which they are shown.
pub open spec fn described(f: metric_store::Family) -> bool {
    metric_store::describable(f) && metric_store::in_order(f.labels)
}

/// A description from its parts.
proof fn lemma_described(f: metric_store::Family)
    requires
        f.help.len() > 0,
        metric_store::is_name(f.name, true),
        labels_fit(f.labels),
    ensures
        described(f),
{
    let labels = f.labels;
    assert forall|i: int, j: int| 0 <= i < j < labels.len() implies metric_store::text_before(
        #[trigger] labels[i],
        #[trigger] labels[j],
    ) && labels[i] != labels[j] by {
        assert(labels[i].take(0) =~= labels[j].take(0));
        assert(metric_store::differs_from(labels[i], labels[j], 0));
    }
    assert forall|i: int, j: int| 0 <= i < labels.len() && 0 <= j < labels.len() && i
        != j implies labels[i] != labels[j] by {
        if i < j {
            assert(labels[i] != labels[j]);
        } else {
            assert(labels[j] != labels[i]);
        }
    }
}

/// Label names, each with a first letter later than the one before.
spec fn labels_fit(labels: Seq<Seq<char>>) -> bool {
    &&& forall|i: int| 0 <= i < labels.len() ==> metric_store::is_name(#[trigger] labels[i], false)
    &&& forall|i: int, j: int|
        0 <= i < j < labels.len() ==> (#[trigger] labels[i])[0] < (#[trigger] labels[j])[0]
}

proof fn lemma_label_names()
    ensures
        metric_store::is_name("constraint"@, false) && "constraint"@[0] == 'c',
        metric_store::is_name("key"@, false) && "key"@[0] == 'k',
        metric_store::is_name("limit"@, false) && "limit"@[0] == 'l',
        metric_store::is_name("method"@, false) && "method"@[0] == 'm',
        metric_store::is_name("model"@, false) && "model"@[0] == 'm',
        metric_store::is_name("outcome"@, false) && "outcome"@[0] == 'o',
        metric_store::is_name("path"@, false) && "path"@[0] == 'p',
        metric_store::is_name("reason"@, false) && "reason"@[0] == 'r',
        metric_store::is_name("scope"@, false) && "scope"@[0] == 's',
        metric_store::is_name("server"@, false) && "server"@[0] == 's',
        metric_store::is_name("status"@, false) && "status"@[0] == 's',
        metric_store::is_name("tool"@, false) && "tool"@[0] == 't',
{
    assert(metric_store::is_name("constraint"@, false) && "constraint"@[0] == 'c') by {
        reveal_strlit("constraint");
    }
    assert(metric_store::is_name("key"@, false) && "key"@[0] == 'k') by {
        reveal_strlit("key");
    }
    assert(metric_store::is_name("limit"@, false) && "limit"@[0] == 'l') by {
        reveal_strlit("limit");
    }
    assert(metric_store::is_name("method"@, false) && "method"@[0] == 'm') by {
        reveal_strlit("method");
    }
    assert(metric_store::is_name("model"@, false) && "model"@[0] == 'm') by {
        reveal_strlit("model");
    }
    assert(metric_store::is_name("outcome"@, false) && "outcome"@[0] == 'o') by {
        reveal_strlit("outcome");
    }
    assert(metric_store::is_name("path"@, false) && "path"@[0] == 'p') by {
        reveal_strlit("path");
    }
    assert(metric_store::is_name("reason"@, false) && "reason"@[0] == 'r') by {
        reveal_strlit("reason");
    }
    assert(metric_store::is_name("scope"@, false) && "scope"@[0] == 's') by {
        reveal_strlit("scope");
    }
    assert(metric_store::is_name("server"@, false) && "server"@[0] == 's') by {
        reveal_strlit("server");
    }
    assert(metric_store::is_name("status"@, false) && "status"@[0] == 's') by {
        reveal_strlit("status");
    }
    assert(metric_store::is_name("tool"@, false) && "tool"@[0] == 't') by {
        reveal_strlit("tool");
    }
}

proof fn lemma_gateway_families()
    ensures
        forall|i: int| 0 <= i < gateway_families().len() ==> described(#[trigger] gateway_families()[i]),
{
    lemma_label_names();
    let all = gateway_families();
    assert(described(all[0])) by {
        reveal_strlit("kiln_http_requests_total");
        assert(metric_store::is_name("kiln_http_requests_total"@, true));
        reveal_strlit("HTTP requests handled, by method, matched route, and status");
        assert("HTTP requests handled, by method, matched route, and status"@.len() > 0);
        lemma_described(all[0]);
    }
    assert(described(all[1])) by {
        reveal_strlit("kiln_http_request_duration_seconds");
        assert(metric_store::is_name("kiln_http_request_duration_seconds"@, true));
        reveal_strlit("HTTP request latency by matched route");
        assert("HTTP request latency by matched route"@.len() > 0);
        lemma_described(all[1]);
    }
    assert(described(all[2])) by {
        reveal_strlit("kiln_chat_completions_total");
        assert(metric_store::is_name("kiln_chat_completions_total"@, true));
        reveal_strlit("Chat completion requests by model and outcome");
        assert("Chat completion requests by model and outcome"@.len() > 0);
        lemma_described(all[2]);
    }
    assert(described(all[3])) by {
        reveal_strlit("kiln_completions_total");
        assert(metric_store::is_name("kiln_completions_total"@, true));
        reveal_strlit("Legacy text completion requests by model and outcome");
        assert("Legacy text completion requests by model and outcome"@.len() > 0);
        lemma_described(all[3]);
    }
    assert(described(all[4])) by {
        reveal_strlit("kiln_messages_total");
        assert(metric_store::is_name("kiln_messages_total"@, true));
        reveal_strlit("Anthropic Messages requests by model and outcome");
        assert("Anthropic Messages requests by model and outcome"@.len() > 0);
        lemma_described(all[4]);
    }
    assert(described(all[5])) by {
        reveal_strlit("kiln_prompt_tokens_total");
        assert(metric_store::is_name("kiln_prompt_tokens_total"@, true));
        reveal_strlit("Prompt tokens processed per model");
        assert("Prompt tokens processed per model"@.len() > 0);
        lemma_described(all[5]);
    }
    assert(described(all[6])) by {
        reveal_strlit("kiln_completion_tokens_total");
        assert(metric_store::is_name("kiln_completion_tokens_total"@, true));
        reveal_strlit("Completion tokens generated per model");
        assert("Completion tokens generated per model"@.len() > 0);
        lemma_described(all[6]);
    }
    assert(described(all[7])) by {
        reveal_strlit("kiln_worker_restarts_total");
        assert(metric_store::is_name("kiln_worker_restarts_total"@, true));
        reveal_strlit("Worker crash-restarts per model");
        assert("Worker crash-restarts per model"@.len() > 0);
        lemma_described(all[7]);
    }
    assert(described(all[8])) by {
        reveal_strlit("kiln_worker_up");
        assert(metric_store::is_name("kiln_worker_up"@, true));
        reveal_strlit("1 while the model's worker is Ready, else 0");
        assert("1 while the model's worker is Ready, else 0"@.len() > 0);
        lemma_described(all[8]);
    }
    assert(described(all[9])) by {
        reveal_strlit("kiln_worker_unloads_total");
        assert(metric_store::is_name("kiln_worker_unloads_total"@, true));
        reveal_strlit("Deliberate worker unloads per model and reason (evicted | idle_ttl | over_budget)");
        assert("Deliberate worker unloads per model and reason (evicted | idle_ttl | over_budget)"@.len() > 0);
        lemma_described(all[9]);
    }
    assert(described(all[10])) by {
        reveal_strlit("kiln_memory_budget_bytes");
        assert(metric_store::is_name("kiln_memory_budget_bytes"@, true));
        reveal_strlit("Machine memory budget for all workers");
        assert("Machine memory budget for all workers"@.len() > 0);
        lemma_described(all[10]);
    }
    assert(described(all[11])) by {
        reveal_strlit("kiln_memory_used_bytes");
        assert(metric_store::is_name("kiln_memory_used_bytes"@, true));
        reveal_strlit("Bytes currently charged against the machine budget");
        assert("Bytes currently charged against the machine budget"@.len() > 0);
        lemma_described(all[11]);
    }
}

proof fn lemma_alert_families()
    ensures
        forall|i: int| 0 <= i < alert_families().len() ==> described(#[trigger] alert_families()[i]),
{
    lemma_label_names();
    let all = alert_families();
    assert(described(all[0])) by {
        reveal_strlit("kiln_memory_reserved_bytes");
        assert(metric_store::is_name("kiln_memory_reserved_bytes"@, true));
        reveal_strlit("Bytes reserved for pool growth that was admitted but not yet reported");
        assert("Bytes reserved for pool growth that was admitted but not yet reported"@.len() > 0);
        lemma_described(all[0]);
    }
    assert(described(all[1])) by {
        reveal_strlit("kiln_system_available_bytes");
        assert(metric_store::is_name("kiln_system_available_bytes"@, true));
        reveal_strlit("Memory the system could give at the last probe");
        assert("Memory the system could give at the last probe"@.len() > 0);
        lemma_described(all[1]);
    }
    assert(described(all[2])) by {
        reveal_strlit("kiln_system_swap_used_bytes");
        assert(metric_store::is_name("kiln_system_swap_used_bytes"@, true));
        reveal_strlit("Swap allocated by the system at the last probe");
        assert("Swap allocated by the system at the last probe"@.len() > 0);
        lemma_described(all[2]);
    }
    assert(described(all[3])) by {
        reveal_strlit("kiln_system_pressure_level");
        assert(metric_store::is_name("kiln_system_pressure_level"@, true));
        reveal_strlit("Memory pressure the kernel reported at the last probe");
        assert("Memory pressure the kernel reported at the last probe"@.len() > 0);
        lemma_described(all[3]);
    }
    assert(described(all[4])) by {
        reveal_strlit("kiln_admission_rejects_total");
        assert(metric_store::is_name("kiln_admission_rejects_total"@, true));
        reveal_strlit("Requests refused because their projected memory growth exceeds the headroom, per model");
        assert("Requests refused because their projected memory growth exceeds the headroom, per model"@.len() > 0);
        lemma_described(all[4]);
    }
    assert(described(all[5])) by {
        reveal_strlit("kiln_admission_uncovered_bytes_total");
        assert(metric_store::is_name("kiln_admission_uncovered_bytes_total"@, true));
        reveal_strlit("Pool bytes that materialized without a reservation that covers them, per model");
        assert("Pool bytes that materialized without a reservation that covers them, per model"@.len() > 0);
        lemma_described(all[5]);
    }
    assert(described(all[6])) by {
        reveal_strlit("kiln_load_rejects_total");
        assert(metric_store::is_name("kiln_load_rejects_total"@, true));
        reveal_strlit("Model loads refused, by the constraint that refused them");
        assert("Model loads refused, by the constraint that refused them"@.len() > 0);
        lemma_described(all[6]);
    }
    assert(described(all[7])) by {
        reveal_strlit("kiln_rate_limited_total");
        assert(metric_store::is_name("kiln_rate_limited_total"@, true));
        reveal_strlit("Requests refused by a rate limit, by API key and limit (requests | tokens)");
        assert("Requests refused by a rate limit, by API key and limit (requests | tokens)"@.len() > 0);
        lemma_described(all[7]);
    }
    assert(described(all[8])) by {
        reveal_strlit("kiln_timeout_total");
        assert(metric_store::is_name("kiln_timeout_total"@, true));
        reveal_strlit("Requests ended by a timeout, by the budget that expired (ttft | total)");
        assert("Requests ended by a timeout, by the budget that expired (ttft | total)"@.len() > 0);
        lemma_described(all[8]);
    }
    assert(described(all[9])) by {
        reveal_strlit("kiln_mcp_up");
        assert(metric_store::is_name("kiln_mcp_up"@, true));
        reveal_strlit("1 while the MCP server is connected, else 0");
        assert("1 while the MCP server is connected, else 0"@.len() > 0);
        lemma_described(all[9]);
    }
    assert(described(all[10])) by {
        reveal_strlit("kiln_mcp_connect_attempts_total");
        assert(metric_store::is_name("kiln_mcp_connect_attempts_total"@, true));
        reveal_strlit("Connection attempts to MCP servers, by outcome (ok | error)");
        assert("Connection attempts to MCP servers, by outcome (ok | error)"@.len() > 0);
        lemma_described(all[10]);
    }
    assert(described(all[11])) by {
        reveal_strlit("kiln_mcp_tool_calls_total");
        assert(metric_store::is_name("kiln_mcp_tool_calls_total"@, true));
        reveal_strlit("Tool calls executed on MCP servers, by outcome");
        assert("Tool calls executed on MCP servers, by outcome"@.len() > 0);
        lemma_described(all[11]);
    }
}

proof fn lemma_memory_families()
    ensures
        forall|i: int| 0 <= i < memory_families().len() ==> described(#[trigger] memory_families()[i]),
{
    lemma_label_names();
    let all = memory_families();
    assert(described(all[0])) by {
        reveal_strlit("kiln_worker_memory_bytes");
        assert(metric_store::is_name("kiln_worker_memory_bytes"@, true));
        reveal_strlit("Budgeted footprint of the worker: max(mlx active, weights + KV pool) + mlx cache");
        assert("Budgeted footprint of the worker: max(mlx active, weights + KV pool) + mlx cache"@.len() > 0);
        lemma_described(all[0]);
    }
    assert(described(all[1])) by {
        reveal_strlit("kiln_worker_weights_bytes");
        assert(metric_store::is_name("kiln_worker_weights_bytes"@, true));
        reveal_strlit("Weight bytes held by the worker (target + draft)");
        assert("Weight bytes held by the worker (target + draft)"@.len() > 0);
        lemma_described(all[1]);
    }
    assert(described(all[2])) by {
        reveal_strlit("kiln_worker_kv_pool_allocated_bytes");
        assert(metric_store::is_name("kiln_worker_kv_pool_allocated_bytes"@, true));
        reveal_strlit("Preallocated KV pool bytes (target + draft)");
        assert("Preallocated KV pool bytes (target + draft)"@.len() > 0);
        lemma_described(all[2]);
    }
    assert(described(all[3])) by {
        reveal_strlit("kiln_worker_mlx_active_bytes");
        assert(metric_store::is_name("kiln_worker_mlx_active_bytes"@, true));
        reveal_strlit("MLX active memory reported by the worker");
        assert("MLX active memory reported by the worker"@.len() > 0);
        lemma_described(all[3]);
    }
    assert(described(all[4])) by {
        reveal_strlit("kiln_worker_mlx_cache_bytes");
        assert(metric_store::is_name("kiln_worker_mlx_cache_bytes"@, true));
        reveal_strlit("MLX buffer-cache memory reported by the worker");
        assert("MLX buffer-cache memory reported by the worker"@.len() > 0);
        lemma_described(all[4]);
    }
    assert(described(all[5])) by {
        reveal_strlit("kiln_worker_process_rss_bytes");
        assert(metric_store::is_name("kiln_worker_process_rss_bytes"@, true));
        reveal_strlit("Worker process resident set size");
        assert("Worker process resident set size"@.len() > 0);
        lemma_described(all[5]);
    }
}

proof fn lemma_stat_families()
    ensures
        forall|i: int| 0 <= i < stat_families().len() ==> described(#[trigger] stat_families()[i]),
{
    lemma_label_names();
    let all = stat_families();
    assert(described(all[0])) by {
        reveal_strlit("kiln_worker_requests_total");
        assert(metric_store::is_name("kiln_worker_requests_total"@, true));
        reveal_strlit("Requests accepted by the worker (worker lifetime)");
        assert("Requests accepted by the worker (worker lifetime)"@.len() > 0);
        lemma_described(all[0]);
    }
    assert(described(all[1])) by {
        reveal_strlit("kiln_worker_requests_failed_total");
        assert(metric_store::is_name("kiln_worker_requests_failed_total"@, true));
        reveal_strlit("Requests finished with an error (worker lifetime)");
        assert("Requests finished with an error (worker lifetime)"@.len() > 0);
        lemma_described(all[1]);
    }
    assert(described(all[2])) by {
        reveal_strlit("kiln_worker_requests_cancelled_total");
        assert(metric_store::is_name("kiln_worker_requests_cancelled_total"@, true));
        reveal_strlit("Requests cancelled (worker lifetime)");
        assert("Requests cancelled (worker lifetime)"@.len() > 0);
        lemma_described(all[2]);
    }
    assert(described(all[3])) by {
        reveal_strlit("kiln_worker_requests_preempted_total");
        assert(metric_store::is_name("kiln_worker_requests_preempted_total"@, true));
        reveal_strlit("Preemption events under memory pressure (worker lifetime)");
        assert("Preemption events under memory pressure (worker lifetime)"@.len() > 0);
        lemma_described(all[3]);
    }
    assert(described(all[4])) by {
        reveal_strlit("kiln_worker_tokens_prefilled_total");
        assert(metric_store::is_name("kiln_worker_tokens_prefilled_total"@, true));
        reveal_strlit("Prompt tokens prefilled (worker lifetime)");
        assert("Prompt tokens prefilled (worker lifetime)"@.len() > 0);
        lemma_described(all[4]);
    }
    assert(described(all[5])) by {
        reveal_strlit("kiln_worker_tokens_generated_total");
        assert(metric_store::is_name("kiln_worker_tokens_generated_total"@, true));
        reveal_strlit("Tokens generated (worker lifetime)");
        assert("Tokens generated (worker lifetime)"@.len() > 0);
        lemma_described(all[5]);
    }
    assert(described(all[6])) by {
        reveal_strlit("kiln_worker_prefix_tokens_reused_total");
        assert(metric_store::is_name("kiln_worker_prefix_tokens_reused_total"@, true));
        reveal_strlit("Prompt tokens served from the radix prefix cache (worker lifetime)");
        assert("Prompt tokens served from the radix prefix cache (worker lifetime)"@.len() > 0);
        lemma_described(all[6]);
    }
    assert(described(all[7])) by {
        reveal_strlit("kiln_worker_kv_blocks_allocated");
        assert(metric_store::is_name("kiln_worker_kv_blocks_allocated"@, true));
        reveal_strlit("KV pool blocks currently owned by requests or the prefix cache");
        assert("KV pool blocks currently owned by requests or the prefix cache"@.len() > 0);
        lemma_described(all[7]);
    }
    assert(described(all[8])) by {
        reveal_strlit("kiln_worker_kv_blocks_free");
        assert(metric_store::is_name("kiln_worker_kv_blocks_free"@, true));
        reveal_strlit("KV pool blocks currently free");
        assert("KV pool blocks currently free"@.len() > 0);
        lemma_described(all[8]);
    }
    assert(described(all[9])) by {
        reveal_strlit("kiln_worker_ssd_blocks_stored");
        assert(metric_store::is_name("kiln_worker_ssd_blocks_stored"@, true));
        reveal_strlit("KV blocks persisted in the SSD tier");
        assert("KV blocks persisted in the SSD tier"@.len() > 0);
        lemma_described(all[9]);
    }
    assert(described(all[10])) by {
        reveal_strlit("kiln_worker_ssd_reads_total");
        assert(metric_store::is_name("kiln_worker_ssd_reads_total"@, true));
        reveal_strlit("KV blocks loaded from the SSD tier (worker lifetime)");
        assert("KV blocks loaded from the SSD tier (worker lifetime)"@.len() > 0);
        lemma_described(all[10]);
    }
    assert(described(all[11])) by {
        reveal_strlit("kiln_worker_ssd_writes_total");
        assert(metric_store::is_name("kiln_worker_ssd_writes_total"@, true));
        reveal_strlit("KV blocks flushed to the SSD tier (worker lifetime)");
        assert("KV blocks flushed to the SSD tier (worker lifetime)"@.len() > 0);
        lemma_described(all[11]);
    }
    assert(described(all[12])) by {
        reveal_strlit("kiln_worker_ssd_fingerprint_rejects_total");
        assert(metric_store::is_name("kiln_worker_ssd_fingerprint_rejects_total"@, true));
        reveal_strlit("SSD slabs/slots rejected by fingerprint or verification (worker lifetime)");
        assert("SSD slabs/slots rejected by fingerprint or verification (worker lifetime)"@.len() > 0);
        lemma_described(all[12]);
    }
    assert(described(all[13])) by {
        reveal_strlit("kiln_worker_engine_steps_total");
        assert(metric_store::is_name("kiln_worker_engine_steps_total"@, true));
        reveal_strlit("Engine iterations (worker lifetime)");
        assert("Engine iterations (worker lifetime)"@.len() > 0);
        lemma_described(all[13]);
    }
}

/// Every family of the gateway.
pub open spec fn all_families() -> Seq<metric_store::Family> {
    gateway_families() + alert_families() + memory_families() + stat_families()
}

fn all_list() -> (r: Vec<FamilyLine>)
    ensures
        lines_view(r@) == all_families(),
{
    let mut lines: Vec<FamilyLine> = Vec::new();
    assert(lines_view(lines@) =~= Seq::<metric_store::Family>::empty());
    gateway_list(&mut lines);
    assert(lines_view(lines@) =~= gateway_families());
    alert_list(&mut lines);
    memory_list(&mut lines);
    stat_list(&mut lines);
    lines
}

/// An empty store takes in the families of a list, one after the other.
pub open spec fn all_join(list: Seq<metric_store::Family>) -> bool {
    forall|i: int|
        0 <= i < list.len() ==> metric_store::joins(
            metric_store::all_added(metric_store::no_families(), list.take(i)),
            #[trigger] list[i],
        )
}

/// Every family of the gateway has a proper description, with its labels in the
/// order in which they are shown. So an empty store takes them all in exactly
/// where their ids are distinct.
pub proof fn law_families_are_described()
    ensures
        forall|i: int| 0 <= i < all_families().len() ==> described(#[trigger] all_families()[i]),
        all_join(all_families()) == metric_store::ids_distinct(all_families()),
{
    lemma_gateway_families();
    lemma_alert_families();
    lemma_memory_families();
    lemma_stat_families();
    let all = all_families();
    let a = gateway_families().len() as int;
    let b = alert_families().len() as int;
    let c = memory_families().len() as int;
    assert forall|i: int| 0 <= i < all.len() implies described(#[trigger] all[i]) by {
        if i < a {
            assert(all[i] == gateway_families()[i]);
        } else if i < a + b {
            assert(all[i] == alert_families()[i - a]);
        } else if i < a + b + c {
            assert(all[i] == memory_families()[i - a - b]);
        } else {
            assert(all[i] == stat_families()[i - a - b - c]);
        }
    }
    let none = metric_store::no_families();
    if all_join(all) {
        assert forall|i: int, j: int| 0 <= i < j < all.len() implies metric_store::name_key(
            (#[trigger] all[i]).name,
        ) != metric_store::name_key((#[trigger] all[j]).name) by {
            assert(described(all[j]));
            metric_store::lemma_joins(all.take(j), all[j]);
            assert(all.take(j)[i] == all[i]);
        }
    }
    if metric_store::ids_distinct(all) {
        assert forall|j: int| 0 <= j < all.len() implies metric_store::joins(
            metric_store::all_added(none, all.take(j)),
            #[trigger] all[j],
        ) by {
            assert(described(all[j]));
            metric_store::lemma_joins(all.take(j), all[j]);
            assert forall|i: int| 0 <= i < all.take(j).len() implies metric_store::name_key(
                (#[trigger] all.take(j)[i]).name,
            ) != metric_store::name_key(all[j].name) by {
                assert(all.take(j)[i] == all[i]);
            }
        }
    }
}

/// Every family of the gateway stands in the store.
pub open spec fn stocked(families: metric_store::Held) -> bool {
    forall|i: int|
        0 <= i < all_families().len() ==> metric_store::holds(families, #[trigger] all_families()[i])
}

/// A gateway's family stands in a stocked store.
proof fn lemma_stocked(families: metric_store::Held, group: Seq<metric_store::Family>, i: int)
    requires
        stocked(families),
        0 <= i < group.len(),
        group == gateway_families() || group == alert_families() || group == memory_families()
            || group == stat_families(),
    ensures
        metric_store::holds(families, group[i]),
{
    let all = all_families();
    let a = gateway_families().len() as int;
    let b = alert_families().len() as int;
    let c = memory_families().len() as int;
    if group == gateway_families() {
        assert(all[i] == group[i]);
    } else if group == alert_families() {
        assert(all[a + i] == group[i]);
    } else if group == memory_families() {
        assert(all[a + b + i] == group[i]);
    } else {
        assert(all[a + b + c + i] == group[i]);
    }
}

/// A store stays stocked while its families stay.
proof fn lemma_still_stocked(before: metric_store::Held, after: metric_store::Held)
    requires
        stocked(before),
        metric_store::same_families(before, after),
    ensures
        stocked(after),
{
    assert forall|i: int| 0 <= i < all_families().len() implies metric_store::holds(
        after,
        #[trigger] all_families()[i],
    ) by {
        assert(metric_store::holds(before, all_families()[i]));
        assert(before.dom().contains(all_families()[i].name));
        assert(after.dom().contains(all_families()[i].name));
    }
}

/// A family joins the store, as its kind says.
fn add_family(store: &mut MetricStore, line: &FamilyLine) -> (r: Result<(), String>)
    requires
        line.kind == FamilyKind::OneGauge ==> line.labels@.len() == 0,
    ensures
        r is Ok == metric_store::joins(metric_store::held(*old(store)), line@),
        metric_store::held(*final(store)) == (if r is Ok {
            metric_store::added(metric_store::held(*old(store)), line@)
        } else {
            metric_store::held(*old(store))
        }),
{
    match line.kind {
        FamilyKind::Counters => metric_store::add_counters(
            store,
            line.name,
            line.help,
            &line.labels,
        ),
        FamilyKind::Gauges => metric_store::add_gauges(store, line.name, line.help, &line.labels),
        FamilyKind::Histograms => metric_store::add_histograms(
            store,
            line.name,
            line.help,
            &line.labels,
        ),
        FamilyKind::OneGauge => {
            assert(metric_store::labels_view(line.labels@) =~= Seq::<Seq<char>>::empty());
            metric_store::add_gauge(store, line.name, line.help)
        },
    }
}

/// A store with every family of a list, or the error of the first that is
/// refused.
fn add_all(lines: &Vec<FamilyLine>) -> (r: Result<MetricStore, String>)
    requires
        forall|i: int| 0 <= i < lines@.len() ==> plain((#[trigger] lines@[i])@),
    ensures
        match r {
            Ok(store) => all_join(lines_view(lines@)) && metric_store::held(store)
                == metric_store::all_added(metric_store::no_families(), lines_view(lines@)),
            Err(_) => !all_join(lines_view(lines@)),
        },
{
    let ghost all = lines_view(lines@);
    let ghost none = metric_store::no_families();
    let mut store: MetricStore = metric_store::new_store();
    let mut i: usize = 0;
    assert(all.take(0) =~= Seq::empty());
    while i < lines.len()
        invariant
            i <= lines@.len(),
            all == lines_view(lines@),
            none == metric_store::no_families(),
            forall|k: int| 0 <= k < lines@.len() ==> plain((#[trigger] lines@[k])@),
            metric_store::held(store) == metric_store::all_added(none, all.take(i as int)),
            forall|k: int|
                0 <= k < i ==> metric_store::joins(
                    metric_store::all_added(none, all.take(k)),
                    #[trigger] all[k],
                ),
        decreases lines@.len() - i,
    {
        assert(lines@[i as int]@ == all[i as int]);
        match add_family(&mut store, &lines[i]) {
            Ok(()) => {},
            Err(e) => {
                return Err(e);
            },
        }
        assert(all.take(i + 1).drop_last() =~= all.take(i as int));
        assert(all.take(i + 1).last() == all[i as int]);
        i = i + 1;
    }
    assert(all.take(i as int) =~= all);
    Ok(store)
}

/// A level as a gauge holds it.
pub open spec fn clamped(n: u64) -> i64 {
    if n <= i64::MAX {
        n as i64
    } else {
        i64::MAX
    }
}

fn clamp(n: u64) -> (r: i64)
    ensures
        r == clamped(n),
{
    if n <= i64::MAX as u64 {
        n as i64
    } else {
        i64::MAX
    }
}

/// Families after a gauge of one model, or of one server, took a level.
pub open spec fn took(
    families: metric_store::Held,
    name: Seq<char>,
    of: Seq<char>,
    n: u64,
) -> metric_store::Held {
    metric_store::leveled(families, name, seq![of], clamped(n))
}

/// Sets the gauge of one model, or of one server.
fn set_one(store: &mut MetricStore, name: &str, of: &str, n: u64)
    requires
        metric_store::held(*old(store)).contains_key(name@),
        metric_store::held(*old(store))[name@].family.kind == FamilyKind::Gauges,
        metric_store::held(*old(store))[name@].family.labels.len() == 1,
    ensures
        metric_store::held(*final(store)) == took(metric_store::held(*old(store)), name@, of@, n),
        metric_store::same_families(
            metric_store::held(*old(store)),
            metric_store::held(*final(store)),
        ),
{
    let values: Vec<&str> = labels1(of);
    proof {
        metric_store::lemma_with_sample(
            metric_store::held(*store),
            name@,
            seq![of@],
            metric_store::label_key(seq![of@]),
            metric_store::Sample::Level(clamped(n)),
        );
    }
    metric_store::level(store, name, &values, clamp(n));
}

/// Sets the one gauge of a family.
fn set_single(store: &mut MetricStore, name: &str, n: u64)
    requires
        metric_store::held(*old(store)).contains_key(name@),
        metric_store::held(*old(store))[name@].family.kind == FamilyKind::OneGauge,
    ensures
        metric_store::held(*final(store)) == metric_store::leveled(
            metric_store::held(*old(store)),
            name@,
            Seq::empty(),
            clamped(n),
        ),
        metric_store::same_families(
            metric_store::held(*old(store)),
            metric_store::held(*final(store)),
        ),
{
    proof {
        metric_store::lemma_with_sample(
            metric_store::held(*store),
            name@,
            Seq::empty(),
            metric_store::label_key(Seq::empty()),
            metric_store::Sample::Level(clamped(n)),
        );
    }
    metric_store::level_single(store, name, clamp(n));
}

/// Counts in a family.
fn add_to(store: &mut MetricStore, name: &str, values: Vec<&str>, by: u64)
    requires
        metric_store::held(*old(store)).contains_key(name@),
        metric_store::held(*old(store))[name@].family.kind == FamilyKind::Counters,
        metric_store::held(*old(store))[name@].family.labels.len() == values@.len(),
    ensures
        metric_store::held(*final(store)) == metric_store::counted(
            metric_store::held(*old(store)),
            name@,
            metric_store::labels_view(values@),
            by,
        ),
        metric_store::same_families(
            metric_store::held(*old(store)),
            metric_store::held(*final(store)),
        ),
{
    proof {
        let h = metric_store::held(*store);
        let list = metric_store::labels_view(values@);
        let key = metric_store::label_key(list);
        let n = metric_store::count_in(metric_store::sample_at(h[name@].metrics, key));
        metric_store::lemma_with_sample(
            h,
            name@,
            list,
            key,
            metric_store::Sample::Count(metric_store::wrapped(n, by)),
        );
    }
    metric_store::count(store, name, &values, by);
}

/// The families of per-model memory gauges from a worker's heartbeat, plus the
/// footprint that is budgeted.
pub struct MemoryGauges {
    pub footprint: &'static str,
    pub weights: &'static str,
    pub kv_pool_allocated: &'static str,
    pub mlx_active: &'static str,
    pub mlx_cache: &'static str,
    pub process_rss: &'static str,
}

impl MemoryGauges {
    /// Every family is the one it is named for.
    pub open spec fn wf(self) -> bool {
        &&& self.footprint@ == "kiln_worker_memory_bytes"@
        &&& self.weights@ == "kiln_worker_weights_bytes"@
        &&& self.kv_pool_allocated@ == "kiln_worker_kv_pool_allocated_bytes"@
        &&& self.mlx_active@ == "kiln_worker_mlx_active_bytes"@
        &&& self.mlx_cache@ == "kiln_worker_mlx_cache_bytes"@
        &&& self.process_rss@ == "kiln_worker_process_rss_bytes"@
    }

    /// The names of the families.
    fn new() -> (r: Self)
        ensures
            r.wf(),
    {
        MemoryGauges {
            footprint: "kiln_worker_memory_bytes",
            weights: "kiln_worker_weights_bytes",
            kv_pool_allocated: "kiln_worker_kv_pool_allocated_bytes",
            mlx_active: "kiln_worker_mlx_active_bytes",
            mlx_cache: "kiln_worker_mlx_cache_bytes",
            process_rss: "kiln_worker_process_rss_bytes",
        }
    }

    /// Mirrors one heartbeat of a model's worker.
    pub fn record(
        &self,
        store: &mut MetricStore,
        model: &str,
        report: &MemoryReport,
        footprint_bytes: u64,
    )
        requires
            self.wf(),
            stocked(metric_store::held(*old(store))),
        ensures
            metric_store::held(*final(store)) == memory_shown(
                metric_store::held(*old(store)),
                model@,
                *report,
                footprint_bytes,
            ),
            stocked(metric_store::held(*final(store))),
    {
        let ghost h0 = metric_store::held(*store);
        proof {
            lemma_stocked(h0, memory_families(), 0);
        }
        set_one(store, self.footprint, model, footprint_bytes);
        proof {
            lemma_still_stocked(h0, metric_store::held(*store));
        }
        let ghost h1 = metric_store::held(*store);
        proof {
            lemma_stocked(h1, memory_families(), 1);
        }
        set_one(store, self.weights, model, report.weights_bytes);
        proof {
            lemma_still_stocked(h1, metric_store::held(*store));
        }
        let ghost h2 = metric_store::held(*store);
        proof {
            lemma_stocked(h2, memory_families(), 2);
        }
        set_one(store, self.kv_pool_allocated, model, report.kv_pool_allocated_bytes);
        proof {
            lemma_still_stocked(h2, metric_store::held(*store));
        }
        let ghost h3 = metric_store::held(*store);
        proof {
            lemma_stocked(h3, memory_families(), 3);
        }
        set_one(store, self.mlx_active, model, report.mlx_active_bytes);
        proof {
            lemma_still_stocked(h3, metric_store::held(*store));
        }
        let ghost h4 = metric_store::held(*store);
        proof {
            lemma_stocked(h4, memory_families(), 4);
        }
        set_one(store, self.mlx_cache, model, report.mlx_cache_bytes);
        proof {
            lemma_still_stocked(h4, metric_store::held(*store));
        }
        let ghost h5 = metric_store::held(*store);
        proof {
            lemma_stocked(h5, memory_families(), 5);
        }
        set_one(store, self.process_rss, model, report.process_rss_bytes);
        proof {
            lemma_still_stocked(h5, metric_store::held(*store));
        }
    }

    /// Zeroes every gauge of a model whose worker exited.
    pub fn clear(&self, store: &mut MetricStore, model: &str)
        requires
            self.wf(),
            stocked(metric_store::held(*old(store))),
        ensures
            metric_store::held(*final(store)) == memory_shown(
                metric_store::held(*old(store)),
                model@,
                no_memory(),
                0,
            ),
            stocked(metric_store::held(*final(store))),
    {
        let nothing: MemoryReport = MemoryReport {
            weights_bytes: 0,
            kv_pool_allocated_bytes: 0,
            kv_pool_used_bytes: 0,
            mlx_active_bytes: 0,
            mlx_cache_bytes: 0,
            process_rss_bytes: 0,
        };
        self.record(store, model, &nothing, 0);
    }
}

/// The report of a worker that is gone.
pub open spec fn no_memory() -> MemoryReport {
    MemoryReport {
        weights_bytes: 0,
        kv_pool_allocated_bytes: 0,
        kv_pool_used_bytes: 0,
        mlx_active_bytes: 0,
        mlx_cache_bytes: 0,
        process_rss_bytes: 0,
    }
}

/// Families after the memory gauges of a model took a report.
pub open spec fn memory_shown(
    families: metric_store::Held,
    model: Seq<char>,
    report: MemoryReport,
    footprint_bytes: u64,
) -> metric_store::Held {
    let h1 = took(families, "kiln_worker_memory_bytes"@, model, footprint_bytes);
    let h2 = took(h1, "kiln_worker_weights_bytes"@, model, report.weights_bytes);
    let h3 = took(h2, "kiln_worker_kv_pool_allocated_bytes"@, model, report.kv_pool_allocated_bytes);
    let h4 = took(h3, "kiln_worker_mlx_active_bytes"@, model, report.mlx_active_bytes);
    let h5 = took(h4, "kiln_worker_mlx_cache_bytes"@, model, report.mlx_cache_bytes);
    took(h5, "kiln_worker_process_rss_bytes"@, model, report.process_rss_bytes)
}

/// The statistics a worker reports.
#[derive(Debug, Clone, Copy, PartialEq, Eq, Structural)]
pub struct WorkerStats {
    pub requests_total: u64,
    pub requests_failed: u64,
    pub requests_cancelled: u64,
    pub requests_preempted: u64,
    pub tokens_prefilled_total: u64,
    pub tokens_generated_total: u64,
    pub prefix_tokens_reused_total: u64,
    pub kv_blocks_allocated: u64,
    pub kv_blocks_free: u64,
    pub ssd_blocks_stored: u64,
    pub ssd_reads_total: u64,
    pub ssd_writes_total: u64,
    pub ssd_fingerprint_rejects_total: u64,
    pub spec_tokens_proposed_total: u64,
    pub spec_tokens_accepted_total: u64,
    pub engine_steps_total: u64,
}

/// One family of gauges per mirrored statistic.
pub struct WorkerStatGauges {
    pub requests_total: &'static str,
    pub requests_failed_total: &'static str,
    pub requests_cancelled_total: &'static str,
    pub requests_preempted_total: &'static str,
    pub tokens_prefilled_total: &'static str,
    pub tokens_generated_total: &'static str,
    pub prefix_tokens_reused_total: &'static str,
    pub kv_blocks_allocated: &'static str,
    pub kv_blocks_free: &'static str,
    pub ssd_blocks_stored: &'static str,
    pub ssd_reads_total: &'static str,
    pub ssd_writes_total: &'static str,
    pub ssd_fingerprint_rejects_total: &'static str,
    pub engine_steps_total: &'static str,
}

impl WorkerStatGauges {
    /// Every family is the one it is named for.
    pub open spec fn wf(self) -> bool {
        &&& self.requests_total@ == "kiln_worker_requests_total"@
        &&& self.requests_failed_total@ == "kiln_worker_requests_failed_total"@
        &&& self.requests_cancelled_total@ == "kiln_worker_requests_cancelled_total"@
        &&& self.requests_preempted_total@ == "kiln_worker_requests_preempted_total"@
        &&& self.tokens_prefilled_total@ == "kiln_worker_tokens_prefilled_total"@
        &&& self.tokens_generated_total@ == "kiln_worker_tokens_generated_total"@
        &&& self.prefix_tokens_reused_total@ == "kiln_worker_prefix_tokens_reused_total"@
        &&& self.kv_blocks_allocated@ == "kiln_worker_kv_blocks_allocated"@
        &&& self.kv_blocks_free@ == "kiln_worker_kv_blocks_free"@
        &&& self.ssd_blocks_stored@ == "kiln_worker_ssd_blocks_stored"@
        &&& self.ssd_reads_total@ == "kiln_worker_ssd_reads_total"@
        &&& self.ssd_writes_total@ == "kiln_worker_ssd_writes_total"@
        &&& self.ssd_fingerprint_rejects_total@ == "kiln_worker_ssd_fingerprint_rejects_total"@
        &&& self.engine_steps_total@ == "kiln_worker_engine_steps_total"@
    }

    /// The names of the families.
    fn new() -> (r: Self)
        ensures
            r.wf(),
    {
        WorkerStatGauges {
            requests_total: "kiln_worker_requests_total",
            requests_failed_total: "kiln_worker_requests_failed_total",
            requests_cancelled_total: "kiln_worker_requests_cancelled_total",
            requests_preempted_total: "kiln_worker_requests_preempted_total",
            tokens_prefilled_total: "kiln_worker_tokens_prefilled_total",
            tokens_generated_total: "kiln_worker_tokens_generated_total",
            prefix_tokens_reused_total: "kiln_worker_prefix_tokens_reused_total",
            kv_blocks_allocated: "kiln_worker_kv_blocks_allocated",
            kv_blocks_free: "kiln_worker_kv_blocks_free",
            ssd_blocks_stored: "kiln_worker_ssd_blocks_stored",
            ssd_reads_total: "kiln_worker_ssd_reads_total",
            ssd_writes_total: "kiln_worker_ssd_writes_total",
            ssd_fingerprint_rejects_total: "kiln_worker_ssd_fingerprint_rejects_total",
            engine_steps_total: "kiln_worker_engine_steps_total",
        }
    }

    /// Mirrors one report of a model's worker.
    pub fn record(&self, store: &mut MetricStore, model: &str, stats: &WorkerStats)
        requires
            self.wf(),
            stocked(metric_store::held(*old(store))),
        ensures
            metric_store::held(*final(store)) == stats_shown(
                metric_store::held(*old(store)),
                model@,
                *stats,
            ),
            stocked(metric_store::held(*final(store))),
    {
        let ghost h0 = metric_store::held(*store);
        proof {
            lemma_stocked(h0, stat_families(), 0);
        }
        set_one(store, self.requests_total, model, stats.requests_total);
        proof {
            lemma_still_stocked(h0, metric_store::held(*store));
        }
        let ghost h1 = metric_store::held(*store);
        proof {
            lemma_stocked(h1, stat_families(), 1);
        }
        set_one(store, self.requests_failed_total, model, stats.requests_failed);
        proof {
            lemma_still_stocked(h1, metric_store::held(*store));
        }
        let ghost h2 = metric_store::held(*store);
        proof {
            lemma_stocked(h2, stat_families(), 2);
        }
        set_one(store, self.requests_cancelled_total, model, stats.requests_cancelled);
        proof {
            lemma_still_stocked(h2, metric_store::held(*store));
        }
        let ghost h3 = metric_store::held(*store);
        proof {
            lemma_stocked(h3, stat_families(), 3);
        }
        set_one(store, self.requests_preempted_total, model, stats.requests_preempted);
        proof {
            lemma_still_stocked(h3, metric_store::held(*store));
        }
        let ghost h4 = metric_store::held(*store);
        proof {
            lemma_stocked(h4, stat_families(), 4);
        }
        set_one(store, self.tokens_prefilled_total, model, stats.tokens_prefilled_total);
        proof {
            lemma_still_stocked(h4, metric_store::held(*store));
        }
        let ghost h5 = metric_store::held(*store);
        proof {
            lemma_stocked(h5, stat_families(), 5);
        }
        set_one(store, self.tokens_generated_total, model, stats.tokens_generated_total);
        proof {
            lemma_still_stocked(h5, metric_store::held(*store));
        }
        let ghost h6 = metric_store::held(*store);
        proof {
            lemma_stocked(h6, stat_families(), 6);
        }
        set_one(store, self.prefix_tokens_reused_total, model, stats.prefix_tokens_reused_total);
        proof {
            lemma_still_stocked(h6, metric_store::held(*store));
        }
        let ghost h7 = metric_store::held(*store);
        proof {
            lemma_stocked(h7, stat_families(), 7);
        }
        set_one(store, self.kv_blocks_allocated, model, stats.kv_blocks_allocated);
        proof {
            lemma_still_stocked(h7, metric_store::held(*store));
        }
        let ghost h8 = metric_store::held(*store);
        proof {
            lemma_stocked(h8, stat_families(), 8);
        }
        set_one(store, self.kv_blocks_free, model, stats.kv_blocks_free);
        proof {
            lemma_still_stocked(h8, metric_store::held(*store));
        }
        let ghost h9 = metric_store::held(*store);
        proof {
            lemma_stocked(h9, stat_families(), 9);
        }
        set_one(store, self.ssd_blocks_stored, model, stats.ssd_blocks_stored);
        proof {
            lemma_still_stocked(h9, metric_store::held(*store));
        }
        let ghost h10 = metric_store::held(*store);
        proof {
            lemma_stocked(h10, stat_families(), 10);
        }
        set_one(store, self.ssd_reads_total, model, stats.ssd_reads_total);
        proof {
            lemma_still_stocked(h10, metric_store::held(*store));
        }
        let ghost h11 = metric_store::held(*store);
        proof {
            lemma_stocked(h11, stat_families(), 11);
        }
        set_one(store, self.ssd_writes_total, model, stats.ssd_writes_total);
        proof {
            lemma_still_stocked(h11, metric_store::held(*store));
        }
        let ghost h12 = metric_store::held(*store);
        proof {
            lemma_stocked(h12, stat_families(), 12);
        }
        set_one(store, self.ssd_fingerprint_rejects_total, model, stats.ssd_fingerprint_rejects_total);
        proof {
            lemma_still_stocked(h12, metric_store::held(*store));
        }
        let ghost h13 = metric_store::held(*store);
        proof {
            lemma_stocked(h13, stat_families(), 13);
        }
        set_one(store, self.engine_steps_total, model, stats.engine_steps_total);
        proof {
            lemma_still_stocked(h13, metric_store::held(*store));
        }
    }
}

/// Families after the statistics gauges of a model took a report.
pub open spec fn stats_shown(
    families: metric_store::Held,
    model: Seq<char>,
    stats: WorkerStats,
) -> metric_store::Held {
    let h1 = took(families, "kiln_worker_requests_total"@, model, stats.requests_total);
    let h2 = took(h1, "kiln_worker_requests_failed_total"@, model, stats.requests_failed);
    let h3 = took(h2, "kiln_worker_requests_cancelled_total"@, model, stats.requests_cancelled);
    let h4 = took(h3, "kiln_worker_requests_preempted_total"@, model, stats.requests_preempted);
    let h5 = took(h4, "kiln_worker_tokens_prefilled_total"@, model, stats.tokens_prefilled_total);
    let h6 = took(h5, "kiln_worker_tokens_generated_total"@, model, stats.tokens_generated_total);
    let h7 = took(
        h6,
        "kiln_worker_prefix_tokens_reused_total"@,
        model,
        stats.prefix_tokens_reused_total,
    );
    let h8 = took(h7, "kiln_worker_kv_blocks_allocated"@, model, stats.kv_blocks_allocated);
    let h9 = took(h8, "kiln_worker_kv_blocks_free"@, model, stats.kv_blocks_free);
    let h10 = took(h9, "kiln_worker_ssd_blocks_stored"@, model, stats.ssd_blocks_stored);
    let h11 = took(h10, "kiln_worker_ssd_reads_total"@, model, stats.ssd_reads_total);
    let h12 = took(h11, "kiln_worker_ssd_writes_total"@, model, stats.ssd_writes_total);
    let h13 = took(
        h12,
        "kiln_worker_ssd_fingerprint_rejects_total"@,
        model,
        stats.ssd_fingerprint_rejects_total,
    );
    took(h13, "kiln_worker_engine_steps_total"@, model, stats.engine_steps_total)
}

/// Every metric of the gateway.
pub struct Metrics {
    pub store: MetricStore,
    pub worker_stats: WorkerStatGauges,
    pub worker_memory: MemoryGauges,
}

/// The endpoints that generate.
#[derive(Debug, Clone, Copy, PartialEq, Eq, Structural)]
pub enum Endpoint {
    Chat,
    Completions,
    Messages,
}

impl Endpoint {
    /// The family that counts its requests.
    pub open spec fn family_name(self) -> Seq<char> {
        match self {
            Endpoint::Chat => "kiln_chat_completions_total"@,
            Endpoint::Completions => "kiln_completions_total"@,
            Endpoint::Messages => "kiln_messages_total"@,
        }
    }
}

/// The limits of an API key.
#[derive(Debug, Clone, Copy, PartialEq, Eq, Structural)]
pub enum RateLimitKind {
    Requests,
    Tokens,
}

impl RateLimitKind {
    pub open spec fn spec_label(self) -> Seq<char> {
        match self {
            RateLimitKind::Requests => "requests"@,
            RateLimitKind::Tokens => "tokens"@,
        }
    }

    pub fn label(self) -> (r: &'static str)
        ensures
            r@ == self.spec_label(),
    {
        match self {
            RateLimitKind::Requests => "requests",
            RateLimitKind::Tokens => "tokens",
        }
    }
}

/// Families after the memory ledger was shown.
pub open spec fn memory_set(
    families: metric_store::Held,
    budget_bytes: u64,
    used_bytes: u64,
    reserved_bytes: u64,
) -> metric_store::Held {
    let h1 = metric_store::leveled(
        families,
        "kiln_memory_budget_bytes"@,
        Seq::empty(),
        clamped(budget_bytes),
    );
    let h2 = metric_store::leveled(
        h1,
        "kiln_memory_used_bytes"@,
        Seq::empty(),
        clamped(used_bytes),
    );
    metric_store::leveled(
        h2,
        "kiln_memory_reserved_bytes"@,
        Seq::empty(),
        clamped(reserved_bytes),
    )
}

/// Families after a reading of the system's memory was shown.
pub open spec fn system_set(families: metric_store::Held, memory: SystemMemory) -> metric_store::Held {
    let h1 = metric_store::leveled(
        families,
        "kiln_system_available_bytes"@,
        Seq::empty(),
        clamped(memory.available_bytes),
    );
    let h2 = metric_store::leveled(
        h1,
        "kiln_system_swap_used_bytes"@,
        Seq::empty(),
        clamped(memory.swap_used_bytes),
    );
    metric_store::leveled(
        h2,
        "kiln_system_pressure_level"@,
        Seq::empty(),
        clamped(memory.pressure_level as u64),
    )
}

/// Families after something happened to an MCP server: a connection attempt is
/// counted with its outcome, and the server is up from a success until its
/// connection is lost or an attempt fails.
pub open spec fn mcp_shown(
    families: metric_store::Held,
    server: Seq<char>,
    event: McpEvent,
) -> metric_store::Held {
    match event {
        McpEvent::Connected { .. } => took(
            metric_store::counted(
                families,
                "kiln_mcp_connect_attempts_total"@,
                seq!["ok"@, server],
                1,
            ),
            "kiln_mcp_up"@,
            server,
            1,
        ),
        McpEvent::Failed(_) => took(
            metric_store::counted(
                families,
                "kiln_mcp_connect_attempts_total"@,
                seq!["error"@, server],
                1,
            ),
            "kiln_mcp_up"@,
            server,
            0,
        ),
        McpEvent::Lost => took(families, "kiln_mcp_up"@, server, 0),
        _ => families,
    }
}

impl Metrics {
    /// What the families hold.
    pub open spec fn families(self) -> metric_store::Held {
        metric_store::held(self.store)
    }

    /// Every family is there.
    pub open spec fn wf(self) -> bool {
        &&& stocked(self.families())
        &&& self.worker_stats.wf()
        &&& self.worker_memory.wf()
    }

    /// Only what the families hold differs.
    pub open spec fn same_names(self, other: Metrics) -> bool {
        self.worker_stats == other.worker_stats && self.worker_memory == other.worker_memory
    }

    /// Every family, registered and without metrics but for the single gauges,
    /// which stand at 0: made exactly where no two families have the same id.
    pub fn new() -> (r: Result<Self, String>)
        ensures
            match r {
                Ok(m) => {
                    &&& metric_store::ids_distinct(all_families())
                    &&& m.wf()
                    &&& m.families() == metric_store::all_added(
                        metric_store::no_families(),
                        all_families(),
                    )
                    &&& forall|i: int|
                        0 <= i < all_families().len() ==> m.families()[(
                        #[trigger] all_families()[i]).name].metrics == metric_store::fresh(
                            all_families()[i].kind,
                        )
                },
                Err(_) => !metric_store::ids_distinct(all_families()),
            },
    {
        let lines: Vec<FamilyLine> = all_list();
        let ghost all = all_families();
        proof {
            law_families_are_described();
            lemma_single_gauges();
            assert forall|i: int| 0 <= i < lines@.len() implies plain((#[trigger] lines@[i])@) by {
                assert(lines@[i]@ == all[i]);
            }
        }
        let store: MetricStore = match add_all(&lines) {
            Ok(store) => store,
            Err(e) => {
                return Err(e);
            },
        };
        proof {
            metric_store::lemma_all_added(all);
        }
        Ok(
            Metrics {
                store,
                worker_stats: WorkerStatGauges::new(),
                worker_memory: MemoryGauges::new(),
            },
        )
    }

    /// The exposition, as text: every counter and gauge has its line.
    pub fn encode(&self) -> (r: Result<String, String>)
        ensures
            r is Ok,
            r->Ok_0@ == metric_store::exposition(self.families()),
            forall|name: Seq<char>, key: u64| #[trigger]
                metric_store::shown(self.families(), name, key) ==> metric_store::has_line(
                    r->Ok_0@,
                    metric_store::line_of(self.families(), name, key),
                ),
    {
        metric_store::expose(&self.store)
    }

    /// Counts one request under its outcome.
    pub fn record_outcome(&mut self, endpoint: Endpoint, model: &str, outcome: &str)
        requires
            old(self).wf(),
        ensures
            final(self).wf(),
            old(self).same_names(*final(self)),
            final(self).families() == metric_store::counted(
                old(self).families(),
                endpoint.family_name(),
                seq![model@, outcome@],
                1,
            ),
    {
        let ghost h0 = self.families();
        proof {
            lemma_stocked(h0, gateway_families(), 2);
            lemma_stocked(h0, gateway_families(), 3);
            lemma_stocked(h0, gateway_families(), 4);
        }
        let name: &str = match endpoint {
            Endpoint::Chat => "kiln_chat_completions_total",
            Endpoint::Completions => "kiln_completions_total",
            Endpoint::Messages => "kiln_messages_total",
        };
        add_to(&mut self.store, name, labels2(model, outcome), 1);
        proof {
            lemma_still_stocked(h0, self.families());
        }
    }

    /// Counts a request that completed, and its tokens.
    pub fn record_ok(&mut self, endpoint: Endpoint, model: &str, finished: &Finished)
        requires
            old(self).wf(),
        ensures
            final(self).wf(),
            old(self).same_names(*final(self)),
            final(self).families() == metric_store::counted(
                metric_store::counted(
                    metric_store::counted(
                        old(self).families(),
                        endpoint.family_name(),
                        seq![model@, "ok"@],
                        1,
                    ),
                    "kiln_prompt_tokens_total"@,
                    seq![model@],
                    finished.prompt_tokens as u64,
                ),
                "kiln_completion_tokens_total"@,
                seq![model@],
                finished.completion_tokens as u64,
            ),
    {
        self.record_outcome(endpoint, model, "ok");
        let ghost h0 = self.families();
        proof {
            lemma_stocked(h0, gateway_families(), 5);
        }
        add_to(
            &mut self.store,
            "kiln_prompt_tokens_total",
            labels1(model),
            finished.prompt_tokens as u64,
        );
        proof {
            lemma_still_stocked(h0, self.families());
        }
        let ghost h1 = self.families();
        proof {
            lemma_stocked(h1, gateway_families(), 6);
        }
        add_to(
            &mut self.store,
            "kiln_completion_tokens_total",
            labels1(model),
            finished.completion_tokens as u64,
        );
        proof {
            lemma_still_stocked(h1, self.families());
        }
    }

    /// Counts and times one HTTP request.
    pub fn record_http(&mut self, method: &str, path: &str, status: u16, nanos: u64)
        requires
            old(self).wf(),
        ensures
            final(self).wf(),
            old(self).same_names(*final(self)),
            final(self).families() == metric_store::observed(
                metric_store::counted(
                    old(self).families(),
                    "kiln_http_requests_total"@,
                    seq![method@, path@, text::decimal(status as nat)],
                    1,
                ),
                "kiln_http_request_duration_seconds"@,
                seq![path@],
                nanos,
            ),
    {
        let code: String = text::decimal_string(status as u64);
        let ghost h0 = self.families();
        proof {
            lemma_stocked(h0, gateway_families(), 0);
        }
        add_to(&mut self.store, "kiln_http_requests_total", labels3(method, path, code.as_str()), 1);
        proof {
            lemma_still_stocked(h0, self.families());
        }
        let ghost h1 = self.families();
        let path_only: Vec<&str> = labels1(path);
        proof {
            lemma_stocked(h1, gateway_families(), 1);
            reveal_strlit("le");
            reveal_strlit("path");
            assert("le"@.len() == 2 && "path"@.len() == 4);
            let key = metric_store::label_key(seq![path@]);
            let list = metric_store::observed_in(
                metric_store::sample_at(
                    h1["kiln_http_request_duration_seconds"@].metrics,
                    key,
                ),
            );
            metric_store::lemma_with_sample(
                h1,
                "kiln_http_request_duration_seconds"@,
                seq![path@],
                key,
                metric_store::Sample::Observed(list.push(nanos)),
            );
        }
        metric_store::observe(
            &mut self.store,
            "kiln_http_request_duration_seconds",
            &path_only,
            nanos,
        );
        proof {
            lemma_still_stocked(h1, self.families());
        }
    }

    /// Shows whether a model's worker is ready.
    pub fn set_up(&mut self, model: &str, up: bool)
        requires
            old(self).wf(),
        ensures
            final(self).wf(),
            old(self).same_names(*final(self)),
            final(self).families() == took(
                old(self).families(),
                "kiln_worker_up"@,
                model@,
                if up {
                    1
                } else {
                    0
                },
            ),
    {
        let ghost h0 = self.families();
        proof {
            lemma_stocked(h0, gateway_families(), 8);
        }
        set_one(&mut self.store, "kiln_worker_up", model, if up { 1 } else { 0 });
        proof {
            lemma_still_stocked(h0, self.families());
        }
    }

    /// Counts a restart after a crash.
    pub fn record_restart(&mut self, model: &str)
        requires
            old(self).wf(),
        ensures
            final(self).wf(),
            old(self).same_names(*final(self)),
            final(self).families() == metric_store::counted(
                old(self).families(),
                "kiln_worker_restarts_total"@,
                seq![model@],
                1,
            ),
    {
        let ghost h0 = self.families();
        proof {
            lemma_stocked(h0, gateway_families(), 7);
        }
        add_to(&mut self.store, "kiln_worker_restarts_total", labels1(model), 1);
        proof {
            lemma_still_stocked(h0, self.families());
        }
    }

    /// Counts a deliberate unload.
    pub fn record_unload(&mut self, model: &str, reason: &str)
        requires
            old(self).wf(),
        ensures
            final(self).wf(),
            old(self).same_names(*final(self)),
            final(self).families() == metric_store::counted(
                old(self).families(),
                "kiln_worker_unloads_total"@,
                seq![model@, reason@],
                1,
            ),
    {
        let ghost h0 = self.families();
        proof {
            lemma_stocked(h0, gateway_families(), 9);
        }
        add_to(&mut self.store, "kiln_worker_unloads_total", labels2(model, reason), 1);
        proof {
            lemma_still_stocked(h0, self.families());
        }
    }

    /// Shows the memory ledger: the budget, what is charged against it, and what is
    /// reserved.
    pub fn set_memory(&mut self, budget_bytes: u64, used_bytes: u64, reserved_bytes: u64)
        requires
            old(self).wf(),
        ensures
            final(self).wf(),
            old(self).same_names(*final(self)),
            final(self).families() == memory_set(
                old(self).families(),
                budget_bytes,
                used_bytes,
                reserved_bytes,
            ),
    {
        let ghost h0 = self.families();
        proof {
            lemma_stocked(h0, gateway_families(), 10);
        }
        set_single(&mut self.store, "kiln_memory_budget_bytes", budget_bytes);
        proof {
            lemma_still_stocked(h0, self.families());
        }
        let ghost h1 = self.families();
        proof {
            lemma_stocked(h1, gateway_families(), 11);
        }
        set_single(&mut self.store, "kiln_memory_used_bytes", used_bytes);
        proof {
            lemma_still_stocked(h1, self.families());
        }
        let ghost h2 = self.families();
        proof {
            lemma_stocked(h2, alert_families(), 0);
        }
        set_single(&mut self.store, "kiln_memory_reserved_bytes", reserved_bytes);
        proof {
            lemma_still_stocked(h2, self.families());
        }
    }

    /// Shows what a probe of the system's memory read.
    pub fn set_system(&mut self, memory: SystemMemory)
        requires
            old(self).wf(),
        ensures
            final(self).wf(),
            old(self).same_names(*final(self)),
            final(self).families() == system_set(
                old(self).families(),
                memory,
            ),
    {
        let ghost h0 = self.families();
        proof {
            lemma_stocked(h0, alert_families(), 1);
        }
        set_single(&mut self.store, "kiln_system_available_bytes", memory.available_bytes);
        proof {
            lemma_still_stocked(h0, self.families());
        }
        let ghost h1 = self.families();
        proof {
            lemma_stocked(h1, alert_families(), 2);
        }
        set_single(&mut self.store, "kiln_system_swap_used_bytes", memory.swap_used_bytes);
        proof {
            lemma_still_stocked(h1, self.families());
        }
        let ghost h2 = self.families();
        proof {
            lemma_stocked(h2, alert_families(), 3);
        }
        set_single(&mut self.store, "kiln_system_pressure_level", memory.pressure_level as u64);
        proof {
            lemma_still_stocked(h2, self.families());
        }
    }

    /// Counts a request that was refused for its memory growth.
    pub fn record_admission_reject(&mut self, model: &str)
        requires
            old(self).wf(),
        ensures
            final(self).wf(),
            old(self).same_names(*final(self)),
            final(self).families() == metric_store::counted(
                old(self).families(),
                "kiln_admission_rejects_total"@,
                seq![model@],
                1,
            ),
    {
        let ghost h0 = self.families();
        proof {
            lemma_stocked(h0, alert_families(), 4);
        }
        add_to(&mut self.store, "kiln_admission_rejects_total", labels1(model), 1);
        proof {
            lemma_still_stocked(h0, self.families());
        }
    }

    /// Counts a request that was not let in, where memory was the reason.
    pub fn record_refusal(&mut self, model: &str, error: &ApiError)
        requires
            old(self).wf(),
        ensures
            final(self).wf(),
            old(self).same_names(*final(self)),
            final(self).families() == (if error@.code == "insufficient_memory"@ {
                metric_store::counted(
                    old(self).families(),
                    "kiln_admission_rejects_total"@,
                    seq![model@],
                    1,
                )
            } else {
                old(self).families()
            }),
    {
        if text::same(error.code, "insufficient_memory") {
            self.record_admission_reject(model);
        }
    }

    /// Counts the bytes of a model's pool that no reservation covered. Growth
    /// that was covered leaves no trace.
    pub fn record_uncovered(&mut self, model: &str, bytes: u64)
        requires
            old(self).wf(),
        ensures
            final(self).wf(),
            old(self).same_names(*final(self)),
            final(self).families() == (if bytes == 0 {
                old(self).families()
            } else {
                metric_store::counted(
                old(self).families(),
                "kiln_admission_uncovered_bytes_total"@,
                seq![model@],
                bytes,
            )
            }),
    {
        if bytes == 0 {
            return;
        }
        let ghost h0 = self.families();
        proof {
            lemma_stocked(h0, alert_families(), 5);
        }
        add_to(&mut self.store, "kiln_admission_uncovered_bytes_total", labels1(model), bytes);
        proof {
            lemma_still_stocked(h0, self.families());
        }
    }

    /// Counts a load that was refused.
    pub fn record_load_reject(&mut self, constraint: AdmitConstraint)
        requires
            old(self).wf(),
        ensures
            final(self).wf(),
            old(self).same_names(*final(self)),
            final(self).families() == metric_store::counted(
                old(self).families(),
                "kiln_load_rejects_total"@,
                seq![constraint.spec_label()],
                1,
            ),
    {
        let ghost h0 = self.families();
        proof {
            lemma_stocked(h0, alert_families(), 6);
        }
        add_to(&mut self.store, "kiln_load_rejects_total", labels1(constraint.label()), 1);
        proof {
            lemma_still_stocked(h0, self.families());
        }
    }

    /// Counts a request that a limit of its API key refused.
    pub fn record_rate_limited(&mut self, key: &str, limit: RateLimitKind)
        requires
            old(self).wf(),
        ensures
            final(self).wf(),
            old(self).same_names(*final(self)),
            final(self).families() == metric_store::counted(
                old(self).families(),
                "kiln_rate_limited_total"@,
                seq![key@, limit.spec_label()],
                1,
            ),
    {
        let ghost h0 = self.families();
        proof {
            lemma_stocked(h0, alert_families(), 7);
        }
        add_to(&mut self.store, "kiln_rate_limited_total", labels2(key, limit.label()), 1);
        proof {
            lemma_still_stocked(h0, self.families());
        }
    }

    /// Counts a request that a timeout ended.
    pub fn record_timeout(&mut self, scope: TimeoutScope)
        requires
            old(self).wf(),
        ensures
            final(self).wf(),
            old(self).same_names(*final(self)),
            final(self).families() == metric_store::counted(
                old(self).families(),
                "kiln_timeout_total"@,
                seq![scope.spec_label()],
                1,
            ),
    {
        let ghost h0 = self.families();
        proof {
            lemma_stocked(h0, alert_families(), 8);
        }
        add_to(&mut self.store, "kiln_timeout_total", labels1(scope.label()), 1);
        proof {
            lemma_still_stocked(h0, self.families());
        }
    }

    /// Counts a tool call by what it came to.
    pub fn record_tool_call(&mut self, server: &str, tool: &str, outcome: CallOutcome)
        requires
            old(self).wf(),
        ensures
            final(self).wf(),
            old(self).same_names(*final(self)),
            final(self).families() == metric_store::counted(
                old(self).families(),
                "kiln_mcp_tool_calls_total"@,
                seq![outcome.spec_label(), server@, tool@],
                1,
            ),
    {
        let ghost h0 = self.families();
        proof {
            lemma_stocked(h0, alert_families(), 11);
        }
        add_to(&mut self.store, "kiln_mcp_tool_calls_total", labels3(outcome.label(), server, tool), 1);
        proof {
            lemma_still_stocked(h0, self.families());
        }
    }

    /// Counts a connection attempt to an MCP server.
    fn count_attempt(&mut self, server: &str, outcome: &str)
        requires
            old(self).wf(),
        ensures
            final(self).wf(),
            old(self).same_names(*final(self)),
            final(self).families() == metric_store::counted(
                old(self).families(),
                "kiln_mcp_connect_attempts_total"@,
                seq![outcome@, server@],
                1,
            ),
    {
        let ghost h0 = self.families();
        proof {
            lemma_stocked(h0, alert_families(), 10);
        }
        add_to(&mut self.store, "kiln_mcp_connect_attempts_total", labels2(outcome, server), 1);
        proof {
            lemma_still_stocked(h0, self.families());
        }
    }

    /// Shows whether an MCP server is connected.
    fn set_mcp_up(&mut self, server: &str, up: u64)
        requires
            old(self).wf(),
        ensures
            final(self).wf(),
            old(self).same_names(*final(self)),
            final(self).families() == took(old(self).families(), "kiln_mcp_up"@, server@, up),
    {
        let ghost h0 = self.families();
        proof {
            lemma_stocked(h0, alert_families(), 9);
        }
        set_one(&mut self.store, "kiln_mcp_up", server, up);
        proof {
            lemma_still_stocked(h0, self.families());
        }
    }

    /// Shows what happened to an MCP server.
    pub fn record_mcp(&mut self, server: &str, event: &McpEvent)
        requires
            old(self).wf(),
        ensures
            final(self).wf(),
            old(self).same_names(*final(self)),
            final(self).families() == mcp_shown(old(self).families(), server@, *event),
    {
        match event {
            McpEvent::Connected { .. } => {
                self.count_attempt(server, "ok");
                self.set_mcp_up(server, 1);
            },
            McpEvent::Failed(_) => {
                self.count_attempt(server, "error");
                self.set_mcp_up(server, 0);
            },
            McpEvent::Lost => {
                self.set_mcp_up(server, 0);
            },
            _ => {},
        }
    }
}

/// The exposition shows the memory ledger as it was last set: the budget, what is
/// charged and what is reserved, each on a line of its own.
pub proof fn law_memory_is_shown(
    families: metric_store::Held,
    budget_bytes: u64,
    used_bytes: u64,
    reserved_bytes: u64,
)
    requires
        stocked(families),
        budget_bytes <= metric_store::EXACT,
        used_bytes <= metric_store::EXACT,
        reserved_bytes <= metric_store::EXACT,
    ensures
        ({
            let after = memory_set(families, budget_bytes, used_bytes, reserved_bytes);
            let key = metric_store::label_key(Seq::empty());
            &&& metric_store::shown(after, "kiln_memory_budget_bytes"@, key)
            &&& metric_store::line_of(after, "kiln_memory_budget_bytes"@, key)
                == "kiln_memory_budget_bytes"@ + " "@ + text::decimal(budget_bytes as nat)
            &&& metric_store::shown(after, "kiln_memory_used_bytes"@, key)
            &&& metric_store::line_of(after, "kiln_memory_used_bytes"@, key)
                == "kiln_memory_used_bytes"@ + " "@ + text::decimal(used_bytes as nat)
            &&& metric_store::shown(after, "kiln_memory_reserved_bytes"@, key)
            &&& metric_store::line_of(after, "kiln_memory_reserved_bytes"@, key)
                == "kiln_memory_reserved_bytes"@ + " "@ + text::decimal(reserved_bytes as nat)
        }),
{
    let a = "kiln_memory_budget_bytes"@;
    let b = "kiln_memory_used_bytes"@;
    let c = "kiln_memory_reserved_bytes"@;
    reveal_strlit("kiln_memory_budget_bytes");
    reveal_strlit("kiln_memory_used_bytes");
    reveal_strlit("kiln_memory_reserved_bytes");
    assert(a.len() == 24 && b.len() == 22 && c.len() == 26);
    lemma_stocked(families, gateway_families(), 10);
    lemma_stocked(families, gateway_families(), 11);
    lemma_stocked(families, alert_families(), 0);
    let none = Seq::<Seq<char>>::empty();
    let h1 = metric_store::leveled(families, a, none, clamped(budget_bytes));
    let h2 = metric_store::leveled(h1, b, none, clamped(used_bytes));
    metric_store::law_levels_are_shown(families, a, none, clamped(budget_bytes));
    metric_store::law_levels_are_shown(h1, b, none, clamped(used_bytes));
    metric_store::law_levels_are_shown(h2, c, none, clamped(reserved_bytes));
    assert(a + none_text() =~= a && b + none_text() =~= b && c + none_text() =~= c);
}

/// The text of no labels.
spec fn none_text() -> Seq<char> {
    Seq::empty()
}

/// A family of one gauge has no labels.
spec fn plain(f: metric_store::Family) -> bool {
    f.kind == FamilyKind::OneGauge ==> f.labels.len() == 0
}

proof fn lemma_single_gauges()
    ensures
        forall|i: int| 0 <= i < all_families().len() ==> plain(#[trigger] all_families()[i]),
{
    let all = all_families();
    let a = gateway_families().len() as int;
    let b = alert_families().len() as int;
    let c = memory_families().len() as int;
    assert forall|i: int| 0 <= i < all.len() implies plain(#[trigger] all[i]) by {
        if i < a {
            assert(all[i] == gateway_families()[i]);
        } else if i < a + b {
            assert(all[i] == alert_families()[i - a]);
        } else if i < a + b + c {
            assert(all[i] == memory_families()[i - a - b]);
        } else {
            assert(all[i] == stat_families()[i - a - b - c]);
        }
    }
}

/// The names are told apart.
proof fn lemma_memory_names()
    ensures
        "kiln_worker_memory_bytes"@ != "kiln_worker_weights_bytes"@,
        "kiln_worker_memory_bytes"@ != "kiln_worker_kv_pool_allocated_bytes"@,
        "kiln_worker_memory_bytes"@ != "kiln_worker_mlx_active_bytes"@,
        "kiln_worker_memory_bytes"@ != "kiln_worker_mlx_cache_bytes"@,
        "kiln_worker_memory_bytes"@ != "kiln_worker_process_rss_bytes"@,
        "kiln_worker_weights_bytes"@ != "kiln_worker_kv_pool_allocated_bytes"@,
        "kiln_worker_weights_bytes"@ != "kiln_worker_mlx_active_bytes"@,
        "kiln_worker_weights_bytes"@ != "kiln_worker_mlx_cache_bytes"@,
        "kiln_worker_weights_bytes"@ != "kiln_worker_process_rss_bytes"@,
        "kiln_worker_kv_pool_allocated_bytes"@ != "kiln_worker_mlx_active_bytes"@,
        "kiln_worker_kv_pool_allocated_bytes"@ != "kiln_worker_mlx_cache_bytes"@,
        "kiln_worker_kv_pool_allocated_bytes"@ != "kiln_worker_process_rss_bytes"@,
        "kiln_worker_mlx_active_bytes"@ != "kiln_worker_mlx_cache_bytes"@,
        "kiln_worker_mlx_active_bytes"@ != "kiln_worker_process_rss_bytes"@,
        "kiln_worker_mlx_cache_bytes"@ != "kiln_worker_process_rss_bytes"@,
{
    reveal_strlit("kiln_worker_memory_bytes");
    reveal_strlit("kiln_worker_weights_bytes");
    reveal_strlit("kiln_worker_kv_pool_allocated_bytes");
    reveal_strlit("kiln_worker_mlx_active_bytes");
    reveal_strlit("kiln_worker_mlx_cache_bytes");
    reveal_strlit("kiln_worker_process_rss_bytes");
    assert("kiln_worker_memory_bytes"@.len() != "kiln_worker_weights_bytes"@.len());
    assert("kiln_worker_memory_bytes"@.len() != "kiln_worker_kv_pool_allocated_bytes"@.len());
    assert("kiln_worker_memory_bytes"@.len() != "kiln_worker_mlx_active_bytes"@.len());
    assert("kiln_worker_memory_bytes"@.len() != "kiln_worker_mlx_cache_bytes"@.len());
    assert("kiln_worker_memory_bytes"@.len() != "kiln_worker_process_rss_bytes"@.len());
    assert("kiln_worker_weights_bytes"@.len() != "kiln_worker_kv_pool_allocated_bytes"@.len());
    assert("kiln_worker_weights_bytes"@.len() != "kiln_worker_mlx_active_bytes"@.len());
    assert("kiln_worker_weights_bytes"@.len() != "kiln_worker_mlx_cache_bytes"@.len());
    assert("kiln_worker_weights_bytes"@.len() != "kiln_worker_process_rss_bytes"@.len());
    assert("kiln_worker_kv_pool_allocated_bytes"@.len() != "kiln_worker_mlx_active_bytes"@.len());
    assert("kiln_worker_kv_pool_allocated_bytes"@.len() != "kiln_worker_mlx_cache_bytes"@.len());
    assert("kiln_worker_kv_pool_allocated_bytes"@.len() != "kiln_worker_process_rss_bytes"@.len());
    assert("kiln_worker_mlx_active_bytes"@.len() != "kiln_worker_mlx_cache_bytes"@.len());
    assert("kiln_worker_mlx_active_bytes"@.len() != "kiln_worker_process_rss_bytes"@.len());
    assert("kiln_worker_mlx_cache_bytes"@.len() != "kiln_worker_process_rss_bytes"@.len());
}

/// The names are told apart.
proof fn lemma_stat_names()
    ensures
        "kiln_worker_requests_total"@ != "kiln_worker_requests_failed_total"@,
        "kiln_worker_requests_total"@ != "kiln_worker_requests_cancelled_total"@,
        "kiln_worker_requests_total"@ != "kiln_worker_requests_preempted_total"@,
        "kiln_worker_requests_total"@ != "kiln_worker_tokens_prefilled_total"@,
        "kiln_worker_requests_total"@ != "kiln_worker_tokens_generated_total"@,
        "kiln_worker_requests_total"@ != "kiln_worker_prefix_tokens_reused_total"@,
        "kiln_worker_requests_total"@ != "kiln_worker_kv_blocks_allocated"@,
        "kiln_worker_requests_total"@ != "kiln_worker_kv_blocks_free"@,
        "kiln_worker_requests_total"@ != "kiln_worker_ssd_blocks_stored"@,
        "kiln_worker_requests_total"@ != "kiln_worker_ssd_reads_total"@,
        "kiln_worker_requests_total"@ != "kiln_worker_ssd_writes_total"@,
        "kiln_worker_requests_total"@ != "kiln_worker_ssd_fingerprint_rejects_total"@,
        "kiln_worker_requests_total"@ != "kiln_worker_engine_steps_total"@,
        "kiln_worker_requests_failed_total"@ != "kiln_worker_requests_cancelled_total"@,
        "kiln_worker_requests_failed_total"@ != "kiln_worker_requests_preempted_total"@,
        "kiln_worker_requests_failed_total"@ != "kiln_worker_tokens_prefilled_total"@,
        "kiln_worker_requests_failed_total"@ != "kiln_worker_tokens_generated_total"@,
        "kiln_worker_requests_failed_total"@ != "kiln_worker_prefix_tokens_reused_total"@,
        "kiln_worker_requests_failed_total"@ != "kiln_worker_kv_blocks_allocated"@,
        "kiln_worker_requests_failed_total"@ != "kiln_worker_kv_blocks_free"@,
        "kiln_worker_requests_failed_total"@ != "kiln_worker_ssd_blocks_stored"@,
        "kiln_worker_requests_failed_total"@ != "kiln_worker_ssd_reads_total"@,
        "kiln_worker_requests_failed_total"@ != "kiln_worker_ssd_writes_total"@,
        "kiln_worker_requests_failed_total"@ != "kiln_worker_ssd_fingerprint_rejects_total"@,
        "kiln_worker_requests_failed_total"@ != "kiln_worker_engine_steps_total"@,
        "kiln_worker_requests_cancelled_total"@ != "kiln_worker_requests_preempted_total"@,
        "kiln_worker_requests_cancelled_total"@ != "kiln_worker_tokens_prefilled_total"@,
        "kiln_worker_requests_cancelled_total"@ != "kiln_worker_tokens_generated_total"@,
        "kiln_worker_requests_cancelled_total"@ != "kiln_worker_prefix_tokens_reused_total"@,
        "kiln_worker_requests_cancelled_total"@ != "kiln_worker_kv_blocks_allocated"@,
        "kiln_worker_requests_cancelled_total"@ != "kiln_worker_kv_blocks_free"@,
        "kiln_worker_requests_cancelled_total"@ != "kiln_worker_ssd_blocks_stored"@,
        "kiln_worker_requests_cancelled_total"@ != "kiln_worker_ssd_reads_total"@,
        "kiln_worker_requests_cancelled_total"@ != "kiln_worker_ssd_writes_total"@,
        "kiln_worker_requests_cancelled_total"@ != "kiln_worker_ssd_fingerprint_rejects_total"@,
        "kiln_worker_requests_cancelled_total"@ != "kiln_worker_engine_steps_total"@,
        "kiln_worker_requests_preempted_total"@ != "kiln_worker_tokens_prefilled_total"@,
        "kiln_worker_requests_preempted_total"@ != "kiln_worker_tokens_generated_total"@,
        "kiln_worker_requests_preempted_total"@ != "kiln_worker_prefix_tokens_reused_total"@,
        "kiln_worker_requests_preempted_total"@ != "kiln_worker_kv_blocks_allocated"@,
        "kiln_worker_requests_preempted_total"@ != "kiln_worker_kv_blocks_free"@,
        "kiln_worker_requests_preempted_total"@ != "kiln_worker_ssd_blocks_stored"@,
        "kiln_worker_requests_preempted_total"@ != "kiln_worker_ssd_reads_total"@,
        "kiln_worker_requests_preempted_total"@ != "kiln_worker_ssd_writes_total"@,
        "kiln_worker_requests_preempted_total"@ != "kiln_worker_ssd_fingerprint_rejects_total"@,
        "kiln_worker_requests_preempted_total"@ != "kiln_worker_engine_steps_total"@,
        "kiln_worker_tokens_prefilled_total"@ != "kiln_worker_tokens_generated_total"@,
        "kiln_worker_tokens_prefilled_total"@ != "kiln_worker_prefix_tokens_reused_total"@,
        "kiln_worker_tokens_prefilled_total"@ != "kiln_worker_kv_blocks_allocated"@,
        "kiln_worker_tokens_prefilled_total"@ != "kiln_worker_kv_blocks_free"@,
        "kiln_worker_tokens_prefilled_total"@ != "kiln_worker_ssd_blocks_stored"@,
        "kiln_worker_tokens_prefilled_total"@ != "kiln_worker_ssd_reads_total"@,
        "kiln_worker_tokens_prefilled_total"@ != "kiln_worker_ssd_writes_total"@,
        "kiln_worker_tokens_prefilled_total"@ != "kiln_worker_ssd_fingerprint_rejects_total"@,
        "kiln_worker_tokens_prefilled_total"@ != "kiln_worker_engine_steps_total"@,
        "kiln_worker_tokens_generated_total"@ != "kiln_worker_prefix_tokens_reused_total"@,
        "kiln_worker_tokens_generated_total"@ != "kiln_worker_kv_blocks_allocated"@,
        "kiln_worker_tokens_generated_total"@ != "kiln_worker_kv_blocks_free"@,
        "kiln_worker_tokens_generated_total"@ != "kiln_worker_ssd_blocks_stored"@,
        "kiln_worker_tokens_generated_total"@ != "kiln_worker_ssd_reads_total"@,
        "kiln_worker_tokens_generated_total"@ != "kiln_worker_ssd_writes_total"@,
        "kiln_worker_tokens_generated_total"@ != "kiln_worker_ssd_fingerprint_rejects_total"@,
        "kiln_worker_tokens_generated_total"@ != "kiln_worker_engine_steps_total"@,
        "kiln_worker_prefix_tokens_reused_total"@ != "kiln_worker_kv_blocks_allocated"@,
        "kiln_worker_prefix_tokens_reused_total"@ != "kiln_worker_kv_blocks_free"@,
        "kiln_worker_prefix_tokens_reused_total"@ != "kiln_worker_ssd_blocks_stored"@,
        "kiln_worker_prefix_tokens_reused_total"@ != "kiln_worker_ssd_reads_total"@,
        "kiln_worker_prefix_tokens_reused_total"@ != "kiln_worker_ssd_writes_total"@,
        "kiln_worker_prefix_tokens_reused_total"@ != "kiln_worker_ssd_fingerprint_rejects_total"@,
        "kiln_worker_prefix_tokens_reused_total"@ != "kiln_worker_engine_steps_total"@,
        "kiln_worker_kv_blocks_allocated"@ != "kiln_worker_kv_blocks_free"@,
        "kiln_worker_kv_blocks_allocated"@ != "kiln_worker_ssd_blocks_stored"@,
        "kiln_worker_kv_blocks_allocated"@ != "kiln_worker_ssd_reads_total"@,
        "kiln_worker_kv_blocks_allocated"@ != "kiln_worker_ssd_writes_total"@,
        "kiln_worker_kv_blocks_allocated"@ != "kiln_worker_ssd_fingerprint_rejects_total"@,
        "kiln_worker_kv_blocks_allocated"@ != "kiln_worker_engine_steps_total"@,
        "kiln_worker_kv_blocks_free"@ != "kiln_worker_ssd_blocks_stored"@,
        "kiln_worker_kv_blocks_free"@ != "kiln_worker_ssd_reads_total"@,
        "kiln_worker_kv_blocks_free"@ != "kiln_worker_ssd_writes_total"@,
        "kiln_worker_kv_blocks_free"@ != "kiln_worker_ssd_fingerprint_rejects_total"@,
        "kiln_worker_kv_blocks_free"@ != "kiln_worker_engine_steps_total"@,
        "kiln_worker_ssd_blocks_stored"@ != "kiln_worker_ssd_reads_total"@,
        "kiln_worker_ssd_blocks_stored"@ != "kiln_worker_ssd_writes_total"@,
        "kiln_worker_ssd_blocks_stored"@ != "kiln_worker_ssd_fingerprint_rejects_total"@,
        "kiln_worker_ssd_blocks_stored"@ != "kiln_worker_engine_steps_total"@,
        "kiln_worker_ssd_reads_total"@ != "kiln_worker_ssd_writes_total"@,
        "kiln_worker_ssd_reads_total"@ != "kiln_worker_ssd_fingerprint_rejects_total"@,
        "kiln_worker_ssd_reads_total"@ != "kiln_worker_engine_steps_total"@,
        "kiln_worker_ssd_writes_total"@ != "kiln_worker_ssd_fingerprint_rejects_total"@,
        "kiln_worker_ssd_writes_total"@ != "kiln_worker_engine_steps_total"@,
        "kiln_worker_ssd_fingerprint_rejects_total"@ != "kiln_worker_engine_steps_total"@,
{
    reveal_strlit("kiln_worker_requests_total");
    reveal_strlit("kiln_worker_requests_failed_total");
    reveal_strlit("kiln_worker_requests_cancelled_total");
    reveal_strlit("kiln_worker_requests_preempted_total");
    reveal_strlit("kiln_worker_tokens_prefilled_total");
    reveal_strlit("kiln_worker_tokens_generated_total");
    reveal_strlit("kiln_worker_prefix_tokens_reused_total");
    reveal_strlit("kiln_worker_kv_blocks_allocated");
    reveal_strlit("kiln_worker_kv_blocks_free");
    reveal_strlit("kiln_worker_ssd_blocks_stored");
    reveal_strlit("kiln_worker_ssd_reads_total");
    reveal_strlit("kiln_worker_ssd_writes_total");
    reveal_strlit("kiln_worker_ssd_fingerprint_rejects_total");
    reveal_strlit("kiln_worker_engine_steps_total");
    assert("kiln_worker_requests_total"@.len() != "kiln_worker_requests_failed_total"@.len());
    assert("kiln_worker_requests_total"@.len() != "kiln_worker_requests_cancelled_total"@.len());
    assert("kiln_worker_requests_total"@.len() != "kiln_worker_requests_preempted_total"@.len());
    assert("kiln_worker_requests_total"@.len() != "kiln_worker_tokens_prefilled_total"@.len());
    assert("kiln_worker_requests_total"@.len() != "kiln_worker_tokens_generated_total"@.len());
    assert("kiln_worker_requests_total"@.len() != "kiln_worker_prefix_tokens_reused_total"@.len());
    assert("kiln_worker_requests_total"@.len() != "kiln_worker_kv_blocks_allocated"@.len());
    assert("kiln_worker_requests_total"@[12] != "kiln_worker_kv_blocks_free"@[12]);
    assert("kiln_worker_requests_total"@.len() != "kiln_worker_ssd_blocks_stored"@.len());
    assert("kiln_worker_requests_total"@.len() != "kiln_worker_ssd_reads_total"@.len());
    assert("kiln_worker_requests_total"@.len() != "kiln_worker_ssd_writes_total"@.len());
    assert("kiln_worker_requests_total"@.len() != "kiln_worker_ssd_fingerprint_rejects_total"@.len());
    assert("kiln_worker_requests_total"@.len() != "kiln_worker_engine_steps_total"@.len());
    assert("kiln_worker_requests_failed_total"@.len() != "kiln_worker_requests_cancelled_total"@.len());
    assert("kiln_worker_requests_failed_total"@.len() != "kiln_worker_requests_preempted_total"@.len());
    assert("kiln_worker_requests_failed_total"@.len() != "kiln_worker_tokens_prefilled_total"@.len());
    assert("kiln_worker_requests_failed_total"@.len() != "kiln_worker_tokens_generated_total"@.len());
    assert("kiln_worker_requests_failed_total"@.len() != "kiln_worker_prefix_tokens_reused_total"@.len());
    assert("kiln_worker_requests_failed_total"@.len() != "kiln_worker_kv_blocks_allocated"@.len());
    assert("kiln_worker_requests_failed_total"@.len() != "kiln_worker_kv_blocks_free"@.len());
    assert("kiln_worker_requests_failed_total"@.len() != "kiln_worker_ssd_blocks_stored"@.len());
    assert("kiln_worker_requests_failed_total"@.len() != "kiln_worker_ssd_reads_total"@.len());
    assert("kiln_worker_requests_failed_total"@.len() != "kiln_worker_ssd_writes_total"@.len());
    assert("kiln_worker_requests_failed_total"@.len() != "kiln_worker_ssd_fingerprint_rejects_total"@.len());
    assert("kiln_worker_requests_failed_total"@.len() != "kiln_worker_engine_steps_total"@.len());
    assert("kiln_worker_requests_cancelled_total"@[21] != "kiln_worker_requests_preempted_total"@[21]);
    assert("kiln_worker_requests_cancelled_total"@.len() != "kiln_worker_tokens_prefilled_total"@.len());
    assert("kiln_worker_requests_cancelled_total"@.len() != "kiln_worker_tokens_generated_total"@.len());
    assert("kiln_worker_requests_cancelled_total"@.len() != "kiln_worker_prefix_tokens_reused_total"@.len());
    assert("kiln_worker_requests_cancelled_total"@.len() != "kiln_worker_kv_blocks_allocated"@.len());
    assert("kiln_worker_requests_cancelled_total"@.len() != "kiln_worker_kv_blocks_free"@.len());
    assert("kiln_worker_requests_cancelled_total"@.len() != "kiln_worker_ssd_blocks_stored"@.len());
    assert("kiln_worker_requests_cancelled_total"@.len() != "kiln_worker_ssd_reads_total"@.len());
    assert("kiln_worker_requests_cancelled_total"@.len() != "kiln_worker_ssd_writes_total"@.len());
    assert("kiln_worker_requests_cancelled_total"@.len() != "kiln_worker_ssd_fingerprint_rejects_total"@.len());
    assert("kiln_worker_requests_cancelled_total"@.len() != "kiln_worker_engine_steps_total"@.len());
    assert("kiln_worker_requests_preempted_total"@.len() != "kiln_worker_tokens_prefilled_total"@.len());
    assert("kiln_worker_requests_preempted_total"@.len() != "kiln_worker_tokens_generated_total"@.len());
    assert("kiln_worker_requests_preempted_total"@.len() != "kiln_worker_prefix_tokens_reused_total"@.len());
    assert("kiln_worker_requests_preempted_total"@.len() != "kiln_worker_kv_blocks_allocated"@.len());
    assert("kiln_worker_requests_preempted_total"@.len() != "kiln_worker_kv_blocks_free"@.len());
    assert("kiln_worker_requests_preempted_total"@.len() != "kiln_worker_ssd_blocks_stored"@.len());
    assert("kiln_worker_requests_preempted_total"@.len() != "kiln_worker_ssd_reads_total"@.len());
    assert("kiln_worker_requests_preempted_total"@.len() != "kiln_worker_ssd_writes_total"@.len());
    assert("kiln_worker_requests_preempted_total"@.len() != "kiln_worker_ssd_fingerprint_rejects_total"@.len());
    assert("kiln_worker_requests_preempted_total"@.len() != "kiln_worker_engine_steps_total"@.len());
    assert("kiln_worker_tokens_prefilled_total"@[19] != "kiln_worker_tokens_generated_total"@[19]);
    assert("kiln_worker_tokens_prefilled_total"@.len() != "kiln_worker_prefix_tokens_reused_total"@.len());
    assert("kiln_worker_tokens_prefilled_total"@.len() != "kiln_worker_kv_blocks_allocated"@.len());
    assert("kiln_worker_tokens_prefilled_total"@.len() != "kiln_worker_kv_blocks_free"@.len());
    assert("kiln_worker_tokens_prefilled_total"@.len() != "kiln_worker_ssd_blocks_stored"@.len());
    assert("kiln_worker_tokens_prefilled_total"@.len() != "kiln_worker_ssd_reads_total"@.len());
    assert("kiln_worker_tokens_prefilled_total"@.len() != "kiln_worker_ssd_writes_total"@.len());
    assert("kiln_worker_tokens_prefilled_total"@.len() != "kiln_worker_ssd_fingerprint_rejects_total"@.len());
    assert("kiln_worker_tokens_prefilled_total"@.len() != "kiln_worker_engine_steps_total"@.len());
    assert("kiln_worker_tokens_generated_total"@.len() != "kiln_worker_prefix_tokens_reused_total"@.len());
    assert("kiln_worker_tokens_generated_total"@.len() != "kiln_worker_kv_blocks_allocated"@.len());
    assert("kiln_worker_tokens_generated_total"@.len() != "kiln_worker_kv_blocks_free"@.len());
    assert("kiln_worker_tokens_generated_total"@.len() != "kiln_worker_ssd_blocks_stored"@.len());
    assert("kiln_worker_tokens_generated_total"@.len() != "kiln_worker_ssd_reads_total"@.len());
    assert("kiln_worker_tokens_generated_total"@.len() != "kiln_worker_ssd_writes_total"@.len());
    assert("kiln_worker_tokens_generated_total"@.len() != "kiln_worker_ssd_fingerprint_rejects_total"@.len());
    assert("kiln_worker_tokens_generated_total"@.len() != "kiln_worker_engine_steps_total"@.len());
    assert("kiln_worker_prefix_tokens_reused_total"@.len() != "kiln_worker_kv_blocks_allocated"@.len());
    assert("kiln_worker_prefix_tokens_reused_total"@.len() != "kiln_worker_kv_blocks_free"@.len());
    assert("kiln_worker_prefix_tokens_reused_total"@.len() != "kiln_worker_ssd_blocks_stored"@.len());
    assert("kiln_worker_prefix_tokens_reused_total"@.len() != "kiln_worker_ssd_reads_total"@.len());
    assert("kiln_worker_prefix_tokens_reused_total"@.len() != "kiln_worker_ssd_writes_total"@.len());
    assert("kiln_worker_prefix_tokens_reused_total"@.len() != "kiln_worker_ssd_fingerprint_rejects_total"@.len());
    assert("kiln_worker_prefix_tokens_reused_total"@.len() != "kiln_worker_engine_steps_total"@.len());
    assert("kiln_worker_kv_blocks_allocated"@.len() != "kiln_worker_kv_blocks_free"@.len());
    assert("kiln_worker_kv_blocks_allocated"@.len() != "kiln_worker_ssd_blocks_stored"@.len());
    assert("kiln_worker_kv_blocks_allocated"@.len() != "kiln_worker_ssd_reads_total"@.len());
    assert("kiln_worker_kv_blocks_allocated"@.len() != "kiln_worker_ssd_writes_total"@.len());
    assert("kiln_worker_kv_blocks_allocated"@.len() != "kiln_worker_ssd_fingerprint_rejects_total"@.len());
    assert("kiln_worker_kv_blocks_allocated"@.len() != "kiln_worker_engine_steps_total"@.len());
    assert("kiln_worker_kv_blocks_free"@.len() != "kiln_worker_ssd_blocks_stored"@.len());
    assert("kiln_worker_kv_blocks_free"@.len() != "kiln_worker_ssd_reads_total"@.len());
    assert("kiln_worker_kv_blocks_free"@.len() != "kiln_worker_ssd_writes_total"@.len());
    assert("kiln_worker_kv_blocks_free"@.len() != "kiln_worker_ssd_fingerprint_rejects_total"@.len());
    assert("kiln_worker_kv_blocks_free"@.len() != "kiln_worker_engine_steps_total"@.len());
    assert("kiln_worker_ssd_blocks_stored"@.len() != "kiln_worker_ssd_reads_total"@.len());
    assert("kiln_worker_ssd_blocks_stored"@.len() != "kiln_worker_ssd_writes_total"@.len());
    assert("kiln_worker_ssd_blocks_stored"@.len() != "kiln_worker_ssd_fingerprint_rejects_total"@.len());
    assert("kiln_worker_ssd_blocks_stored"@.len() != "kiln_worker_engine_steps_total"@.len());
    assert("kiln_worker_ssd_reads_total"@.len() != "kiln_worker_ssd_writes_total"@.len());
    assert("kiln_worker_ssd_reads_total"@.len() != "kiln_worker_ssd_fingerprint_rejects_total"@.len());
    assert("kiln_worker_ssd_reads_total"@.len() != "kiln_worker_engine_steps_total"@.len());
    assert("kiln_worker_ssd_writes_total"@.len() != "kiln_worker_ssd_fingerprint_rejects_total"@.len());
    assert("kiln_worker_ssd_writes_total"@.len() != "kiln_worker_engine_steps_total"@.len());
    assert("kiln_worker_ssd_fingerprint_rejects_total"@.len() != "kiln_worker_engine_steps_total"@.len());
}


/// Every family goes by its name, and has its labels in this order.
pub proof fn law_families_have_their_names_and_labels()
    ensures
        gateway_families().len() == 12,
        gateway_families()[0].name == "kiln_http_requests_total"@,
        gateway_families()[0].kind == FamilyKind::Counters,
        gateway_families()[0].labels.len() == 3,
        gateway_families()[0].labels[0] == "method"@,
        gateway_families()[0].labels[1] == "path"@,
        gateway_families()[0].labels[2] == "status"@,
        gateway_families()[1].name == "kiln_http_request_duration_seconds"@,
        gateway_families()[1].kind == FamilyKind::Histograms,
        gateway_families()[1].labels.len() == 1,
        gateway_families()[1].labels[0] == "path"@,
        gateway_families()[2].name == "kiln_chat_completions_total"@,
        gateway_families()[2].kind == FamilyKind::Counters,
        gateway_families()[2].labels.len() == 2,
        gateway_families()[2].labels[0] == "model"@,
        gateway_families()[2].labels[1] == "outcome"@,
        gateway_families()[3].name == "kiln_completions_total"@,
        gateway_families()[3].kind == FamilyKind::Counters,
        gateway_families()[3].labels.len() == 2,
        gateway_families()[3].labels[0] == "model"@,
        gateway_families()[3].labels[1] == "outcome"@,
        gateway_families()[4].name == "kiln_messages_total"@,
        gateway_families()[4].kind == FamilyKind::Counters,
        gateway_families()[4].labels.len() == 2,
        gateway_families()[4].labels[0] == "model"@,
        gateway_families()[4].labels[1] == "outcome"@,
        gateway_families()[5].name == "kiln_prompt_tokens_total"@,
        gateway_families()[5].kind == FamilyKind::Counters,
        gateway_families()[5].labels.len() == 1,
        gateway_families()[5].labels[0] == "model"@,
        gateway_families()[6].name == "kiln_completion_tokens_total"@,
        gateway_families()[6].kind == FamilyKind::Counters,
        gateway_families()[6].labels.len() == 1,
        gateway_families()[6].labels[0] == "model"@,
        gateway_families()[7].name == "kiln_worker_restarts_total"@,
        gateway_families()[7].kind == FamilyKind::Counters,
        gateway_families()[7].labels.len() == 1,
        gateway_families()[7].labels[0] == "model"@,
        gateway_families()[8].name == "kiln_worker_up"@,
        gateway_families()[8].kind == FamilyKind::Gauges,
        gateway_families()[8].labels.len() == 1,
        gateway_families()[8].labels[0] == "model"@,
        gateway_families()[9].name == "kiln_worker_unloads_total"@,
        gateway_families()[9].kind == FamilyKind::Counters,
        gateway_families()[9].labels.len() == 2,
        gateway_families()[9].labels[0] == "model"@,
        gateway_families()[9].labels[1] == "reason"@,
        gateway_families()[10].name == "kiln_memory_budget_bytes"@,
        gateway_families()[10].kind == FamilyKind::OneGauge,
        gateway_families()[10].labels.len() == 0,
        gateway_families()[11].name == "kiln_memory_used_bytes"@,
        gateway_families()[11].kind == FamilyKind::OneGauge,
        gateway_families()[11].labels.len() == 0,
        alert_families().len() == 12,
        alert_families()[0].name == "kiln_memory_reserved_bytes"@,
        alert_families()[0].kind == FamilyKind::OneGauge,
        alert_families()[0].labels.len() == 0,
        alert_families()[1].name == "kiln_system_available_bytes"@,
        alert_families()[1].kind == FamilyKind::OneGauge,
        alert_families()[1].labels.len() == 0,
        alert_families()[2].name == "kiln_system_swap_used_bytes"@,
        alert_families()[2].kind == FamilyKind::OneGauge,
        alert_families()[2].labels.len() == 0,
        alert_families()[3].name == "kiln_system_pressure_level"@,
        alert_families()[3].kind == FamilyKind::OneGauge,
        alert_families()[3].labels.len() == 0,
        alert_families()[4].name == "kiln_admission_rejects_total"@,
        alert_families()[4].kind == FamilyKind::Counters,
        alert_families()[4].labels.len() == 1,
        alert_families()[4].labels[0] == "model"@,
        alert_families()[5].name == "kiln_admission_uncovered_bytes_total"@,
        alert_families()[5].kind == FamilyKind::Counters,
        alert_families()[5].labels.len() == 1,
        alert_families()[5].labels[0] == "model"@,
        alert_families()[6].name == "kiln_load_rejects_total"@,
        alert_families()[6].kind == FamilyKind::Counters,
        alert_families()[6].labels.len() == 1,
        alert_families()[6].labels[0] == "constraint"@,
        alert_families()[7].name == "kiln_rate_limited_total"@,
        alert_families()[7].kind == FamilyKind::Counters,
        alert_families()[7].labels.len() == 2,
        alert_families()[7].labels[0] == "key"@,
        alert_families()[7].labels[1] == "limit"@,
        alert_families()[8].name == "kiln_timeout_total"@,
        alert_families()[8].kind == FamilyKind::Counters,
        alert_families()[8].labels.len() == 1,
        alert_families()[8].labels[0] == "scope"@,
        alert_families()[9].name == "kiln_mcp_up"@,
        alert_families()[9].kind == FamilyKind::Gauges,
        alert_families()[9].labels.len() == 1,
        alert_families()[9].labels[0] == "server"@,
        alert_families()[10].name == "kiln_mcp_connect_attempts_total"@,
        alert_families()[10].kind == FamilyKind::Counters,
        alert_families()[10].labels.len() == 2,
        alert_families()[10].labels[0] == "outcome"@,
        alert_families()[10].labels[1] == "server"@,
        alert_families()[11].name == "kiln_mcp_tool_calls_total"@,
        alert_families()[11].kind == FamilyKind::Counters,
        alert_families()[11].labels.len() == 3,
        alert_families()[11].labels[0] == "outcome"@,
        alert_families()[11].labels[1] == "server"@,
        alert_families()[11].labels[2] == "tool"@,
        memory_families().len() == 6,
        memory_families()[0].name == "kiln_worker_memory_bytes"@,
        memory_families()[0].kind == FamilyKind::Gauges,
        memory_families()[0].labels.len() == 1,
        memory_families()[0].labels[0] == "model"@,
        memory_families()[1].name == "kiln_worker_weights_bytes"@,
        memory_families()[1].kind == FamilyKind::Gauges,
        memory_families()[1].labels.len() == 1,
        memory_families()[1].labels[0] == "model"@,
        memory_families()[2].name == "kiln_worker_kv_pool_allocated_bytes"@,
        memory_families()[2].kind == FamilyKind::Gauges,
        memory_families()[2].labels.len() == 1,
        memory_families()[2].labels[0] == "model"@,
        memory_families()[3].name == "kiln_worker_mlx_active_bytes"@,
        memory_families()[3].kind == FamilyKind::Gauges,
        memory_families()[3].labels.len() == 1,
        memory_families()[3].labels[0] == "model"@,
        memory_families()[4].name == "kiln_worker_mlx_cache_bytes"@,
        memory_families()[4].kind == FamilyKind::Gauges,
        memory_families()[4].labels.len() == 1,
        memory_families()[4].labels[0] == "model"@,
        memory_families()[5].name == "kiln_worker_process_rss_bytes"@,
        memory_families()[5].kind == FamilyKind::Gauges,
        memory_families()[5].labels.len() == 1,
        memory_families()[5].labels[0] == "model"@,
        stat_families().len() == 14,
        stat_families()[0].name == "kiln_worker_requests_total"@,
        stat_families()[0].kind == FamilyKind::Gauges,
        stat_families()[0].labels.len() == 1,
        stat_families()[0].labels[0] == "model"@,
        stat_families()[1].name == "kiln_worker_requests_failed_total"@,
        stat_families()[1].kind == FamilyKind::Gauges,
        stat_families()[1].labels.len() == 1,
        stat_families()[1].labels[0] == "model"@,
        stat_families()[2].name == "kiln_worker_requests_cancelled_total"@,
        stat_families()[2].kind == FamilyKind::Gauges,
        stat_families()[2].labels.len() == 1,
        stat_families()[2].labels[0] == "model"@,
        stat_families()[3].name == "kiln_worker_requests_preempted_total"@,
        stat_families()[3].kind == FamilyKind::Gauges,
        stat_families()[3].labels.len() == 1,
        stat_families()[3].labels[0] == "model"@,
        stat_families()[4].name == "kiln_worker_tokens_prefilled_total"@,
        stat_families()[4].kind == FamilyKind::Gauges,
        stat_families()[4].labels.len() == 1,
        stat_families()[4].labels[0] == "model"@,
        stat_families()[5].name == "kiln_worker_tokens_generated_total"@,
        stat_families()[5].kind == FamilyKind::Gauges,
        stat_families()[5].labels.len() == 1,
        stat_families()[5].labels[0] == "model"@,
        stat_families()[6].name == "kiln_worker_prefix_tokens_reused_total"@,
        stat_families()[6].kind == FamilyKind::Gauges,
        stat_families()[6].labels.len() == 1,
        stat_families()[6].labels[0] == "model"@,
        stat_families()[7].name == "kiln_worker_kv_blocks_allocated"@,
        stat_families()[7].kind == FamilyKind::Gauges,
        stat_families()[7].labels.len() == 1,
        stat_families()[7].labels[0] == "model"@,
        stat_families()[8].name == "kiln_worker_kv_blocks_free"@,
        stat_families()[8].kind == FamilyKind::Gauges,
        stat_families()[8].labels.len() == 1,
        stat_families()[8].labels[0] == "model"@,
        stat_families()[9].name == "kiln_worker_ssd_blocks_stored"@,
        stat_families()[9].kind == FamilyKind::Gauges,
        stat_families()[9].labels.len() == 1,
        stat_families()[9].labels[0] == "model"@,
        stat_families()[10].name == "kiln_worker_ssd_reads_total"@,
        stat_families()[10].kind == FamilyKind::Gauges,
        stat_families()[10].labels.len() == 1,
        stat_families()[10].labels[0] == "model"@,
        stat_families()[11].name == "kiln_worker_ssd_writes_total"@,
        stat_families()[11].kind == FamilyKind::Gauges,
        stat_families()[11].labels.len() == 1,
        stat_families()[11].labels[0] == "model"@,
        stat_families()[12].name == "kiln_worker_ssd_fingerprint_rejects_total"@,
        stat_families()[12].kind == FamilyKind::Gauges,
        stat_families()[12].labels.len() == 1,
        stat_families()[12].labels[0] == "model"@,
        stat_families()[13].name == "kiln_worker_engine_steps_total"@,
        stat_families()[13].kind == FamilyKind::Gauges,
        stat_families()[13].labels.len() == 1,
        stat_families()[13].labels[0] == "model"@,
{
}

/// The level that a gauge of a model, or of a server, shows.
pub open spec fn level_of(families: metric_store::Held, name: Seq<char>, of: Seq<char>) -> int {
    match metric_store::sample_at(families[name].metrics, metric_store::label_key(seq![of])) {
        metric_store::Sample::Level(n) => n as int,
        _ => -1,
    }
}

/// The level that the one gauge of a family shows.
pub open spec fn sole_level(families: metric_store::Held, name: Seq<char>) -> int {
    match metric_store::sample_at(families[name].metrics, metric_store::label_key(Seq::empty())) {
        metric_store::Sample::Level(n) => n as int,
        _ => -1,
    }
}

/// A level is shown as it is, up to the largest that a gauge can hold.
pub proof fn law_levels_are_clamped(n: u64)
    ensures
        n <= i64::MAX ==> clamped(n) == n,
        n > i64::MAX ==> clamped(n) == i64::MAX,
{
}

/// A gauge takes the level of one model and leaves the other families alone.
pub proof fn law_gauges_take_levels_one_by_one(
    families: metric_store::Held,
    name: Seq<char>,
    of: Seq<char>,
    n: u64,
    other: Seq<char>,
)
    ensures
        level_of(took(families, name, of, n), name, of) == clamped(n),
        other != name ==> took(families, name, of, n)[other] == families[other],
{
}

/// Every number of a worker's memory is shown in the gauge of its own name.
pub proof fn law_memory_reports_are_shown(
    families: metric_store::Held,
    model: Seq<char>,
    report: MemoryReport,
    footprint_bytes: u64,
)
    ensures
        ({
            let after = memory_shown(families, model, report, footprint_bytes);
            &&& level_of(after, "kiln_worker_memory_bytes"@, model) == clamped(footprint_bytes)
            &&& level_of(after, "kiln_worker_weights_bytes"@, model) == clamped(report.weights_bytes)
            &&& level_of(after, "kiln_worker_kv_pool_allocated_bytes"@, model) == clamped(report.kv_pool_allocated_bytes)
            &&& level_of(after, "kiln_worker_mlx_active_bytes"@, model) == clamped(report.mlx_active_bytes)
            &&& level_of(after, "kiln_worker_mlx_cache_bytes"@, model) == clamped(report.mlx_cache_bytes)
            &&& level_of(after, "kiln_worker_process_rss_bytes"@, model) == clamped(report.process_rss_bytes)
        }),
{
    lemma_memory_names();
}

/// A worker that is gone has no memory.
pub proof fn law_gone_workers_have_no_memory()
    ensures
        no_memory().weights_bytes == 0,
        no_memory().kv_pool_allocated_bytes == 0,
        no_memory().kv_pool_used_bytes == 0,
        no_memory().mlx_active_bytes == 0,
        no_memory().mlx_cache_bytes == 0,
        no_memory().process_rss_bytes == 0,
{
}

/// Every number of a worker's statistics is shown in the gauge of its own name.
pub proof fn law_statistics_are_shown(
    families: metric_store::Held,
    model: Seq<char>,
    stats: WorkerStats,
)
    ensures
        ({
            let after = stats_shown(families, model, stats);
            &&& level_of(after, "kiln_worker_requests_total"@, model) == clamped(stats.requests_total)
            &&& level_of(after, "kiln_worker_requests_failed_total"@, model) == clamped(stats.requests_failed)
            &&& level_of(after, "kiln_worker_requests_cancelled_total"@, model) == clamped(stats.requests_cancelled)
            &&& level_of(after, "kiln_worker_requests_preempted_total"@, model) == clamped(stats.requests_preempted)
            &&& level_of(after, "kiln_worker_tokens_prefilled_total"@, model) == clamped(stats.tokens_prefilled_total)
            &&& level_of(after, "kiln_worker_tokens_generated_total"@, model) == clamped(stats.tokens_generated_total)
            &&& level_of(after, "kiln_worker_prefix_tokens_reused_total"@, model) == clamped(stats.prefix_tokens_reused_total)
            &&& level_of(after, "kiln_worker_kv_blocks_allocated"@, model) == clamped(stats.kv_blocks_allocated)
            &&& level_of(after, "kiln_worker_kv_blocks_free"@, model) == clamped(stats.kv_blocks_free)
            &&& level_of(after, "kiln_worker_ssd_blocks_stored"@, model) == clamped(stats.ssd_blocks_stored)
            &&& level_of(after, "kiln_worker_ssd_reads_total"@, model) == clamped(stats.ssd_reads_total)
            &&& level_of(after, "kiln_worker_ssd_writes_total"@, model) == clamped(stats.ssd_writes_total)
            &&& level_of(after, "kiln_worker_ssd_fingerprint_rejects_total"@, model) == clamped(stats.ssd_fingerprint_rejects_total)
            &&& level_of(after, "kiln_worker_engine_steps_total"@, model) == clamped(stats.engine_steps_total)
        }),
{
    lemma_stat_names();
}

/// What a probe of the system read is shown in three gauges.
pub proof fn law_system_readings_are_shown(families: metric_store::Held, memory: SystemMemory)
    ensures
        ({
            let after = system_set(families, memory);
            &&& sole_level(after, "kiln_system_available_bytes"@) == clamped(memory.available_bytes)
            &&& sole_level(after, "kiln_system_swap_used_bytes"@) == clamped(memory.swap_used_bytes)
            &&& sole_level(after, "kiln_system_pressure_level"@) == memory.pressure_level
        }),
{
    reveal_strlit("kiln_system_available_bytes");
    reveal_strlit("kiln_system_swap_used_bytes");
    reveal_strlit("kiln_system_pressure_level");
    let a = "kiln_system_available_bytes"@;
    let b = "kiln_system_swap_used_bytes"@;
    let c = "kiln_system_pressure_level"@;
    assert(a.len() == 27 && b.len() == 27 && c.len() == 26);
    assert(a[12] != b[12]);
}

/// Each endpoint counts in a family of its own, and each limit has its own word.
pub proof fn law_endpoints_count_apart()
    ensures
        Endpoint::Chat.family_name() == "kiln_chat_completions_total"@,
        Endpoint::Completions.family_name() == "kiln_completions_total"@,
        Endpoint::Messages.family_name() == "kiln_messages_total"@,
        RateLimitKind::Requests.spec_label() == "requests"@,
        RateLimitKind::Tokens.spec_label() == "tokens"@,
{
}

/// A server is shown up from a successful connection on, and down once an attempt fails or its
/// connection is lost; attempts are counted with what came of them, and nothing else is.
pub proof fn law_connections_are_shown(
    families: metric_store::Held,
    server: Seq<char>,
    event: McpEvent,
)
    ensures
        ({
            let after = mcp_shown(families, server, event);
            let up = level_of(after, "kiln_mcp_up"@, server);
            let tries = "kiln_mcp_connect_attempts_total"@;
            &&& event is Connected ==> up == 1 && after[tries] == metric_store::counted(
                families,
                tries,
                seq!["ok"@, server],
                1,
            )[tries]
            &&& event is Failed ==> up == 0 && after[tries] == metric_store::counted(
                families,
                tries,
                seq!["error"@, server],
                1,
            )[tries]
            &&& event is Lost ==> up == 0 && after[tries] == families[tries]
            &&& event !is Connected && event !is Failed && event !is Lost ==> after == families
        }),
{
    reveal_strlit("kiln_mcp_up");
    reveal_strlit("kiln_mcp_connect_attempts_total");
    assert("kiln_mcp_up"@.len() != "kiln_mcp_connect_attempts_total"@.len());
}

} // verus!
