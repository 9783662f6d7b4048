//! The admin models table, its actions, and the live statistics. Actions are
//! translations onto the lifecycle: they are accepted here and complete in the
//! model's supervision.

use crate::app;
use crate::config::WorkerKind;
use crate::error;
use crate::error::ApiError;
use crate::error::ApiErrorView;
use crate::json;
use crate::json::JsonView;
use crate::json::NumberView;
use crate::lifecycle;
use crate::lifecycle::Command;
use crate::lifecycle::Ledger;
use crate::lifecycle::Lifecycle;
use crate::lifecycle::MemoryReport;
use crate::metrics::WorkerStats;
use crate::registry::ModelEntry;
use crate::registry::Registry;
use crate::status::UnloadReason;
use crate::status::WorkerStatus;
use serde_json::Value;
use vstd::prelude::*;
use vstd::string::*;

verus! {

/// How often a statistics snapshot is sent.
pub const STATS_TICK_MS: u64 = 1_000;

/// How long a worker gets to answer for a snapshot: a slow one costs a stale
/// sample, never a stalled stream.
pub const STATS_RPC_TIMEOUT_MS: u64 = 500;

pub open spec fn spec_worker_label(kind: WorkerKind) -> Seq<char> {
    match kind {
        WorkerKind::Rust => "rust"@,
        WorkerKind::Python => "python"@,
        WorkerKind::Auto => "auto"@,
    }
}

/// The word operators see for a worker kind.
pub fn worker_label(kind: WorkerKind) -> (r: &'static str)
    ensures
        r@ == spec_worker_label(kind),
{
    match kind {
        WorkerKind::Rust => "rust",
        WorkerKind::Python => "python",
        WorkerKind::Auto => "auto",
    }
}

/// The fields of a row of the models table, live numbers aside.
pub open spec fn model_row(entry: ModelEntry, l: Ledger) -> Map<Seq<char>, JsonView> {
    map![
        "id"@ => JsonView::Str(entry.id@),
        "path"@ => JsonView::Str(entry.model_path@),
        "worker"@ => JsonView::Str(spec_worker_label(entry.worker_kind)),
        "status"@ => JsonView::Str(app::shown(l, entry.id@).spec_text()),
        "pinned"@ => JsonView::Bool(if l.has(entry.id@) {
            l.slot(entry.id@).pinned
        } else {
            entry.config.pinned
        }),
        "ttl_seconds"@ => JsonView::Number(NumberView::Unsigned(entry.config.ttl_seconds)),
        "usage_bytes"@ => JsonView::Number(NumberView::Unsigned(if l.has(entry.id@) {
            l.slot(entry.id@).usage_bytes
        } else {
            0
        })),
        "created_unix"@ => JsonView::Number(NumberView::Unsigned(entry.created_unix))
    ]
}

/// One row of the models table.
pub fn model_json(entry: &ModelEntry, ledger: &Lifecycle) -> (r: Value)
    requires
        ledger.wf(),
    ensures
        json::contents(r) == JsonView::Object(model_row(*entry, ledger@)),
{
    let id: &str = entry.id.as_str();
    let pinned: bool = match ledger.pinned(id) {
        Some(p) => p,
        None => entry.config.pinned,
    };
    let status: WorkerStatus = app::shown_status(ledger, id);
    let o: Value = json::with(json::object(), "id", json::string(id));
    let o: Value = json::with(o, "path", json::string(entry.model_path.as_str()));
    let o: Value = json::with(o, "worker", json::string(worker_label(entry.worker_kind)));
    let o: Value = json::with(o, "status", json::string(status.text().as_str()));
    let o: Value = json::with(o, "pinned", json::boolean(pinned));
    let o: Value = json::with(o, "ttl_seconds", json::unsigned(entry.config.ttl_seconds));
    let o: Value = json::with(o, "usage_bytes", json::unsigned(ledger.model_usage_bytes(id)));
    json::with(o, "created_unix", json::unsigned(entry.created_unix))
}

/// The machine memory ledger.
pub open spec fn memory_row(l: Ledger) -> JsonView {
    JsonView::Object(
        map![
            "budget_bytes"@ => JsonView::Number(NumberView::Unsigned(l.budget_bytes)),
            "used_bytes"@ => JsonView::Number(NumberView::Unsigned(l.used() as u64)),
            "reserved_bytes"@ => JsonView::Number(NumberView::Unsigned(l.reserved() as u64)),
            "total_bytes"@ => json::opt_num(l.total_bytes)
        ],
    )
}

/// The machine memory ledger.
pub fn memory_json(ledger: &Lifecycle) -> (r: Value)
    requires
        ledger@.sums_fit(),
    ensures
        json::contents(r) == memory_row(ledger@),
{
    let o: Value = json::with(
        json::object(),
        "budget_bytes",
        json::unsigned(ledger.budget_bytes),
    );
    let o: Value = json::with(o, "used_bytes", json::unsigned(ledger.used_bytes()));
    let o: Value = json::with(o, "reserved_bytes", json::unsigned(ledger.reserved_bytes()));
    json::with(o, "total_bytes", json::opt_unsigned(ledger.total_bytes))
}

/// The models table and the machine memory ledger.
pub fn list_models(registry: &Registry, ledger: &Lifecycle) -> (r: Value)
    requires
        ledger.wf(),
        ledger@.sums_fit(),
    ensures
        json::contents(r) == JsonView::Object(
            map![
                "models"@ => JsonView::Array(
                    Seq::new(
                        registry.entries@.len(),
                        |i: int| JsonView::Object(model_row(registry.entries@[i], ledger@)),
                    ),
                ),
                "memory"@ => memory_row(ledger@)
            ],
        ),
{
    let mut models: Vec<Value> = Vec::new();
    let mut i: usize = 0;
    while i < registry.entries.len()
        invariant
            i <= registry.entries@.len(),
            ledger.wf(),
            models@.len() == i,
            forall|j: int|
                0 <= j < i ==> json::contents(#[trigger] models@[j]) == JsonView::Object(
                    model_row(registry.entries@[j], ledger@),
                ),
        decreases registry.entries@.len() - i,
    {
        models.push(model_json(&registry.entries[i], ledger));
        i = i + 1;
    }
    assert(json::list_contents(models@) =~= Seq::new(
        registry.entries@.len(),
        |i: int| JsonView::Object(model_row(registry.entries@[i], ledger@)),
    ));
    let o: Value = json::with(json::object(), "models", json::array(models));
    json::with(o, "memory", memory_json(ledger))
}

/// What an operator's action is answered, and the order it sends to the
/// model's supervision.
#[derive(Debug)]
pub struct AdminAnswer {
    pub status: u16,
    pub body: Value,
    pub command: Option<Command>,
}

/// The error of an action on a model that is not configured.
pub open spec fn unknown_model(id: Seq<char>) -> ApiErrorView {
    error::not_found("no configured model with id '"@ + id + "'"@)
}

fn unknown(id: &str) -> (r: ApiError)
    ensures
        r@ == unknown_model(id@),
{
    let mut m: String = "no configured model with id '".to_owned();
    m.append(id);
    m.append("'");
    ApiError::not_found(m)
}

/// An action that was accepted.
pub open spec fn accepted(id: Seq<char>, action: Seq<char>) -> JsonView {
    JsonView::Object(
        map![
            "id"@ => JsonView::Str(id),
            "action"@ => JsonView::Str(action)
        ],
    )
}

/// An action that has nothing to do.
pub open spec fn nothing_to_do(id: Seq<char>, status: WorkerStatus) -> JsonView {
    JsonView::Object(
        map![
            "id"@ => JsonView::Str(id),
            "action"@ => JsonView::Str("none"@),
            "status"@ => JsonView::Str(status.spec_text())
        ],
    )
}

fn accept(id: &str, action: &'static str, command: Command) -> (r: AdminAnswer)
    ensures
        r.status == 202,
        json::contents(r.body) == accepted(id@, action@),
        r.command == Some(command),
{
    let o: Value = json::with(json::object(), "id", json::string(id));
    AdminAnswer {
        status: 202,
        body: json::with(o, "action", json::string(action)),
        command: Some(command),
    }
}

fn no_action(id: &str, status: WorkerStatus) -> (r: AdminAnswer)
    ensures
        r.status == 200,
        json::contents(r.body) == nothing_to_do(id@, status),
        r.command is None,
{
    let o: Value = json::with(json::object(), "id", json::string(id));
    let o: Value = json::with(o, "action", json::string("none"));
    AdminAnswer {
        status: 200,
        body: json::with(o, "status", json::string(status.text().as_str())),
        command: None,
    }
}

/// A conflict that names the model: its words stand around the id.
fn conflict(code: &'static str, id: &str, words: &str) -> (r: ApiError)
    ensures
        r@ == error::conflict(code@, "model '"@ + id@ + words@),
{
    let mut m: String = "model '".to_owned();
    m.append(id);
    m.append(words);
    ApiError::conflict(code, m)
}

fn busy(id: &str, status: WorkerStatus, words: &str) -> (r: ApiError)
    ensures
        r@ == error::conflict(
            "model_busy"@,
            "model '"@ + id@ + "' is "@ + status.spec_text() + words@,
        ),
{
    let mut m: String = "model '".to_owned();
    m.append(id);
    m.append("' is ");
    m.append(status.text().as_str());
    m.append(words);
    ApiError::conflict("model_busy", m)
}

/// What a load of a model in the given state is refused with, if it is.
pub open spec fn load_refusal(id: Seq<char>, status: WorkerStatus) -> Option<ApiErrorView> {
    match status {
        WorkerStatus::Unloaded { .. }
        | WorkerStatus::Ready
        | WorkerStatus::Starting
        | WorkerStatus::Restarting { .. } => None,
        WorkerStatus::Failed => Some(
            error::conflict(
                "model_failed"@,
                "model '"@ + id
                    + "' exceeded its restart budget and requires a manual reset (restart the gateway)"@,
            ),
        ),
        WorkerStatus::Draining | WorkerStatus::Stopped => Some(
            error::conflict(
                "model_busy"@,
                "model '"@ + id + "' is "@ + status.spec_text() + "; retry shortly"@,
            ),
        ),
    }
}

/// Asks the supervisor to load an unloaded model. A model that is loaded or on
/// its way is left alone.
pub fn load_model(registry: &Registry, ledger: &Lifecycle, id: &str) -> (r: Result<
    AdminAnswer,
    ApiError,
>)
    requires
        ledger.wf(),
    ensures
        ({
            let status = app::shown(ledger@, id@);
            match r {
                Err(e) => if registry.has(id@) {
                    load_refusal(id@, status) == Some(e@)
                } else {
                    e@ == unknown_model(id@)
                },
                Ok(answer) => {
                    &&& registry.has(id@)
                    &&& load_refusal(id@, status) is None
                    &&& if status is Unloaded {
                        &&& answer.status == 202
                        &&& json::contents(answer.body) == accepted(id@, "load"@)
                        &&& answer.command == Some(Command::Load)
                    } else {
                        &&& answer.status == 200
                        &&& json::contents(answer.body) == nothing_to_do(id@, status)
                        &&& answer.command is None
                    }
                },
            }
        }),
{
    if registry.position(id).is_none() {
        return Err(unknown(id));
    }
    let status: WorkerStatus = app::shown_status(ledger, id);
    match status {
        WorkerStatus::Unloaded { .. } => Ok(accept(id, "load", Command::Load)),
        WorkerStatus::Ready | WorkerStatus::Starting | WorkerStatus::Restarting { .. } => Ok(
            no_action(id, status),
        ),
        WorkerStatus::Failed => Err(
            conflict(
                "model_failed",
                id,
                "' exceeded its restart budget and requires a manual reset (restart the gateway)",
            ),
        ),
        WorkerStatus::Draining | WorkerStatus::Stopped => Err(
            busy(id, status, "; retry shortly"),
        ),
    }
}

/// What an unload of a model in the given state is refused with, if it is.
pub open spec fn unload_refusal(id: Seq<char>, status: WorkerStatus, supervised: bool) -> Option<
    ApiErrorView,
> {
    match status {
        WorkerStatus::Ready | WorkerStatus::Restarting { .. } => if supervised {
            None
        } else {
            Some(error::internal("supervision task for model '"@ + id + "' is gone"@))
        },
        WorkerStatus::Unloaded { .. } | WorkerStatus::Draining => None,
        WorkerStatus::Failed => Some(
            error::conflict(
                "model_failed"@,
                "model '"@ + id + "' is failed; nothing is running"@,
            ),
        ),
        WorkerStatus::Starting | WorkerStatus::Stopped => Some(
            error::conflict(
                "model_busy"@,
                "model '"@ + id + "' is "@ + status.spec_text() + "; retry when it settles"@,
            ),
        ),
    }
}

/// Asks the supervisor to unload a model. `supervised` tells whether its
/// supervision task takes orders. An unload during a crash's backoff cancels
/// the pending restart.
pub fn unload_model(registry: &Registry, ledger: &Lifecycle, id: &str, supervised: bool) -> (r:
    Result<AdminAnswer, ApiError>)
    requires
        ledger.wf(),
    ensures
        ({
            let status = app::shown(ledger@, id@);
            match r {
                Err(e) => if registry.has(id@) {
                    unload_refusal(id@, status, supervised) == Some(e@)
                } else {
                    e@ == unknown_model(id@)
                },
                Ok(answer) => {
                    &&& registry.has(id@)
                    &&& unload_refusal(id@, status, supervised) is None
                    &&& if status is Ready || status is Restarting {
                        &&& answer.status == 202
                        &&& json::contents(answer.body) == accepted(id@, "unload"@)
                        &&& answer.command == Some(
                            Command::Unload { reason: UnloadReason::Admin },
                        )
                    } else {
                        &&& answer.status == 200
                        &&& json::contents(answer.body) == nothing_to_do(id@, status)
                        &&& answer.command is None
                    }
                },
            }
        }),
{
    if registry.position(id).is_none() {
        return Err(unknown(id));
    }
    let status: WorkerStatus = app::shown_status(ledger, id);
    match status {
        WorkerStatus::Ready | WorkerStatus::Restarting { .. } => if supervised {
            Ok(accept(id, "unload", Command::Unload { reason: UnloadReason::Admin }))
        } else {
            let mut m: String = "supervision task for model '".to_owned();
            m.append(id);
            m.append("' is gone");
            Err(ApiError::internal(m))
        },
        WorkerStatus::Unloaded { .. } | WorkerStatus::Draining => Ok(no_action(id, status)),
        WorkerStatus::Failed => Err(
            conflict("model_failed", id, "' is failed; nothing is running"),
        ),
        WorkerStatus::Starting | WorkerStatus::Stopped => Err(
            busy(id, status, "; retry when it settles"),
        ),
    }
}

/// The body of a pin request.
#[derive(Debug, Clone, Copy, PartialEq, Eq, Structural)]
pub struct PinBody {
    pub pinned: bool,
}

/// Toggles eviction pinning at runtime; the configuration stays the boot-time
/// source of truth.
pub fn pin_model(registry: &Registry, ledger: &mut Lifecycle, id: &str, body: PinBody) -> (r:
    Result<Value, ApiError>)
    requires
        old(ledger).wf(),
    ensures
        final(ledger).wf(),
        match r {
            Ok(value) => {
                &&& registry.has(id@)
                &&& old(ledger)@.has(id@)
                &&& json::contents(value) == JsonView::Object(
                    map![
                        "id"@ => JsonView::Str(id@),
                        "pinned"@ => JsonView::Bool(body.pinned)
                    ],
                )
                &&& final(ledger)@ == old(ledger)@.with_slot(
                    id@,
                    lifecycle::Slot { pinned: body.pinned, ..old(ledger)@.slot(id@) },
                )
            },
            Err(e) => {
                &&& final(ledger)@ == old(ledger)@
                &&& if registry.has(id@) {
                    !old(ledger)@.has(id@) && e@ == error::not_found(
                        "no lifecycle slot for model '"@ + id@ + "'"@,
                    )
                } else {
                    e@ == unknown_model(id@)
                }
            },
        },
{
    if registry.position(id).is_none() {
        return Err(unknown(id));
    }
    if !ledger.set_pinned(id, body.pinned) {
        let mut m: String = "no lifecycle slot for model '".to_owned();
        m.append(id);
        m.append("'");
        return Err(ApiError::not_found(m));
    }
    let o: Value = json::with(json::object(), "id", json::string(id));
    Ok(json::with(o, "pinned", json::boolean(body.pinned)))
}

/// What a worker reports of its health.
#[derive(Debug)]
pub struct LiveHealth {
    /// The name of its state.
    pub state: String,
    pub requests_running: u32,
    pub requests_waiting: u32,
    pub uptime_ms: u64,
    pub memory: MemoryReport,
}

/// A number in a row.
pub open spec fn cell(n: u64) -> JsonView {
    JsonView::Number(NumberView::Unsigned(n))
}

/// A worker's health in a snapshot; null for one that is not up.
pub open spec fn health_cell(health: Option<LiveHealth>) -> JsonView {
    match health {
        None => JsonView::Null,
        Some(h) => JsonView::Object(
            map![
                "state"@ => JsonView::Str(h.state@),
                "requests_running"@ => cell(h.requests_running as u64),
                "requests_waiting"@ => cell(h.requests_waiting as u64),
                "uptime_ms"@ => cell(h.uptime_ms),
                "weights_bytes"@ => cell(h.memory.weights_bytes),
                "kv_pool_allocated_bytes"@ => cell(h.memory.kv_pool_allocated_bytes),
                "kv_pool_used_bytes"@ => cell(h.memory.kv_pool_used_bytes),
                "mlx_active_bytes"@ => cell(h.memory.mlx_active_bytes),
                "mlx_cache_bytes"@ => cell(h.memory.mlx_cache_bytes)
            ],
        ),
    }
}

/// A worker's statistics in a snapshot; null for one that reports none.
pub open spec fn stats_cell(stats: Option<WorkerStats>) -> JsonView {
    match stats {
        None => JsonView::Null,
        Some(s) => JsonView::Object(
            map![
                "requests_total"@ => cell(s.requests_total),
                "requests_failed"@ => cell(s.requests_failed),
                "tokens_prefilled_total"@ => cell(s.tokens_prefilled_total),
                "tokens_generated_total"@ => cell(s.tokens_generated_total),
                "prefix_tokens_reused_total"@ => cell(s.prefix_tokens_reused_total),
                "kv_blocks_allocated"@ => cell(s.kv_blocks_allocated),
                "kv_blocks_free"@ => cell(s.kv_blocks_free),
                "spec_tokens_proposed_total"@ => cell(s.spec_tokens_proposed_total),
                "spec_tokens_accepted_total"@ => cell(s.spec_tokens_accepted_total),
                "engine_steps_total"@ => cell(s.engine_steps_total)
            ],
        ),
    }
}

fn health_json(health: &Option<LiveHealth>) -> (r: Value)
    ensures
        json::contents(r) == health_cell(*health),
{
    match health {
        None => json::null(),
        Some(h) => {
            let m: &MemoryReport = &h.memory;
            let o: Value = json::with(json::object(), "state", json::string(h.state.as_str()));
            let o: Value = json::with(
                o,
                "requests_running",
                json::unsigned(h.requests_running as u64),
            );
            let o: Value = json::with(
                o,
                "requests_waiting",
                json::unsigned(h.requests_waiting as u64),
            );
            let o: Value = json::with(o, "uptime_ms", json::unsigned(h.uptime_ms));
            let o: Value = json::with(o, "weights_bytes", json::unsigned(m.weights_bytes));
            let o: Value = json::with(
                o,
                "kv_pool_allocated_bytes",
                json::unsigned(m.kv_pool_allocated_bytes),
            );
            let o: Value = json::with(
                o,
                "kv_pool_used_bytes",
                json::unsigned(m.kv_pool_used_bytes),
            );
            let o: Value = json::with(o, "mlx_active_bytes", json::unsigned(m.mlx_active_bytes));
            json::with(o, "mlx_cache_bytes", json::unsigned(m.mlx_cache_bytes))
        },
    }
}

fn stats_json(stats: &Option<WorkerStats>) -> (r: Value)
    ensures
        json::contents(r) == stats_cell(*stats),
{
    match stats {
        None => json::null(),
        Some(s) => {
            let o: Value = json::with(
                json::object(),
                "requests_total",
                json::unsigned(s.requests_total),
            );
            let o: Value = json::with(o, "requests_failed", json::unsigned(s.requests_failed));
            let o: Value = json::with(
                o,
                "tokens_prefilled_total",
                json::unsigned(s.tokens_prefilled_total),
            );
            let o: Value = json::with(
                o,
                "tokens_generated_total",
                json::unsigned(s.tokens_generated_total),
            );
            let o: Value = json::with(
                o,
                "prefix_tokens_reused_total",
                json::unsigned(s.prefix_tokens_reused_total),
            );
            let o: Value = json::with(
                o,
                "kv_blocks_allocated",
                json::unsigned(s.kv_blocks_allocated),
            );
            let o: Value = json::with(o, "kv_blocks_free", json::unsigned(s.kv_blocks_free));
            let o: Value = json::with(
                o,
                "spec_tokens_proposed_total",
                json::unsigned(s.spec_tokens_proposed_total),
            );
            let o: Value = json::with(
                o,
                "spec_tokens_accepted_total",
                json::unsigned(s.spec_tokens_accepted_total),
            );
            json::with(o, "engine_steps_total", json::unsigned(s.engine_steps_total))
        },
    }
}

/// Whether a snapshot asks a model's worker: only one that can answer.
pub fn asks_worker(status: WorkerStatus) -> (r: bool)
    ensures
        r == (status is Ready || status is Draining),
{
    match status {
        WorkerStatus::Ready | WorkerStatus::Draining => true,
        _ => false,
    }
}

/// What the workers answered for a snapshot, one per model.
#[derive(Debug)]
pub struct LiveWorker {
    pub health: Option<LiveHealth>,
    pub stats: Option<WorkerStats>,
}

/// A row of a snapshot: the table's row and the worker's answers, which count
/// only while it can answer.
pub open spec fn snapshot_row(entry: ModelEntry, l: Ledger, live: LiveWorker) -> JsonView {
    let status = app::shown(l, entry.id@);
    let up = status is Ready || status is Draining;
    JsonView::Object(
        model_row(entry, l).insert(
            "health"@,
            if up {
                health_cell(live.health)
            } else {
                JsonView::Null
            },
        ).insert(
            "stats"@,
            if up {
                stats_cell(live.stats)
            } else {
                JsonView::Null
            },
        ),
    )
}

/// One statistics snapshot: the models table with live numbers, and the
/// machine memory ledger.
pub fn stats_snapshot(registry: &Registry, ledger: &Lifecycle, live: &Vec<LiveWorker>) -> (r: Value)
    requires
        ledger.wf(),
        ledger@.sums_fit(),
        live@.len() == registry.entries@.len(),
    ensures
        json::contents(r) == JsonView::Object(
            map![
                "models"@ => JsonView::Array(
                    Seq::new(
                        registry.entries@.len(),
                        |i: int| snapshot_row(registry.entries@[i], ledger@, live@[i]),
                    ),
                ),
                "memory"@ => memory_row(ledger@)
            ],
        ),
{
    let mut models: Vec<Value> = Vec::new();
    let mut i: usize = 0;
    while i < registry.entries.len()
        invariant
            i <= registry.entries@.len(),
            live@.len() == registry.entries@.len(),
            ledger.wf(),
            models@.len() == i,
            forall|j: int|
                0 <= j < i ==> json::contents(#[trigger] models@[j]) == snapshot_row(
                    registry.entries@[j],
                    ledger@,
                    live@[j],
                ),
        decreases registry.entries@.len() - i,
    {
        let row: Value = model_json(&registry.entries[i], ledger);
        let status: WorkerStatus = app::shown_status(ledger, registry.entries[i].id.as_str());
        let (health, stats) = if asks_worker(status) {
            (health_json(&live[i].health), stats_json(&live[i].stats))
        } else {
            (json::null(), json::null())
        };
        let row: Value = json::with(row, "health", health);
        let row: Value = json::with(row, "stats", stats);
        models.push(row);
        i = i + 1;
    }
    assert(json::list_contents(models@) =~= Seq::new(
        registry.entries@.len(),
        |i: int| snapshot_row(registry.entries@[i], ledger@, live@[i]),
    ));
    let o: Value = json::with(json::object(), "models", json::array(models));
    json::with(o, "memory", memory_json(ledger))
}

/// A failed model takes neither order: both are refused with the same code,
/// so that only a reset brings it back.
pub proof fn law_failed_model_needs_a_reset(id: Seq<char>, supervised: bool)
    ensures
        load_refusal(id, WorkerStatus::Failed) is Some,
        load_refusal(id, WorkerStatus::Failed)->0.code == "model_failed"@,
        unload_refusal(id, WorkerStatus::Failed, supervised) is Some,
        unload_refusal(id, WorkerStatus::Failed, supervised)->0.code == "model_failed"@,
{
}

/// The keys are told apart.
proof fn lemma_row_keys()
    ensures
        "id"@ != "path"@,
        "id"@ != "worker"@,
        "id"@ != "status"@,
        "id"@ != "pinned"@,
        "id"@ != "ttl_seconds"@,
        "id"@ != "usage_bytes"@,
        "id"@ != "created_unix"@,
        "id"@ != "health"@,
        "id"@ != "stats"@,
        "path"@ != "worker"@,
        "path"@ != "status"@,
        "path"@ != "pinned"@,
        "path"@ != "ttl_seconds"@,
        "path"@ != "usage_bytes"@,
        "path"@ != "created_unix"@,
        "path"@ != "health"@,
        "path"@ != "stats"@,
        "worker"@ != "status"@,
        "worker"@ != "pinned"@,
        "worker"@ != "ttl_seconds"@,
        "worker"@ != "usage_bytes"@,
        "worker"@ != "created_unix"@,
        "worker"@ != "health"@,
        "worker"@ != "stats"@,
        "status"@ != "pinned"@,
        "status"@ != "ttl_seconds"@,
        "status"@ != "usage_bytes"@,
        "status"@ != "created_unix"@,
        "status"@ != "health"@,
        "status"@ != "stats"@,
        "pinned"@ != "ttl_seconds"@,
        "pinned"@ != "usage_bytes"@,
        "pinned"@ != "created_unix"@,
        "pinned"@ != "health"@,
        "pinned"@ != "stats"@,
        "ttl_seconds"@ != "usage_bytes"@,
        "ttl_seconds"@ != "created_unix"@,
        "ttl_seconds"@ != "health"@,
        "ttl_seconds"@ != "stats"@,
        "usage_bytes"@ != "created_unix"@,
        "usage_bytes"@ != "health"@,
        "usage_bytes"@ != "stats"@,
        "created_unix"@ != "health"@,
        "created_unix"@ != "stats"@,
        "health"@ != "stats"@,
{
    reveal_strlit("id");
    reveal_strlit("path");
    reveal_strlit("worker");
    reveal_strlit("status");
    reveal_strlit("pinned");
    reveal_strlit("ttl_seconds");
    reveal_strlit("usage_bytes");
    reveal_strlit("created_unix");
    reveal_strlit("health");
    reveal_strlit("stats");
    assert("id"@.len() != "path"@.len());
    assert("id"@.len() != "worker"@.len());
    assert("id"@.len() != "status"@.len());
    assert("id"@.len() != "pinned"@.len());
    assert("id"@.len() != "ttl_seconds"@.len());
    assert("id"@.len() != "usage_bytes"@.len());
    assert("id"@.len() != "created_unix"@.len());
    assert("id"@.len() != "health"@.len());
    assert("id"@.len() != "stats"@.len());
    assert("path"@.len() != "worker"@.len());
    assert("path"@.len() != "status"@.len());
    assert("path"@.len() != "pinned"@.len());
    assert("path"@.len() != "ttl_seconds"@.len());
    assert("path"@.len() != "usage_bytes"@.len());
    assert("path"@.len() != "created_unix"@.len());
    assert("path"@.len() != "health"@.len());
    assert("path"@.len() != "stats"@.len());
    assert("worker"@[0] != "status"@[0]);
    assert("worker"@[0] != "pinned"@[0]);
    assert("worker"@.len() != "ttl_seconds"@.len());
    assert("worker"@.len() != "usage_bytes"@.len());
    assert("worker"@.len() != "created_unix"@.len());
    assert("worker"@[0] != "health"@[0]);
    assert("worker"@.len() != "stats"@.len());
    assert("status"@[0] != "pinned"@[0]);
    assert("status"@.len() != "ttl_seconds"@.len());
    assert("status"@.len() != "usage_bytes"@.len());
    assert("status"@.len() != "created_unix"@.len());
    assert("status"@[0] != "health"@[0]);
    assert("status"@.len() != "stats"@.len());
    assert("pinned"@.len() != "ttl_seconds"@.len());
    assert("pinned"@.len() != "usage_bytes"@.len());
    assert("pinned"@.len() != "created_unix"@.len());
    assert("pinned"@[0] != "health"@[0]);
    assert("pinned"@.len() != "stats"@.len());
    assert("ttl_seconds"@[0] != "usage_bytes"@[0]);
    assert("ttl_seconds"@.len() != "created_unix"@.len());
    assert("ttl_seconds"@.len() != "health"@.len());
    assert("ttl_seconds"@.len() != "stats"@.len());
    assert("usage_bytes"@.len() != "created_unix"@.len());
    assert("usage_bytes"@.len() != "health"@.len());
    assert("usage_bytes"@.len() != "stats"@.len());
    assert("created_unix"@.len() != "health"@.len());
    assert("created_unix"@.len() != "stats"@.len());
    assert("health"@.len() != "stats"@.len());
}

/// The keys are told apart.
proof fn lemma_health_keys()
    ensures
        "state"@ != "requests_running"@,
        "state"@ != "requests_waiting"@,
        "state"@ != "uptime_ms"@,
        "state"@ != "weights_bytes"@,
        "state"@ != "kv_pool_allocated_bytes"@,
        "state"@ != "kv_pool_used_bytes"@,
        "state"@ != "mlx_active_bytes"@,
        "state"@ != "mlx_cache_bytes"@,
        "requests_running"@ != "requests_waiting"@,
        "requests_running"@ != "uptime_ms"@,
        "requests_running"@ != "weights_bytes"@,
        "requests_running"@ != "kv_pool_allocated_bytes"@,
        "requests_running"@ != "kv_pool_used_bytes"@,
        "requests_running"@ != "mlx_active_bytes"@,
        "requests_running"@ != "mlx_cache_bytes"@,
        "requests_waiting"@ != "uptime_ms"@,
        "requests_waiting"@ != "weights_bytes"@,
        "requests_waiting"@ != "kv_pool_allocated_bytes"@,
        "requests_waiting"@ != "kv_pool_used_bytes"@,
        "requests_waiting"@ != "mlx_active_bytes"@,
        "requests_waiting"@ != "mlx_cache_bytes"@,
        "uptime_ms"@ != "weights_bytes"@,
        "uptime_ms"@ != "kv_pool_allocated_bytes"@,
        "uptime_ms"@ != "kv_pool_used_bytes"@,
        "uptime_ms"@ != "mlx_active_bytes"@,
        "uptime_ms"@ != "mlx_cache_bytes"@,
        "weights_bytes"@ != "kv_pool_allocated_bytes"@,
        "weights_bytes"@ != "kv_pool_used_bytes"@,
        "weights_bytes"@ != "mlx_active_bytes"@,
        "weights_bytes"@ != "mlx_cache_bytes"@,
        "kv_pool_allocated_bytes"@ != "kv_pool_used_bytes"@,
        "kv_pool_allocated_bytes"@ != "mlx_active_bytes"@,
        "kv_pool_allocated_bytes"@ != "mlx_cache_bytes"@,
        "kv_pool_used_bytes"@ != "mlx_active_bytes"@,
        "kv_pool_used_bytes"@ != "mlx_cache_bytes"@,
        "mlx_active_bytes"@ != "mlx_cache_bytes"@,
{
    reveal_strlit("state");
    reveal_strlit("requests_running");
    reveal_strlit("requests_waiting");
    reveal_strlit("uptime_ms");
    reveal_strlit("weights_bytes");
    reveal_strlit("kv_pool_allocated_bytes");
    reveal_strlit("kv_pool_used_bytes");
    reveal_strlit("mlx_active_bytes");
    reveal_strlit("mlx_cache_bytes");
    assert("state"@.len() != "requests_running"@.len());
    assert("state"@.len() != "requests_waiting"@.len());
    assert("state"@.len() != "uptime_ms"@.len());
    assert("state"@.len() != "weights_bytes"@.len());
    assert("state"@.len() != "kv_pool_allocated_bytes"@.len());
    assert("state"@.len() != "kv_pool_used_bytes"@.len());
    assert("state"@.len() != "mlx_active_bytes"@.len());
    assert("state"@.len() != "mlx_cache_bytes"@.len());
    assert("requests_running"@[9] != "requests_waiting"@[9]);
    assert("requests_running"@.len() != "uptime_ms"@.len());
    assert("requests_running"@.len() != "weights_bytes"@.len());
    assert("requests_running"@.len() != "kv_pool_allocated_bytes"@.len());
    assert("requests_running"@.len() != "kv_pool_used_bytes"@.len());
    assert("requests_running"@[0] != "mlx_active_bytes"@[0]);
    assert("requests_running"@.len() != "mlx_cache_bytes"@.len());
    assert("requests_waiting"@.len() != "uptime_ms"@.len());
    assert("requests_waiting"@.len() != "weights_bytes"@.len());
    assert("requests_waiting"@.len() != "kv_pool_allocated_bytes"@.len());
    assert("requests_waiting"@.len() != "kv_pool_used_bytes"@.len());
    assert("requests_waiting"@[0] != "mlx_active_bytes"@[0]);
    assert("requests_waiting"@.len() != "mlx_cache_bytes"@.len());
    assert("uptime_ms"@.len() != "weights_bytes"@.len());
    assert("uptime_ms"@.len() != "kv_pool_allocated_bytes"@.len());
    assert("uptime_ms"@.len() != "kv_pool_used_bytes"@.len());
    assert("uptime_ms"@.len() != "mlx_active_bytes"@.len());
    assert("uptime_ms"@.len() != "mlx_cache_bytes"@.len());
    assert("weights_bytes"@.len() != "kv_pool_allocated_bytes"@.len());
    assert("weights_bytes"@.len() != "kv_pool_used_bytes"@.len());
    assert("weights_bytes"@.len() != "mlx_active_bytes"@.len());
    assert("weights_bytes"@.len() != "mlx_cache_bytes"@.len());
    assert("kv_pool_allocated_bytes"@.len() != "kv_pool_used_bytes"@.len());
    assert("kv_pool_allocated_bytes"@.len() != "mlx_active_bytes"@.len());
    assert("kv_pool_allocated_bytes"@.len() != "mlx_cache_bytes"@.len());
    assert("kv_pool_used_bytes"@.len() != "mlx_active_bytes"@.len());
    assert("kv_pool_used_bytes"@.len() != "mlx_cache_bytes"@.len());
    assert("mlx_active_bytes"@.len() != "mlx_cache_bytes"@.len());
}

/// The keys are told apart.
proof fn lemma_stats_keys()
    ensures
        "requests_total"@ != "requests_failed"@,
        "requests_total"@ != "tokens_prefilled_total"@,
        "requests_total"@ != "tokens_generated_total"@,
        "requests_total"@ != "prefix_tokens_reused_total"@,
        "requests_total"@ != "kv_blocks_allocated"@,
        "requests_total"@ != "kv_blocks_free"@,
        "requests_total"@ != "spec_tokens_proposed_total"@,
        "requests_total"@ != "spec_tokens_accepted_total"@,
        "requests_total"@ != "engine_steps_total"@,
        "requests_failed"@ != "tokens_prefilled_total"@,
        "requests_failed"@ != "tokens_generated_total"@,
        "requests_failed"@ != "prefix_tokens_reused_total"@,
        "requests_failed"@ != "kv_blocks_allocated"@,
        "requests_failed"@ != "kv_blocks_free"@,
        "requests_failed"@ != "spec_tokens_proposed_total"@,
        "requests_failed"@ != "spec_tokens_accepted_total"@,
        "requests_failed"@ != "engine_steps_total"@,
        "tokens_prefilled_total"@ != "tokens_generated_total"@,
        "tokens_prefilled_total"@ != "prefix_tokens_reused_total"@,
        "tokens_prefilled_total"@ != "kv_blocks_allocated"@,
        "tokens_prefilled_total"@ != "kv_blocks_free"@,
        "tokens_prefilled_total"@ != "spec_tokens_proposed_total"@,
        "tokens_prefilled_total"@ != "spec_tokens_accepted_total"@,
        "tokens_prefilled_total"@ != "engine_steps_total"@,
        "tokens_generated_total"@ != "prefix_tokens_reused_total"@,
        "tokens_generated_total"@ != "kv_blocks_allocated"@,
        "tokens_generated_total"@ != "kv_blocks_free"@,
        "tokens_generated_total"@ != "spec_tokens_proposed_total"@,
        "tokens_generated_total"@ != "spec_tokens_accepted_total"@,
        "tokens_generated_total"@ != "engine_steps_total"@,
        "prefix_tokens_reused_total"@ != "kv_blocks_allocated"@,
        "prefix_tokens_reused_total"@ != "kv_blocks_free"@,
        "prefix_tokens_reused_total"@ != "spec_tokens_proposed_total"@,
        "prefix_tokens_reused_total"@ != "spec_tokens_accepted_total"@,
        "prefix_tokens_reused_total"@ != "engine_steps_total"@,
        "kv_blocks_allocated"@ != "kv_blocks_free"@,
        "kv_blocks_allocated"@ != "spec_tokens_proposed_total"@,
        "kv_blocks_allocated"@ != "spec_tokens_accepted_total"@,
        "kv_blocks_allocated"@ != "engine_steps_total"@,
        "kv_blocks_free"@ != "spec_tokens_proposed_total"@,
        "kv_blocks_free"@ != "spec_tokens_accepted_total"@,
        "kv_blocks_free"@ != "engine_steps_total"@,
        "spec_tokens_proposed_total"@ != "spec_tokens_accepted_total"@,
        "spec_tokens_proposed_total"@ != "engine_steps_total"@,
        "spec_tokens_accepted_total"@ != "engine_steps_total"@,
{
    reveal_strlit("requests_total");
    reveal_strlit("requests_failed");
    reveal_strlit("tokens_prefilled_total");
    reveal_strlit("tokens_generated_total");
    reveal_strlit("prefix_tokens_reused_total");
    reveal_strlit("kv_blocks_allocated");
    reveal_strlit("kv_blocks_free");
    reveal_strlit("spec_tokens_proposed_total");
    reveal_strlit("spec_tokens_accepted_total");
    reveal_strlit("engine_steps_total");
    assert("requests_total"@.len() != "requests_failed"@.len());
    assert("requests_total"@.len() != "tokens_prefilled_total"@.len());
    assert("requests_total"@.len() != "tokens_generated_total"@.len());
    assert("requests_total"@.len() != "prefix_tokens_reused_total"@.len());
    assert("requests_total"@.len() != "kv_blocks_allocated"@.len());
    assert("requests_total"@[0] != "kv_blocks_free"@[0]);
    assert("requests_total"@.len() != "spec_tokens_proposed_total"@.len());
    assert("requests_total"@.len() != "spec_tokens_accepted_total"@.len());
    assert("requests_total"@.len() != "engine_steps_total"@.len());
    assert("requests_failed"@.len() != "tokens_prefilled_total"@.len());
    assert("requests_failed"@.len() != "tokens_generated_total"@.len());
    assert("requests_failed"@.len() != "prefix_tokens_reused_total"@.len());
    assert("requests_failed"@.len() != "kv_blocks_allocated"@.len());
    assert("requests_failed"@.len() != "kv_blocks_free"@.len());
    assert("requests_failed"@.len() != "spec_tokens_proposed_total"@.len());
    assert("requests_failed"@.len() != "spec_tokens_accepted_total"@.len());
    assert("requests_failed"@.len() != "engine_steps_total"@.len());
    assert("tokens_prefilled_total"@[7] != "tokens_generated_total"@[7]);
    assert("tokens_prefilled_total"@.len() != "prefix_tokens_reused_total"@.len());
    assert("tokens_prefilled_total"@.len() != "kv_blocks_allocated"@.len());
    assert("tokens_prefilled_total"@.len() != "kv_blocks_free"@.len());
    assert("tokens_prefilled_total"@.len() != "spec_tokens_proposed_total"@.len());
    assert("tokens_prefilled_total"@.len() != "spec_tokens_accepted_total"@.len());
    assert("tokens_prefilled_total"@.len() != "engine_steps_total"@.len());
    assert("tokens_generated_total"@.len() != "prefix_tokens_reused_total"@.len());
    assert("tokens_generated_total"@.len() != "kv_blocks_allocated"@.len());
    assert("tokens_generated_total"@.len() != "kv_blocks_free"@.len());
    assert("tokens_generated_total"@.len() != "spec_tokens_proposed_total"@.len());
    assert("tokens_generated_total"@.len() != "spec_tokens_accepted_total"@.len());
    assert("tokens_generated_total"@.len() != "engine_steps_total"@.len());
    assert("prefix_tokens_reused_total"@.len() != "kv_blocks_allocated"@.len());
    assert("prefix_tokens_reused_total"@.len() != "kv_blocks_free"@.len());
    assert("prefix_tokens_reused_total"@[0] != "spec_tokens_proposed_total"@[0]);
    assert("prefix_tokens_reused_total"@[0] != "spec_tokens_accepted_total"@[0]);
    assert("prefix_tokens_reused_total"@.len() != "engine_steps_total"@.len());
    assert("kv_blocks_allocated"@.len() != "kv_blocks_free"@.len());
    assert("kv_blocks_allocated"@.len() != "spec_tokens_proposed_total"@.len());
    assert("kv_blocks_allocated"@.len() != "spec_tokens_accepted_total"@.len());
    assert("kv_blocks_allocated"@.len() != "engine_steps_total"@.len());
    assert("kv_blocks_free"@.len() != "spec_tokens_proposed_total"@.len());
    assert("kv_blocks_free"@.len() != "spec_tokens_accepted_total"@.len());
    assert("kv_blocks_free"@.len() != "engine_steps_total"@.len());
    assert("spec_tokens_proposed_total"@[12] != "spec_tokens_accepted_total"@[12]);
    assert("spec_tokens_proposed_total"@.len() != "engine_steps_total"@.len());
    assert("spec_tokens_accepted_total"@.len() != "engine_steps_total"@.len());
}

/// The keys are told apart.
proof fn lemma_memory_keys()
    ensures
        "budget_bytes"@ != "used_bytes"@,
        "budget_bytes"@ != "reserved_bytes"@,
        "budget_bytes"@ != "total_bytes"@,
        "used_bytes"@ != "reserved_bytes"@,
        "used_bytes"@ != "total_bytes"@,
        "reserved_bytes"@ != "total_bytes"@,
{
    reveal_strlit("budget_bytes");
    reveal_strlit("used_bytes");
    reveal_strlit("reserved_bytes");
    reveal_strlit("total_bytes");
    assert("budget_bytes"@.len() != "used_bytes"@.len());
    assert("budget_bytes"@.len() != "reserved_bytes"@.len());
    assert("budget_bytes"@.len() != "total_bytes"@.len());
    assert("used_bytes"@.len() != "reserved_bytes"@.len());
    assert("used_bytes"@.len() != "total_bytes"@.len());
    assert("reserved_bytes"@.len() != "total_bytes"@.len());
}

/// The keys are told apart.
proof fn lemma_action_keys()
    ensures
        "id"@ != "action"@,
        "id"@ != "status"@,
        "action"@ != "status"@,
{
    reveal_strlit("id");
    reveal_strlit("action");
    reveal_strlit("status");
    assert("id"@.len() != "action"@.len());
    assert("id"@.len() != "status"@.len());
    assert("action"@[0] != "status"@[0]);
}


/// The kinds of worker have the words of the configuration.
pub proof fn law_workers_have_their_words(kind: WorkerKind)
    ensures
        spec_worker_label(WorkerKind::Rust) == "rust"@,
        spec_worker_label(WorkerKind::Python) == "python"@,
        spec_worker_label(WorkerKind::Auto) == "auto"@,
        spec_worker_label(kind) == kind.spec_config_str(),
{
}

/// A row tells a model whole: whether it is pinned and what it uses are those of its slot, and
/// without a slot those of its configuration and nothing.
pub proof fn law_rows_tell_models_whole(entry: ModelEntry, l: Ledger)
    ensures
        json::str_field(JsonView::Object(model_row(entry, l)), "id"@) == Some(entry.id@),
        json::str_field(JsonView::Object(model_row(entry, l)), "path"@) == Some(entry.model_path@),
        json::str_field(JsonView::Object(model_row(entry, l)), "worker"@) == Some(spec_worker_label(entry.worker_kind)),
        json::str_field(JsonView::Object(model_row(entry, l)), "status"@) == Some(app::shown(l, entry.id@).spec_text()),
        l.has(entry.id@) ==> json::field(JsonView::Object(model_row(entry, l)), "pinned"@) == Some(
            JsonView::Bool(l.slot(entry.id@).pinned),
        ),
        !l.has(entry.id@) ==> json::field(JsonView::Object(model_row(entry, l)), "pinned"@) == Some(
            JsonView::Bool(entry.config.pinned),
        ),
        l.has(entry.id@) ==> json::u64_field(JsonView::Object(model_row(entry, l)), "usage_bytes"@) == Some(
            l.slot(entry.id@).usage_bytes,
        ),
        !l.has(entry.id@) ==> json::u64_field(JsonView::Object(model_row(entry, l)), "usage_bytes"@) == Some(0u64),
        json::u64_field(JsonView::Object(model_row(entry, l)), "ttl_seconds"@) == Some(entry.config.ttl_seconds),
        json::u64_field(JsonView::Object(model_row(entry, l)), "created_unix"@) == Some(entry.created_unix),
{
    lemma_row_keys();
}

/// The memory row tells the budget, what is used, what is reserved and what the machine has.
pub proof fn law_memory_is_told_under_its_names(l: Ledger)
    ensures
        json::u64_field(memory_row(l), "budget_bytes"@) == Some(l.budget_bytes),
        json::u64_field(memory_row(l), "used_bytes"@) == Some(l.used() as u64),
        json::u64_field(memory_row(l), "reserved_bytes"@) == Some(l.reserved() as u64),
        l.total_bytes is Some ==> json::u64_field(memory_row(l), "total_bytes"@) == l.total_bytes,
        l.total_bytes is None ==> json::field(memory_row(l), "total_bytes"@) == Some(JsonView::Null),
{
    lemma_memory_keys();
}

/// An answer to an action names the model and the action; one that has nothing to do says so
/// and tells the state.
pub proof fn law_actions_are_answered(id: Seq<char>, action: Seq<char>, status: WorkerStatus)
    ensures
        json::str_field(accepted(id, action), "id"@) == Some(id),
        json::str_field(accepted(id, action), "action"@) == Some(action),
        json::str_field(nothing_to_do(id, status), "id"@) == Some(id),
        json::str_field(nothing_to_do(id, status), "action"@) == Some("none"@),
        json::str_field(nothing_to_do(id, status), "status"@) == Some(status.spec_text()),
        unknown_model(id) == error::not_found("no configured model with id '"@ + id + "'"@),
{
    lemma_action_keys();
}

/// A load is refused while the model drains or its supervision has stopped, and once it failed;
/// otherwise it is not.
pub proof fn law_loads_are_refused_while_busy(id: Seq<char>, status: WorkerStatus)
    ensures
        load_refusal(id, status) is None <==> status is Unloaded || status is Ready
            || status is Starting || status is Restarting,
        status is Draining || status is Stopped ==> load_refusal(id, status) == Some(
            error::conflict(
                "model_busy"@,
                "model '"@ + id + "' is "@ + status.spec_text() + "; retry shortly"@,
            ),
        ),
        load_refusal(id, WorkerStatus::Failed) == Some(
            error::conflict(
                "model_failed"@,
                "model '"@ + id
                    + "' exceeded its restart budget and requires a manual reset (restart the gateway)"@,
            ),
        ),
{
}

/// An unload is refused before the model has settled and once it failed; a model that serves
/// or restarts is unloaded by its supervision, and one without supervision is an internal
/// fault.
pub proof fn law_unloads_are_refused_before_it_settles(
    id: Seq<char>,
    status: WorkerStatus,
    supervised: bool,
)
    ensures
        unload_refusal(id, status, true) is None <==> status is Ready || status is Restarting
            || status is Unloaded || status is Draining,
        status is Ready || status is Restarting ==> unload_refusal(id, status, false) == Some(
            error::internal("supervision task for model '"@ + id + "' is gone"@),
        ),
        status is Unloaded || status is Draining ==> unload_refusal(id, status, supervised) is None,
        status is Starting || status is Stopped ==> unload_refusal(id, status, supervised) == Some(
            error::conflict(
                "model_busy"@,
                "model '"@ + id + "' is "@ + status.spec_text() + "; retry when it settles"@,
            ),
        ),
        unload_refusal(id, WorkerStatus::Failed, supervised) == Some(
            error::conflict(
                "model_failed"@,
                "model '"@ + id + "' is failed; nothing is running"@,
            ),
        ),
{
}

/// A worker's health is told whole, each number under its own name; one that is not up has
/// none.
pub proof fn law_health_is_told_whole(h: LiveHealth)
    ensures
        health_cell(None) == JsonView::Null,
        json::str_field(health_cell(Some(h)), "state"@) == Some(h.state@),
        json::u64_field(health_cell(Some(h)), "requests_running"@) == Some(h.requests_running as u64),
        json::u64_field(health_cell(Some(h)), "requests_waiting"@) == Some(h.requests_waiting as u64),
        json::u64_field(health_cell(Some(h)), "uptime_ms"@) == Some(h.uptime_ms),
        json::u64_field(health_cell(Some(h)), "weights_bytes"@) == Some(h.memory.weights_bytes),
        json::u64_field(health_cell(Some(h)), "kv_pool_allocated_bytes"@) == Some(h.memory.kv_pool_allocated_bytes),
        json::u64_field(health_cell(Some(h)), "kv_pool_used_bytes"@) == Some(h.memory.kv_pool_used_bytes),
        json::u64_field(health_cell(Some(h)), "mlx_active_bytes"@) == Some(h.memory.mlx_active_bytes),
        json::u64_field(health_cell(Some(h)), "mlx_cache_bytes"@) == Some(h.memory.mlx_cache_bytes),
{
    lemma_health_keys();
}

/// A worker's statistics are told whole, each number under its own name; a worker that reports
/// none has none.
pub proof fn law_statistics_are_told_whole(s: WorkerStats)
    ensures
        stats_cell(None) == JsonView::Null,
        json::u64_field(stats_cell(Some(s)), "requests_total"@) == Some(s.requests_total),
        json::u64_field(stats_cell(Some(s)), "requests_failed"@) == Some(s.requests_failed),
        json::u64_field(stats_cell(Some(s)), "tokens_prefilled_total"@) == Some(s.tokens_prefilled_total),
        json::u64_field(stats_cell(Some(s)), "tokens_generated_total"@) == Some(s.tokens_generated_total),
        json::u64_field(stats_cell(Some(s)), "prefix_tokens_reused_total"@) == Some(s.prefix_tokens_reused_total),
        json::u64_field(stats_cell(Some(s)), "kv_blocks_allocated"@) == Some(s.kv_blocks_allocated),
        json::u64_field(stats_cell(Some(s)), "kv_blocks_free"@) == Some(s.kv_blocks_free),
        json::u64_field(stats_cell(Some(s)), "spec_tokens_proposed_total"@) == Some(s.spec_tokens_proposed_total),
        json::u64_field(stats_cell(Some(s)), "spec_tokens_accepted_total"@) == Some(s.spec_tokens_accepted_total),
        json::u64_field(stats_cell(Some(s)), "engine_steps_total"@) == Some(s.engine_steps_total),
{
    lemma_stats_keys();
}

/// A row of a snapshot is the table's row with the worker's answers; the answers count only
/// while the worker serves or drains.
pub proof fn law_snapshots_add_the_workers_answers(
    entry: ModelEntry,
    l: Ledger,
    live: LiveWorker,
    key: Seq<char>,
)
    ensures
        ({
            let row = snapshot_row(entry, l, live);
            let status = app::shown(l, entry.id@);
            &&& status is Ready || status is Draining ==> json::field(row, "health"@) == Some(
                health_cell(live.health),
            ) && json::field(row, "stats"@) == Some(stats_cell(live.stats))
            &&& status !is Ready && status !is Draining ==> json::field(row, "health"@) == Some(
                JsonView::Null,
            ) && json::field(row, "stats"@) == Some(JsonView::Null)
            &&& key != "health"@ && key != "stats"@ ==> json::field(row, key) == json::field(
                JsonView::Object(model_row(entry, l)),
                key,
            )
        }),
{
    lemma_row_keys();
}

/// A snapshot is sent every second, and a worker gets half of that to answer.
pub proof fn law_snapshots_are_sent_every_second()
    ensures
        STATS_TICK_MS == 1000,
        2 * STATS_RPC_TIMEOUT_MS == STATS_TICK_MS,
{
}

} // verus!
