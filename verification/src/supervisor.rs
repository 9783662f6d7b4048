//! Worker supervision: what to do next with a model's worker, given what just
//! happened to it.
//!
//! Two machines per model. [`Supervision`] decides between one worker run and
//! the next: idle until asked to load, restart after a crash with exponential
//! backoff, fail after too many crashes. [`WorkerRun`] drives one worker
//! lifetime: budget and eviction, spawn, wait for READY, monitor, and the
//! drain, terminate, kill ladder of a deliberate unload. The caller performs
//! the actions and reports back what came of them.

use crate::config::KilnConfig;
use crate::config::WorkerKind;
use crate::lifecycle;
use crate::lifecycle::AdmitConstraint;
use crate::lifecycle::Command;
use crate::lifecycle::Ledger;
use crate::lifecycle::Lifecycle;
use crate::lifecycle::MemoryReport;
use crate::lifecycle::Slot;
use crate::paths;
use crate::registry;
use crate::registry::ModelEntry;
use crate::registry::ModelFacts;
use crate::registry::Registry;
use crate::registry::RegistryError;
use crate::status::UnloadReason;
use crate::status::WorkerStatus;
use crate::sysmem::SystemMemory;
use crate::text;
use vstd::arithmetic::power2::*;
use vstd::prelude::*;
use vstd::string::*;

verus! {

/// Health poll cadence while serving, in milliseconds.
pub const HEALTH_POLL_INTERVAL_MS: u64 = 1_000;

/// Deadline of a single health call.
pub const HEALTH_RPC_TIMEOUT_MS: u64 = 2_000;

/// A worker silent for longer than this is treated as crashed.
pub const HEALTH_MISSED_DEADLINE_MS: u64 = 3_000;

/// Poll cadence while waiting for the model to load.
pub const READY_POLL_INTERVAL_MS: u64 = 250;

/// Give up on a load that never reaches READY.
pub const READY_DEADLINE_MS: u64 = 600_000;

/// Automatic restarts per crash loop before a manual reset is required.
pub const MAX_RESTART_ATTEMPTS: u32 = 3;

/// A worker that served at least this long resets the crash-loop counter.
pub const STABLE_RESET_MS: u64 = 60_000;

/// In-flight requests get this long to finish before SIGTERM.
pub const DRAIN_DEADLINE_MS: u64 = 30_000;

/// SIGTERM to SIGKILL escalation grace.
pub const TERM_GRACE_MS: u64 = 5_000;

/// Poll cadence while waiting for a graceful drain to empty the worker.
pub const DRAIN_POLL_MS: u64 = 250;

/// Overhead added to the on-disk weights of a load projection: reserve high,
/// reconcile down at the first measured heartbeat.
pub const LOAD_OVERHEAD_MARGIN_BYTES: u64 = 67_108_864;

/// 500 ms, doubled per attempt after the first, at most 10 s.
pub open spec fn backoff_ms(attempt: u32) -> int {
    let exp = if attempt <= 1 {
        0
    } else if attempt <= 6 {
        attempt - 1
    } else {
        5
    };
    let ms = 500 * pow2(exp as nat);
    if ms <= 10_000 {
        ms as int
    } else {
        10_000
    }
}

/// Milliseconds to wait before restart number `attempt`.
pub fn backoff(attempt: u32) -> (r: u64)
    ensures
        r == backoff_ms(attempt),
{
    proof {
        lemma2_to64();
    }
    if attempt <= 1 {
        500
    } else if attempt == 2 {
        1_000
    } else if attempt == 3 {
        2_000
    } else if attempt == 4 {
        4_000
    } else if attempt == 5 {
        8_000
    } else {
        10_000
    }
}

/// The wait never shrinks from one attempt to the next, and stays within its
/// bounds.
pub proof fn law_backoff_grows_and_caps(a: u32, b: u32)
    requires
        a <= b,
    ensures
        500 <= backoff_ms(a) <= backoff_ms(b) <= 10_000,
{
    lemma2_to64();
    lemma_backoff_table(a);
    lemma_backoff_table(b);
}

proof fn lemma_backoff_table(a: u32)
    ensures
        a <= 1 ==> backoff_ms(a) == 500,
        a == 2 ==> backoff_ms(a) == 1_000,
        a == 3 ==> backoff_ms(a) == 2_000,
        a == 4 ==> backoff_ms(a) == 4_000,
        a == 5 ==> backoff_ms(a) == 8_000,
        a >= 6 ==> backoff_ms(a) == 10_000,
{
    lemma2_to64();
}

/// How one worker lifetime ended.
#[derive(Debug, Clone, Copy, PartialEq, Eq, Structural)]
pub enum RunExit {
    /// Worker died or went silent; how long it had served, if it did.
    Crashed { ready_for_ms: Option<u64> },
    /// Load rejected up front: no room and nothing to evict.
    BudgetRejected,
    /// Deliberate unload completed; memory released.
    Unloaded { reason: UnloadReason },
    Shutdown,
}

/// Where a model stands between worker runs.
#[derive(Debug, Clone, Copy, PartialEq, Eq, Structural)]
pub enum Supervision {
    /// Nothing is running; waiting for a load.
    Idle,
    /// A run is under way after `attempts` crashes in this loop.
    Running { attempts: u32 },
    /// Waiting to restart.
    BackingOff { attempts: u32 },
    /// Too many crashes: refuses loads until the gateway restarts.
    Failed,
    /// The gateway is shutting down.
    Stopped,
}

/// What can happen to a supervised model.
#[derive(Debug, Clone, Copy, PartialEq, Eq, Structural)]
pub enum SuperviseEvent {
    Command(Command),
    /// Nobody can send commands any more.
    CommandsClosed,
    Shutdown,
    /// The run ended.
    Exit(RunExit),
    BackoffElapsed,
}

/// What to do about it.
#[derive(Debug, Clone, Copy, PartialEq, Eq, Structural)]
pub struct SuperviseAction {
    /// Status to publish.
    pub publish: Option<WorkerStatus>,
    /// Start a worker run.
    pub start: bool,
    /// Wait this long and then report that the backoff elapsed.
    pub wait_ms: Option<u64>,
    /// Answer the unload that was asked for: nothing is running.
    pub ack: bool,
    /// A crash was counted.
    pub crashed: bool,
}

pub open spec fn quiet() -> SuperviseAction {
    SuperviseAction { publish: None, start: false, wait_ms: None, ack: false, crashed: false }
}

/// The crash counter after one more crash: a run that served long enough
/// starts a new count.
pub open spec fn crash_count(attempts: u32, ready_for_ms: Option<u64>) -> int {
    if ready_for_ms is Some && ready_for_ms->0 >= STABLE_RESET_MS {
        1
    } else {
        attempts + 1
    }
}

/// Where an event takes a supervised model.
pub open spec fn supervised(s: Supervision, e: SuperviseEvent) -> (Supervision, SuperviseAction) {
    match s {
        Supervision::Stopped => (s, quiet()),
        Supervision::Failed => match e {
            SuperviseEvent::Command(Command::Unload { .. }) => (
                s,
                SuperviseAction { ack: true, ..quiet() },
            ),
            SuperviseEvent::Shutdown | SuperviseEvent::CommandsClosed => (
                Supervision::Stopped,
                quiet(),
            ),
            _ => (s, quiet()),
        },
        Supervision::Idle => match e {
            SuperviseEvent::Command(Command::Load) => (
                Supervision::Running { attempts: 0 },
                SuperviseAction {
                    publish: Some(WorkerStatus::Starting),
                    start: true,
                    ..quiet()
                },
            ),
            SuperviseEvent::Command(Command::Unload { .. }) => (
                s,
                SuperviseAction { ack: true, ..quiet() },
            ),
            SuperviseEvent::Shutdown | SuperviseEvent::CommandsClosed => (
                Supervision::Stopped,
                SuperviseAction { publish: Some(WorkerStatus::Stopped), ..quiet() },
            ),
            _ => (s, quiet()),
        },
        Supervision::Running { attempts } => match e {
            SuperviseEvent::Exit(RunExit::Shutdown) => (
                Supervision::Stopped,
                SuperviseAction { publish: Some(WorkerStatus::Stopped), ..quiet() },
            ),
            SuperviseEvent::Exit(RunExit::BudgetRejected) => (
                Supervision::Idle,
                SuperviseAction {
                    publish: Some(WorkerStatus::Unloaded { reason: UnloadReason::OverBudget }),
                    ..quiet()
                },
            ),
            SuperviseEvent::Exit(RunExit::Unloaded { reason }) => (
                Supervision::Idle,
                SuperviseAction { publish: Some(WorkerStatus::Unloaded { reason }), ..quiet() },
            ),
            SuperviseEvent::Exit(RunExit::Crashed { ready_for_ms }) => {
                let n = crash_count(attempts, ready_for_ms);
                if n > MAX_RESTART_ATTEMPTS {
                    (
                        Supervision::Failed,
                        SuperviseAction {
                            publish: Some(WorkerStatus::Failed),
                            crashed: true,
                            ..quiet()
                        },
                    )
                } else {
                    (
                        Supervision::BackingOff { attempts: n as u32 },
                        SuperviseAction {
                            publish: Some(WorkerStatus::Restarting { attempt: n as u32 }),
                            wait_ms: Some(backoff_ms(n as u32) as u64),
                            crashed: true,
                            ..quiet()
                        },
                    )
                }
            },
            _ => (s, quiet()),
        },
        Supervision::BackingOff { attempts } => match e {
            SuperviseEvent::BackoffElapsed => (
                Supervision::Running { attempts },
                SuperviseAction {
                    publish: Some(WorkerStatus::Starting),
                    start: true,
                    ..quiet()
                },
            ),
            SuperviseEvent::Command(Command::Unload { reason }) => (
                Supervision::Idle,
                SuperviseAction {
                    publish: Some(WorkerStatus::Unloaded { reason }),
                    ack: true,
                    ..quiet()
                },
            ),
            SuperviseEvent::Shutdown | SuperviseEvent::CommandsClosed => (
                Supervision::Stopped,
                SuperviseAction { publish: Some(WorkerStatus::Stopped), ..quiet() },
            ),
            _ => (s, quiet()),
        },
    }
}

fn nothing() -> (r: SuperviseAction)
    ensures
        r == quiet(),
{
    SuperviseAction { publish: None, start: false, wait_ms: None, ack: false, crashed: false }
}

impl Supervision {
    /// The crash counter never exceeds the restart budget.
    pub open spec fn wf(self) -> bool {
        match self {
            Supervision::Running { attempts } => attempts <= MAX_RESTART_ATTEMPTS,
            Supervision::BackingOff { attempts } => 1 <= attempts <= MAX_RESTART_ATTEMPTS,
            _ => true,
        }
    }

    fn stop(&mut self) -> (r: SuperviseAction)
        ensures
            *final(self) == Supervision::Stopped,
            r == (SuperviseAction { publish: Some(WorkerStatus::Stopped), ..quiet() }),
    {
        *self = Supervision::Stopped;
        SuperviseAction { publish: Some(WorkerStatus::Stopped), ..nothing() }
    }

    fn run(&mut self, attempts: u32) -> (r: SuperviseAction)
        ensures
            *final(self) == (Supervision::Running { attempts }),
            r == (SuperviseAction {
                publish: Some(WorkerStatus::Starting),
                start: true,
                ..quiet()
            }),
    {
        *self = Supervision::Running { attempts };
        SuperviseAction { publish: Some(WorkerStatus::Starting), start: true, ..nothing() }
    }

    fn rest(&mut self, reason: UnloadReason, ack: bool) -> (r: SuperviseAction)
        ensures
            *final(self) == Supervision::Idle,
            r == (SuperviseAction {
                publish: Some(WorkerStatus::Unloaded { reason }),
                ack,
                ..quiet()
            }),
    {
        *self = Supervision::Idle;
        SuperviseAction { publish: Some(WorkerStatus::Unloaded { reason }), ack, ..nothing() }
    }

    /// Takes the model through one event.
    pub fn supervise(&mut self, event: SuperviseEvent) -> (r: SuperviseAction)
        requires
            old(self).wf(),
        ensures
            final(self).wf(),
            (*final(self), r) == supervised(*old(self), event),
    {
        match *self {
            Supervision::Stopped => nothing(),
            Supervision::Failed => match event {
                SuperviseEvent::Command(Command::Unload { .. }) => SuperviseAction {
                    ack: true,
                    ..nothing()
                },
                SuperviseEvent::Shutdown | SuperviseEvent::CommandsClosed => {
                    *self = Supervision::Stopped;
                    nothing()
                },
                _ => nothing(),
            },
            Supervision::Idle => match event {
                SuperviseEvent::Command(Command::Load) => self.run(0),
                SuperviseEvent::Command(Command::Unload { .. }) => SuperviseAction {
                    ack: true,
                    ..nothing()
                },
                SuperviseEvent::Shutdown | SuperviseEvent::CommandsClosed => self.stop(),
                _ => nothing(),
            },
            Supervision::Running { attempts } => match event {
                SuperviseEvent::Exit(RunExit::Shutdown) => self.stop(),
                SuperviseEvent::Exit(RunExit::BudgetRejected) => self.rest(
                    UnloadReason::OverBudget,
                    false,
                ),
                SuperviseEvent::Exit(RunExit::Unloaded { reason }) => self.rest(reason, false),
                SuperviseEvent::Exit(RunExit::Crashed { ready_for_ms }) => {
                    let stable: bool = match ready_for_ms {
                        Some(ms) => ms >= STABLE_RESET_MS,
                        None => false,
                    };
                    let n: u32 = if stable {
                        1
                    } else {
                        attempts + 1
                    };
                    if n > MAX_RESTART_ATTEMPTS {
                        *self = Supervision::Failed;
                        SuperviseAction {
                            publish: Some(WorkerStatus::Failed),
                            crashed: true,
                            ..nothing()
                        }
                    } else {
                        *self = Supervision::BackingOff { attempts: n };
                        SuperviseAction {
                            publish: Some(WorkerStatus::Restarting { attempt: n }),
                            wait_ms: Some(backoff(n)),
                            crashed: true,
                            ..nothing()
                        }
                    }
                },
                _ => nothing(),
            },
            Supervision::BackingOff { attempts } => match event {
                SuperviseEvent::BackoffElapsed => self.run(attempts),
                SuperviseEvent::Command(Command::Unload { reason }) => self.rest(reason, true),
                SuperviseEvent::Shutdown | SuperviseEvent::CommandsClosed => self.stop(),
                _ => nothing(),
            },
        }
    }
}

/// Where a sequence of events takes a supervised model.
pub open spec fn supervised_by(s: Supervision, events: Seq<SuperviseEvent>) -> Supervision
    decreases events.len(),
{
    if events.len() == 0 {
        s
    } else {
        supervised(supervised_by(s, events.drop_last()), events.last()).0
    }
}

/// Crash, wait, crash, wait, ...: `n` crashes of runs that never served long
/// enough, each but the last followed by its backoff.
pub open spec fn crash_loop(n: nat, ready_for_ms: Option<u64>) -> Seq<SuperviseEvent>
    decreases n,
{
    if n == 0 {
        Seq::empty()
    } else {
        crash_loop((n - 1) as nat, ready_for_ms).push(SuperviseEvent::BackoffElapsed).push(
            SuperviseEvent::Exit(RunExit::Crashed { ready_for_ms }),
        )
    }
}

/// A model is restarted exactly as often as the restart budget allows: after
/// that many crashes it is waiting to restart, one more and it has failed.
pub proof fn law_restart_budget(ready_for_ms: Option<u64>)
    requires
        ready_for_ms is Some ==> ready_for_ms->0 < STABLE_RESET_MS,
    ensures
        supervised_by(Supervision::Running { attempts: 0 }, crash_loop(3, ready_for_ms)) == (
        Supervision::BackingOff { attempts: MAX_RESTART_ATTEMPTS }),
        supervised_by(Supervision::Running { attempts: 0 }, crash_loop(4, ready_for_ms))
            == Supervision::Failed,
{
    let s = Supervision::Running { attempts: 0 };
    lemma_crash_loop(1, ready_for_ms);
    lemma_crash_loop(2, ready_for_ms);
    lemma_crash_loop(3, ready_for_ms);
    let four = crash_loop(4, ready_for_ms);
    let three = crash_loop(3, ready_for_ms);
    assert(four.drop_last() =~= three.push(SuperviseEvent::BackoffElapsed));
    assert(four.drop_last().drop_last() =~= three);
    reveal_with_fuel(supervised_by, 3);
}

proof fn lemma_crash_loop(n: nat, ready_for_ms: Option<u64>)
    requires
        1 <= n <= 3,
        ready_for_ms is Some ==> ready_for_ms->0 < STABLE_RESET_MS,
    ensures
        supervised_by(Supervision::Running { attempts: 0 }, crash_loop(n, ready_for_ms)) == (
        Supervision::BackingOff { attempts: n as u32 }),
    decreases n,
{
    let m = (n - 1) as nat;
    let l = crash_loop(n, ready_for_ms);
    let k = crash_loop(m, ready_for_ms);
    assert(l.drop_last() =~= k.push(SuperviseEvent::BackoffElapsed));
    assert(l.drop_last().drop_last() =~= k);
    reveal_with_fuel(supervised_by, 3);
    if m > 0 {
        lemma_crash_loop(m, ready_for_ms);
    } else {
        assert(k =~= Seq::empty());
    }
}

/// A worker that served long enough before it crashed starts a new count,
/// whatever happened before.
pub proof fn law_stable_worker_resets_the_count(attempts: u32, ready_for_ms: u64)
    requires
        ready_for_ms >= STABLE_RESET_MS,
    ensures
        supervised(
            Supervision::Running { attempts },
            SuperviseEvent::Exit(RunExit::Crashed { ready_for_ms: Some(ready_for_ms) }),
        ).0 == (Supervision::BackingOff { attempts: 1 }),
{
}

/// A failed model stays dark: no event starts a run again.
pub proof fn law_failed_model_stays_dark(events: Seq<SuperviseEvent>)
    ensures
        supervised_by(Supervision::Failed, events) == Supervision::Failed || supervised_by(
            Supervision::Failed,
            events,
        ) == Supervision::Stopped,
    decreases events.len(),
{
    if events.len() > 0 {
        law_failed_model_stays_dark(events.drop_last());
    }
}

/// Every unload that arrives while nothing is running is answered.
pub proof fn law_unloads_are_answered(s: Supervision, reason: UnloadReason)
    requires
        !(s is Running),
        s != Supervision::Stopped,
    ensures
        supervised(s, SuperviseEvent::Command(Command::Unload { reason })).1.ack,
{
}

/// Whether the initial load of a model has settled, one way or the other.
pub fn settled(status: WorkerStatus) -> (r: bool)
    ensures
        r == (status is Ready || status is Unloaded || status is Failed || status is Stopped),
{
    match status {
        WorkerStatus::Ready | WorkerStatus::Unloaded { .. } | WorkerStatus::Failed
        | WorkerStatus::Stopped => true,
        _ => false,
    }
}

/// The words of the Rust worker's command line for one model.
pub open spec fn rust_argv(
    base: Seq<Seq<char>>,
    ssd: Option<(Seq<char>, u64)>,
    paged: bool,
    draft: Option<(Seq<char>, u32)>,
) -> Seq<Seq<char>> {
    let a = match ssd {
        Some((dir, gb)) => base.push("--ssd-dir"@).push(dir).push("--ssd-max-gb"@).push(
            text::decimal(gb as nat),
        ),
        None => base,
    };
    let b = if paged {
        a.push("--paged-attention-kernel"@)
    } else {
        a
    };
    match draft {
        Some((path, gamma)) => b.push("--draft-model"@).push(path).push("--draft-gamma"@).push(
            text::decimal(gamma as nat),
        ),
        None => b,
    }
}

/// The words of a model's worker command line, before the model's own.
pub open spec fn argv_of(config: KilnConfig, entry: ModelEntry, home: Option<Seq<char>>) -> Seq<
    Seq<char>,
> {
    if entry.worker_kind == WorkerKind::Rust {
        rust_argv(
            text::list_view(config.server.rust_worker_argv@),
            if config.defaults.ssd_tier {
                Some(
                    (
                        paths::expanded(config.server.cache_dir@, home),
                        config.defaults.ssd_cache_max_gb,
                    ),
                )
            } else {
                None
            },
            config.defaults.paged_attention_kernel,
            if entry.draft_path is Some && entry.config.speculative is Some {
                Some((entry.draft_path->0@, entry.config.speculative->0.gamma))
            } else {
                None
            },
        )
    } else {
        text::list_view(config.server.python_worker_argv@)
    }
}

fn push_word(argv: &mut Vec<String>, word: String)
    ensures
        text::list_view(final(argv)@) == text::list_view(old(argv)@).push(word@),
{
    argv.push(word);
    assert(text::list_view(argv@) =~= text::list_view(old(argv)@).push(word@));
}

/// The worker's command line for a model, before the arguments that
/// [`spawn_args`] adds. The cache and draft flags are the Rust worker's.
pub fn worker_argv(config: &KilnConfig, entry: &ModelEntry, home: Option<&str>) -> (r: Vec<String>)
    ensures
        text::list_view(r@) == argv_of(*config, *entry, paths::opt_str(home)),
        !(entry.worker_kind is Rust) ==> text::list_view(r@) == text::list_view(
            config.server.python_worker_argv@,
        ),
        entry.worker_kind is Rust ==> text::list_view(config.server.rust_worker_argv@).is_prefix_of(
            text::list_view(r@),
        ),
{
    proof {
        law_models_run_their_own_worker(*config, *entry, paths::opt_str(home));
    }
    match entry.worker_kind {
        WorkerKind::Rust => {
            let mut argv: Vec<String> = text::clone_list(&config.server.rust_worker_argv);
            if config.defaults.ssd_tier {
                push_word(&mut argv, "--ssd-dir".to_owned());
                push_word(
                    &mut argv,
                    paths::expand_tilde(config.server.cache_dir.as_str(), home),
                );
                push_word(&mut argv, "--ssd-max-gb".to_owned());
                push_word(&mut argv, text::decimal_string(config.defaults.ssd_cache_max_gb));
            }
            if config.defaults.paged_attention_kernel {
                push_word(&mut argv, "--paged-attention-kernel".to_owned());
            }
            if let Some(draft) = &entry.draft_path {
                if let Some(spec) = &entry.config.speculative {
                    push_word(&mut argv, "--draft-model".to_owned());
                    push_word(&mut argv, draft.clone());
                    push_word(&mut argv, "--draft-gamma".to_owned());
                    push_word(&mut argv, text::decimal_string(spec.gamma as u64));
                }
            }
            argv
        },
        _ => text::clone_list(&config.server.python_worker_argv),
    }
}

/// The words that start a model's worker.
pub open spec fn spawned(argv: Seq<Seq<char>>, entry: ModelEntry) -> Seq<Seq<char>> {
    argv.push("--model"@).push(entry.model_path@).push("--socket"@).push(entry.socket_path@).push(
        "--model-id"@,
    ).push(entry.id@)
}

/// The whole command line that starts a model's worker.
pub fn spawn_args(argv: &Vec<String>, entry: &ModelEntry) -> (r: Vec<String>)
    ensures
        text::list_view(r@) == spawned(text::list_view(argv@), *entry),
{
    let mut out: Vec<String> = text::clone_list(argv);
    push_word(&mut out, "--model".to_owned());
    push_word(&mut out, entry.model_path.clone());
    push_word(&mut out, "--socket".to_owned());
    push_word(&mut out, entry.socket_path.clone());
    push_word(&mut out, "--model-id".to_owned());
    push_word(&mut out, entry.id.clone());
    out
}

/// What loading a model is projected to take: the weights of the target and
/// the draft on disk plus a margin; nothing where there are none.
pub fn load_projection(target_weights: u64, draft_weights: u64) -> (r: u64)
    requires
        target_weights + draft_weights + LOAD_OVERHEAD_MARGIN_BYTES <= u64::MAX,
    ensures
        r == (if target_weights + draft_weights == 0 {
            0
        } else {
            target_weights + draft_weights + LOAD_OVERHEAD_MARGIN_BYTES
        }),
{
    let weights: u64 = target_weights + draft_weights;
    if weights == 0 {
        0
    } else {
        weights + LOAD_OVERHEAD_MARGIN_BYTES
    }
}

/// What a worker says of its own state.
#[derive(Debug, Clone, Copy, PartialEq, Eq, Structural)]
pub enum WorkerState {
    Loading,
    Ready,
    Unhealthy,
    Other,
}

/// A worker's heartbeat.
#[derive(Debug, Clone, Copy, PartialEq, Eq, Structural)]
pub struct HealthReport {
    pub state: WorkerState,
    pub requests_running: u32,
    pub requests_waiting: u32,
    pub memory: Option<MemoryReport>,
}

impl HealthReport {
    /// Its footprint can be counted in 64 bits.
    pub open spec fn fits(self) -> bool {
        match self.memory {
            Some(report) => lifecycle::footprint(report) <= u64::MAX,
            None => true,
        }
    }

    /// Requests in flight.
    pub open spec fn in_flight(self) -> int {
        self.requests_running + self.requests_waiting
    }
}

/// What a worker says of itself once it is READY.
#[derive(Debug, Clone, Copy, PartialEq, Eq, Structural)]
pub struct WorkerInfo {
    pub max_context_len: u32,
    pub grammar_capable: bool,
    pub kv_bytes_per_block: u64,
    pub kv_pool_blocks: u64,
    pub kv_pool_commitment_bytes: u64,
}

/// The full pool cost of a worker: what it reports for the whole worker, else
/// the product of its block geometry.
pub open spec fn commitment(info: WorkerInfo) -> int {
    if info.kv_pool_commitment_bytes > 0 {
        info.kv_pool_commitment_bytes as int
    } else if info.kv_bytes_per_block * info.kv_pool_blocks <= u64::MAX {
        info.kv_bytes_per_block * info.kv_pool_blocks
    } else {
        u64::MAX as int
    }
}

/// The full pool cost of a worker.
pub fn pool_commitment(info: &WorkerInfo) -> (r: u64)
    ensures
        r == commitment(*info),
{
    if info.kv_pool_commitment_bytes > 0 {
        info.kv_pool_commitment_bytes
    } else {
        match info.kv_bytes_per_block.checked_mul(info.kv_pool_blocks) {
            Some(n) => n,
            None => u64::MAX,
        }
    }
}

/// The ledger after a heartbeat's memory numbers.
pub open spec fn after_memory(l: Ledger, id: Seq<char>, memory: Option<MemoryReport>) -> Ledger {
    match memory {
        None => l,
        Some(report) => l.after_usage(
            id,
            lifecycle::footprint(report) as u64,
        ).after_materialized(id, report.kv_pool_allocated_bytes),
    }
}

/// The growth in a heartbeat that no admission had priced.
pub open spec fn uncovered_by(l: Ledger, id: Seq<char>, memory: Option<MemoryReport>) -> int {
    match memory {
        None => 0,
        Some(report) => l.after_usage(id, lifecycle::footprint(report) as u64).uncovered(
            id,
            report.kv_pool_allocated_bytes,
        ),
    }
}

/// Records one heartbeat's memory numbers. Returns the growth that no
/// admission had priced.
pub fn record_memory(ledger: &mut Lifecycle, id: &str, health: &HealthReport) -> (uncovered: u64)
    requires
        old(ledger).wf(),
        health.fits(),
    ensures
        final(ledger).wf(),
        final(ledger)@ == after_memory(old(ledger)@, id@, health.memory),
        uncovered == uncovered_by(old(ledger)@, id@, health.memory),
{
    match &health.memory {
        None => 0,
        Some(report) => {
            let footprint: u64 = lifecycle::footprint_bytes(report);
            ledger.record_usage(id, footprint);
            ledger.record_pool_materialized(id, report.kv_pool_allocated_bytes)
        },
    }
}

/// Where a worker run stands.
#[derive(Debug, Clone, Copy, PartialEq, Eq, Structural)]
pub enum Phase {
    /// Waiting for the machine-wide load permit.
    AwaitPermit,
    /// Waiting for a victim's memory to be released.
    Evicting,
    /// Waiting for a fresh reading of the machine's memory.
    Probing,
    /// Waiting for the process to start.
    Spawning,
    /// Waiting for READY.
    Loading { since_ms: u64 },
    /// READY; waiting for what the worker says of itself.
    Identifying { ready_at_ms: u64 },
    /// READY; waiting for the first measured footprint.
    Measuring { ready_at_ms: u64 },
    /// Serving requests.
    Serving { ready_at_ms: u64, last_ok_ms: u64, stats_supported: bool },
    /// Deliberate unload: asked the worker to drain.
    Draining { reason: UnloadReason, answer: bool, since_ms: u64 },
    /// Deliberate unload: sent SIGTERM.
    Terminating { reason: UnloadReason, answer: bool },
    /// The process group is being killed and reaped.
    Reaping { exit: RunExit, answer: bool },
    Done { exit: RunExit, answer: bool },
}

/// What to do next with a worker.
#[derive(Debug, PartialEq, Eq)]
pub enum RunAction {
    /// Nothing until the next event.
    Wait,
    /// Evict this model and report whether its memory was released.
    Evict(String),
    /// Take a fresh reading of the machine's memory.
    Probe,
    /// Start the worker process.
    Spawn,
    /// Ask the worker who it is.
    FetchInfo,
    /// Take a first heartbeat.
    Measure,
    /// Announce READY and let the next load in.
    Serve,
    /// Sample the worker's statistics.
    SampleStats,
    /// Ask the worker to finish what it has and take no more.
    Drain,
    /// Look again shortly whether the worker has drained.
    PollDrain,
    /// SIGTERM the process group and wait for the grace period.
    Terminate,
    /// SIGKILL the process group and reap the worker.
    Kill,
    /// The run is over.
    Finish,
}

/// One worker lifetime.
#[derive(Debug)]
pub struct WorkerRun {
    pub model: String,
    /// Load projection: weights on disk plus a margin.
    pub projected_bytes: u64,
    /// Idle time after which the worker is unloaded.
    pub ttl_seconds: Option<u64>,
    pub phase: Phase,
    /// The load was priced with a pool commitment remembered from before.
    pub priced_pool: bool,
    /// Which bound rejected the load.
    pub rejected: Option<AdmitConstraint>,
    /// Pool growth in the last recorded heartbeat that no admission had
    /// priced.
    pub uncovered_bytes: u64,
}

/// A sum in the range of 64 bits.
pub open spec fn capped(n: int) -> int {
    if n <= u64::MAX {
        n
    } else {
        u64::MAX as int
    }
}

impl WorkerRun {
    /// What the load is priced at: the projection plus the pool that serving
    /// the model took last time.
    pub open spec fn price(self, l: Ledger) -> int {
        capped(self.projected_bytes + l.known_commitment(self.model@))
    }

    /// Whether the load fits the budget now.
    pub open spec fn fits(self, l: Ledger) -> bool {
        capped(capped(l.charged()) + self.price(l)) <= l.budget_bytes
    }

    pub open spec fn in_phase(self, phase: Phase) -> WorkerRun {
        WorkerRun { phase, ..self }
    }

    pub open spec fn done(self, exit: RunExit, answer: bool) -> WorkerRun {
        self.in_phase(Phase::Done { exit, answer })
    }

    pub open spec fn reaping(self, exit: RunExit, answer: bool) -> WorkerRun {
        self.in_phase(Phase::Reaping { exit, answer })
    }

    /// The machine-wide load permit is held from when it is granted until the
    /// worker serves or the run is over.
    pub open spec fn spec_holds_permit(self) -> bool {
        match self.phase {
            Phase::Evicting | Phase::Probing | Phase::Spawning => true,
            Phase::Loading { .. } | Phase::Identifying { .. } | Phase::Measuring { .. } => true,
            _ => false,
        }
    }

    /// A run that has to wait for the load permit first.
    pub fn new(model: &str, projected_bytes: u64, ttl_seconds: u64) -> (r: Self)
        ensures
            r.model@ == model@,
            r.projected_bytes == projected_bytes,
            r.ttl_seconds == (if ttl_seconds == 0 {
                None
            } else {
                Some(ttl_seconds)
            }),
            r.phase == Phase::AwaitPermit,
            !r.priced_pool,
            r.rejected is None,
            r.uncovered_bytes == 0,
    {
        WorkerRun {
            model: model.to_owned(),
            projected_bytes,
            ttl_seconds: if ttl_seconds == 0 {
                None
            } else {
                Some(ttl_seconds)
            },
            phase: Phase::AwaitPermit,
            priced_pool: false,
            rejected: None,
            uncovered_bytes: 0,
        }
    }

    pub fn holds_permit(&self) -> (r: bool)
        ensures
            r == self.spec_holds_permit(),
    {
        match self.phase {
            Phase::Evicting | Phase::Probing | Phase::Spawning => true,
            Phase::Loading { .. } | Phase::Identifying { .. } | Phase::Measuring { .. } => true,
            _ => false,
        }
    }

    fn price_bytes(&self, ledger: &Lifecycle) -> (r: u64)
        requires
            ledger.wf(),
        ensures
            r == self.price(ledger@),
    {
        self.projected_bytes.saturating_add(
            ledger.known_pool_commitment_bytes(self.model.as_str()),
        )
    }

    /// Charges the load and asks for the process.
    fn charge_and_spawn(&mut self, ledger: &mut Lifecycle) -> (r: RunAction)
        requires
            old(ledger).wf(),
        ensures
            final(ledger).wf(),
            final(ledger)@ == old(ledger)@.after_usage(
                old(self).model@,
                old(self).price(old(ledger)@) as u64,
            ),
            *final(self) == (WorkerRun {
                phase: Phase::Spawning,
                priced_pool: old(ledger)@.known_commitment(old(self).model@) > 0,
                ..*old(self)
            }),
            r == RunAction::Spawn,
    {
        let bytes: u64 = self.price_bytes(ledger);
        self.priced_pool = ledger.known_pool_commitment_bytes(self.model.as_str()) > 0;
        ledger.record_usage(self.model.as_str(), bytes);
        self.phase = Phase::Spawning;
        RunAction::Spawn
    }

    /// What securing the budget leads to: with room for the load, the system
    /// gate or the process; without, a victim or a rejection. What is priced
    /// is what is charged, not just what is used: growth admitted but not
    /// confirmed is a real obligation.
    pub open spec fn secured(
        self,
        l: Ledger,
        now_ms: u64,
        after: WorkerRun,
        l2: Ledger,
        r: RunAction,
    ) -> bool {
        if self.fits(l) {
            if l.min_available_bytes > 0 {
                r == RunAction::Probe && l2 == l && after == self.in_phase(Phase::Probing)
            } else {
                r == RunAction::Spawn && l2 == l.after_usage(self.model@, self.price(l) as u64)
                    && after == (WorkerRun {
                    phase: Phase::Spawning,
                    priced_pool: l.known_commitment(self.model@) > 0,
                    ..self
                })
            }
        } else {
            &&& l2 == l
            &&& match r {
                RunAction::Evict(victim) => {
                    &&& after == self.in_phase(Phase::Evicting)
                    &&& l.has(victim@)
                    &&& lifecycle::evictable(l.slot(victim@), self.model@, now_ms)
                    &&& forall|j: int|
                        0 <= j < l.slots.len() && lifecycle::evictable(
                            #[trigger] l.slots[j],
                            self.model@,
                            now_ms,
                        ) ==> l.slot(victim@).last_used_ms <= l.slots[j].last_used_ms
                },
                RunAction::Finish => {
                    &&& after == (WorkerRun {
                        rejected: Some(AdmitConstraint::Budget),
                        ..self.done(RunExit::BudgetRejected, false)
                    })
                    &&& forall|j: int|
                        0 <= j < l.slots.len() ==> !lifecycle::evictable(
                            #[trigger] l.slots[j],
                            self.model@,
                            now_ms,
                        )
                },
                _ => false,
            }
        }
    }

    fn secure_budget(&mut self, ledger: &mut Lifecycle, now_ms: u64) -> (r: RunAction)
        requires
            old(ledger).wf(),
            old(ledger)@.sums_fit(),
        ensures
            final(ledger).wf(),
            old(self).secured(old(ledger)@, now_ms, *final(self), final(ledger)@, r),
    {
        let bytes: u64 = self.price_bytes(ledger);
        let charged: u64 = ledger.charged_bytes();
        if charged.saturating_add(bytes) <= ledger.budget_bytes {
            if ledger.min_available_bytes > 0 {
                self.phase = Phase::Probing;
                return RunAction::Probe;
            }
            return self.charge_and_spawn(ledger);
        }
        match ledger.pick_victim(self.model.as_str(), now_ms) {
            Some(victim) => {
                self.phase = Phase::Evicting;
                RunAction::Evict(victim)
            },
            None => {
                self.phase = Phase::Done { exit: RunExit::BudgetRejected, answer: false };
                self.rejected = Some(AdmitConstraint::Budget);
                RunAction::Finish
            },
        }
    }

    /// The load permit was granted.
    pub fn on_permit(&mut self, ledger: &mut Lifecycle, now_ms: u64) -> (r: RunAction)
        requires
            old(self).phase == Phase::AwaitPermit,
            old(ledger).wf(),
            old(ledger)@.sums_fit(),
        ensures
            final(ledger).wf(),
            old(self).secured(old(ledger)@, now_ms, *final(self), final(ledger)@, r),
    {
        self.secure_budget(ledger, now_ms)
    }

    /// Where the end of an eviction leads.
    pub open spec fn resumed(
        self,
        l: Ledger,
        confirmed: bool,
        shutting_down: bool,
        now_ms: u64,
        after: WorkerRun,
        l2: Ledger,
        r: RunAction,
    ) -> bool {
        if !confirmed {
            r == RunAction::Finish && l2 == l && after == (WorkerRun {
                rejected: Some(AdmitConstraint::Budget),
                ..self.done(RunExit::BudgetRejected, false)
            })
        } else if shutting_down {
            r == RunAction::Finish && l2 == l && after == self.done(RunExit::Shutdown, false)
        } else {
            self.secured(l, now_ms, after, l2, r)
        }
    }

    /// The eviction was confirmed or not. One that was not rejects the load:
    /// the bytes cannot be assumed to have come back.
    pub fn on_evicted(
        &mut self,
        ledger: &mut Lifecycle,
        confirmed: bool,
        shutting_down: bool,
        now_ms: u64,
    ) -> (r: RunAction)
        requires
            old(self).phase == Phase::Evicting,
            old(ledger).wf(),
            old(ledger)@.sums_fit(),
        ensures
            final(ledger).wf(),
            old(self).resumed(
                old(ledger)@,
                confirmed,
                shutting_down,
                now_ms,
                *final(self),
                final(ledger)@,
                r,
            ),
    {
        if !confirmed {
            self.phase = Phase::Done { exit: RunExit::BudgetRejected, answer: false };
            self.rejected = Some(AdmitConstraint::Budget);
            return RunAction::Finish;
        }
        if shutting_down {
            self.phase = Phase::Done { exit: RunExit::Shutdown, answer: false };
            return RunAction::Finish;
        }
        self.secure_budget(ledger, now_ms)
    }

    /// What the ledger knows of the machine after a probe for a load.
    pub open spec fn informed(l: Ledger, probe: Option<SystemMemory>, now_ms: u64) -> Ledger {
        if l.min_available_bytes > 0 && probe is Some {
            Ledger { system: probe, probed_at_ms: now_ms, ..l }
        } else {
            l
        }
    }

    /// Where a probe for the load leads.
    pub open spec fn probed(self, l: Ledger, probe: Option<SystemMemory>, now_ms: u64) -> (
        WorkerRun,
        Ledger,
        RunAction,
    ) {
        let seen = WorkerRun::informed(l, probe, now_ms);
        let denial = if l.min_available_bytes > 0 && probe is Some {
            l.system_denial(probe->0, self.price(l) as u64)
        } else {
            None
        };
        match denial {
            Some(d) => (
                WorkerRun {
                    rejected: Some(d.constraint),
                    ..self.done(RunExit::BudgetRejected, false)
                },
                seen,
                RunAction::Finish,
            ),
            None => (
                WorkerRun {
                    phase: Phase::Spawning,
                    priced_pool: l.known_commitment(self.model@) > 0,
                    ..self
                },
                seen.after_usage(self.model@, self.price(l) as u64),
                RunAction::Spawn,
            ),
        }
    }

    /// The machine's memory was read, or could not be. A load that the
    /// machine cannot give room is rejected; without a reading the budget
    /// alone has decided.
    pub fn on_probed(
        &mut self,
        ledger: &mut Lifecycle,
        probe: Option<SystemMemory>,
        now_ms: u64,
    ) -> (r: RunAction)
        requires
            old(self).phase == Phase::Probing,
            old(ledger).wf(),
            old(ledger)@.sums_fit(),
        ensures
            final(ledger).wf(),
            (*final(self), final(ledger)@, r) == old(self).probed(old(ledger)@, probe, now_ms),
    {
        let bytes: u64 = self.price_bytes(ledger);
        let gate: Result<(), lifecycle::SystemDenial> = ledger.admit_load_system(
            bytes,
            probe,
            now_ms,
        );
        proof {
            let l = old(ledger)@;
            assert(ledger@.slots == l.slots);
            assert(ledger@.has(self.model@) == l.has(self.model@));
            assert(ledger@.at(self.model@) == l.at(self.model@));
        }
        match gate {
            Err(denial) => {
                self.phase = Phase::Done { exit: RunExit::BudgetRejected, answer: false };
                self.rejected = Some(denial.constraint);
                RunAction::Finish
            },
            Ok(()) => self.charge_and_spawn(ledger),
        }
    }

    /// Where the start of the process leads.
    pub open spec fn launched(self, l: Ledger, started: bool, now_ms: u64) -> (
        WorkerRun,
        Ledger,
        RunAction,
    ) {
        if started {
            (self.in_phase(Phase::Loading { since_ms: now_ms }), l, RunAction::Wait)
        } else {
            (
                self.done(RunExit::Crashed { ready_for_ms: None }, false),
                l.after_clear(self.model@),
                RunAction::Finish,
            )
        }
    }

    /// The process started, or failed to. A failure releases what the load
    /// was charged and counts as a crash.
    pub fn on_spawned(&mut self, ledger: &mut Lifecycle, started: bool, now_ms: u64) -> (r:
        RunAction)
        requires
            old(self).phase == Phase::Spawning,
            old(ledger).wf(),
        ensures
            final(ledger).wf(),
            (*final(self), final(ledger)@, r) == old(self).launched(old(ledger)@, started, now_ms),
    {
        if started {
            self.phase = Phase::Loading { since_ms: now_ms };
            RunAction::Wait
        } else {
            ledger.clear_usage(self.model.as_str());
            self.phase = Phase::Done {
                exit: RunExit::Crashed { ready_for_ms: None },
                answer: false,
            };
            RunAction::Finish
        }
    }

    /// How long the worker has served.
    pub open spec fn served_ms(self, now_ms: u64) -> Option<u64> {
        match self.phase {
            Phase::Serving { ready_at_ms, .. } => Some(
                lifecycle::minus(now_ms as int, ready_at_ms as int) as u64,
            ),
            _ => None,
        }
    }

    fn served(&self, now_ms: u64) -> (r: Option<u64>)
        ensures
            r == self.served_ms(now_ms),
    {
        match self.phase {
            Phase::Serving { ready_at_ms, .. } => Some(now_ms.saturating_sub(ready_at_ms)),
            _ => None,
        }
    }

    fn kill(&mut self, exit: RunExit) -> (r: RunAction)
        ensures
            r == RunAction::Kill,
            *final(self) == old(self).reaping(exit, false),
    {
        self.phase = Phase::Reaping { exit, answer: false };
        RunAction::Kill
    }

    /// A run whose worker is gone or is given up.
    pub open spec fn crashed(self, now_ms: u64) -> WorkerRun {
        self.reaping(RunExit::Crashed { ready_for_ms: self.served_ms(now_ms) }, false)
    }

    /// The worker process exited on its own while loading or serving; its
    /// process group is swept.
    pub fn on_child_exit(&mut self, now_ms: u64) -> (r: RunAction)
        requires
            old(self).phase is Loading || old(self).phase is Serving,
        ensures
            r == RunAction::Kill,
            *final(self) == old(self).crashed(now_ms),
    {
        let ready_for_ms: Option<u64> = self.served(now_ms);
        self.kill(RunExit::Crashed { ready_for_ms })
    }

    /// Where the end of the gateway leads.
    pub open spec fn shut_down(self) -> (WorkerRun, RunAction) {
        if self.phase is AwaitPermit {
            (self.done(RunExit::Shutdown, false), RunAction::Finish)
        } else {
            (self.reaping(RunExit::Shutdown, false), RunAction::Kill)
        }
    }

    /// The gateway is shutting down: a waiting run ends at once, a worker
    /// that is loading or serving is killed.
    pub fn on_shutdown(&mut self) -> (r: RunAction)
        requires
            old(self).phase is AwaitPermit || old(self).phase is Loading || old(
                self,
            ).phase is Serving,
        ensures
            (*final(self), r) == old(self).shut_down(),
    {
        match self.phase {
            Phase::AwaitPermit => {
                self.phase = Phase::Done { exit: RunExit::Shutdown, answer: false };
                RunAction::Finish
            },
            _ => self.kill(RunExit::Shutdown),
        }
    }

    /// Where a poll while the model loads leads.
    pub open spec fn load_polled(self, health: Option<HealthReport>, now_ms: u64) -> (
        WorkerRun,
        RunAction,
    ) {
        let late = lifecycle::minus(now_ms as int, self.phase->Loading_since_ms as int)
            > READY_DEADLINE_MS;
        if late || (health is Some && health->0.state == WorkerState::Unhealthy) {
            (self.reaping(RunExit::Crashed { ready_for_ms: None }, false), RunAction::Kill)
        } else if health is Some && health->0.state == WorkerState::Ready {
            (self.in_phase(Phase::Identifying { ready_at_ms: now_ms }), RunAction::FetchInfo)
        } else {
            (self, RunAction::Wait)
        }
    }

    /// A poll while the model loads: `health` is the worker's answer, if it
    /// gave one. A load past its deadline or a worker that reports itself
    /// unhealthy is recycled; no answer means that the socket is not up yet.
    pub fn on_load_poll(&mut self, health: Option<HealthReport>, now_ms: u64) -> (r: RunAction)
        requires
            old(self).phase is Loading,
        ensures
            (*final(self), r) == old(self).load_polled(health, now_ms),
    {
        if let Phase::Loading { since_ms } = self.phase {
            if now_ms.saturating_sub(since_ms) > READY_DEADLINE_MS {
                return self.kill(RunExit::Crashed { ready_for_ms: None });
            }
        }
        match health {
            None => RunAction::Wait,
            Some(report) => match report.state {
                WorkerState::Ready => {
                    self.phase = Phase::Identifying { ready_at_ms: now_ms };
                    RunAction::FetchInfo
                },
                WorkerState::Unhealthy => self.kill(RunExit::Crashed { ready_for_ms: None }),
                _ => RunAction::Wait,
            },
        }
    }

    /// The ledger after the worker said what it is.
    pub open spec fn identified(self, l: Ledger, info: Option<WorkerInfo>) -> Ledger {
        let known = match info {
            Some(i) => l.after_commitment(self.model@, commitment(i) as u64),
            None => l,
        };
        if self.priced_pool {
            known.after_reserve_room(self.model@)
        } else {
            known
        }
    }

    /// What the worker said of itself at READY, if it answered: its pool
    /// commitment is recorded, and where the load was priced with a pool the
    /// room secured for it becomes a reservation.
    pub fn on_info(&mut self, ledger: &mut Lifecycle, info: Option<WorkerInfo>) -> (r: RunAction)
        requires
            old(self).phase is Identifying,
            old(ledger).wf(),
        ensures
            final(ledger).wf(),
            r == RunAction::Measure,
            *final(self) == old(self).in_phase(
                Phase::Measuring { ready_at_ms: old(self).phase->Identifying_ready_at_ms },
            ),
            final(ledger)@ == old(self).identified(old(ledger)@, info),
    {
        if let Some(i) = &info {
            ledger.set_pool_commitment(self.model.as_str(), pool_commitment(i));
        }
        if self.priced_pool {
            ledger.reserve_pool_room(self.model.as_str());
        }
        if let Phase::Identifying { ready_at_ms } = self.phase {
            self.phase = Phase::Measuring { ready_at_ms };
        }
        RunAction::Measure
    }

    /// Where the first heartbeat leads.
    pub open spec fn measured(self, l: Ledger, health: Option<HealthReport>, now_ms: u64) -> (
        WorkerRun,
        Ledger,
    ) {
        (
            WorkerRun {
                uncovered_bytes: match health {
                    Some(h) => uncovered_by(l, self.model@, h.memory) as u64,
                    None => self.uncovered_bytes,
                },
                phase: Phase::Serving {
                    ready_at_ms: self.phase->Measuring_ready_at_ms,
                    last_ok_ms: now_ms,
                    stats_supported: true,
                },
                ..self
            },
            (match health {
                Some(h) => after_memory(l, self.model@, h.memory),
                None => l,
            }).after_touch(self.model@, now_ms).after_status(self.model@, WorkerStatus::Ready),
        )
    }

    /// The first measured footprint, if the worker answered, replaces the
    /// projection before the next load is let in; the clock of last use
    /// starts now.
    pub fn on_measured(
        &mut self,
        ledger: &mut Lifecycle,
        health: Option<HealthReport>,
        now_ms: u64,
    ) -> (r: RunAction)
        requires
            old(self).phase is Measuring,
            old(ledger).wf(),
            health is Some ==> health->0.fits(),
        ensures
            final(ledger).wf(),
            r == RunAction::Serve,
            (*final(self), final(ledger)@) == old(self).measured(old(ledger)@, health, now_ms),
    {
        if let Some(h) = &health {
            self.uncovered_bytes = record_memory(ledger, self.model.as_str(), h);
        }
        ledger.touch(self.model.as_str(), now_ms);
        ledger.set_status(self.model.as_str(), WorkerStatus::Ready);
        if let Phase::Measuring { ready_at_ms } = self.phase {
            self.phase = Phase::Serving { ready_at_ms, last_ok_ms: now_ms, stats_supported: true };
        }
        RunAction::Serve
    }

    fn begin_unload(
        &mut self,
        ledger: &mut Lifecycle,
        reason: UnloadReason,
        answer: bool,
        now_ms: u64,
    ) -> (r: RunAction)
        requires
            old(ledger).wf(),
        ensures
            final(ledger).wf(),
            r == RunAction::Drain,
            final(ledger)@ == old(ledger)@.after_status(old(self).model@, WorkerStatus::Draining),
            *final(self) == old(self).in_phase(
                Phase::Draining { reason, answer, since_ms: now_ms },
            ),
    {
        ledger.set_status(self.model.as_str(), WorkerStatus::Draining);
        self.phase = Phase::Draining { reason, answer, since_ms: now_ms };
        RunAction::Drain
    }

    /// Where an order leads.
    pub open spec fn ordered(self, l: Ledger, command: Command, now_ms: u64) -> (
        WorkerRun,
        Ledger,
        RunAction,
    ) {
        match command {
            Command::Load => (self, l, RunAction::Wait),
            Command::Unload { reason } => (
                self.in_phase(Phase::Draining { reason, answer: true, since_ms: now_ms }),
                l.after_status(self.model@, WorkerStatus::Draining),
                RunAction::Drain,
            ),
        }
    }

    /// An order while the worker serves: a load is a no-op, an unload starts
    /// the ladder and is answered when it is over.
    pub fn on_command(&mut self, ledger: &mut Lifecycle, command: Command, now_ms: u64) -> (r:
        RunAction)
        requires
            old(self).phase is Serving,
            old(ledger).wf(),
        ensures
            final(ledger).wf(),
            (*final(self), final(ledger)@, r) == old(self).ordered(old(ledger)@, command, now_ms),
    {
        match command {
            Command::Load => RunAction::Wait,
            Command::Unload { reason } => self.begin_unload(ledger, reason, true, now_ms),
        }
    }

    /// Whether a heartbeat finds the worker idle past its lease.
    pub open spec fn expired(self, l: Ledger, now_ms: u64) -> bool {
        match self.ttl_seconds {
            Some(ttl) => l.idle(self.model@, now_ms) >= ttl * 1000,
            None => false,
        }
    }

    /// Where a heartbeat while the worker serves leads.
    pub open spec fn polled(self, l: Ledger, health: Option<HealthReport>, now_ms: u64) -> (
        WorkerRun,
        Ledger,
        RunAction,
    ) {
        match health {
            None => if lifecycle::minus(now_ms as int, self.phase->last_ok_ms as int)
                > HEALTH_MISSED_DEADLINE_MS {
                (self.crashed(now_ms), l, RunAction::Kill)
            } else {
                (self, l, RunAction::Wait)
            },
            Some(h) => if h.state == WorkerState::Unhealthy {
                (self.crashed(now_ms), l, RunAction::Kill)
            } else {
                let seen = after_memory(l, self.model@, h.memory);
                let counted = WorkerRun {
                    uncovered_bytes: uncovered_by(l, self.model@, h.memory) as u64,
                    ..self
                };
                if h.in_flight() == 0 && self.expired(seen, now_ms) {
                    (
                        counted.in_phase(
                            Phase::Draining {
                                reason: UnloadReason::IdleTtl,
                                answer: false,
                                since_ms: now_ms,
                            },
                        ),
                        seen.after_status(self.model@, WorkerStatus::Draining),
                        RunAction::Drain,
                    )
                } else {
                    (
                        counted.in_phase(
                            Phase::Serving {
                                ready_at_ms: self.phase->Serving_ready_at_ms,
                                last_ok_ms: now_ms,
                                stats_supported: self.phase->stats_supported,
                            },
                        ),
                        if h.in_flight() > 0 {
                            seen.after_touch(self.model@, now_ms)
                        } else {
                            seen
                        },
                        if self.phase->stats_supported {
                            RunAction::SampleStats
                        } else {
                            RunAction::Wait
                        },
                    )
                }
            },
        }
    }

    /// A heartbeat while the worker serves: `health` is the worker's answer,
    /// if it gave one. A worker that reports itself unhealthy, or stays
    /// silent for too long, is recycled. Work in flight counts as use; an
    /// idle worker past its lease is unloaded.
    pub fn on_health_poll(
        &mut self,
        ledger: &mut Lifecycle,
        health: Option<HealthReport>,
        now_ms: u64,
    ) -> (r: RunAction)
        requires
            old(self).phase is Serving,
            old(ledger).wf(),
            health is Some ==> health->0.fits(),
        ensures
            final(ledger).wf(),
            (*final(self), final(ledger)@, r) == old(self).polled(old(ledger)@, health, now_ms),
    {
        let ready_for_ms: Option<u64> = self.served(now_ms);
        let crashed: RunExit = RunExit::Crashed { ready_for_ms };
        if let Phase::Serving { ready_at_ms, last_ok_ms, stats_supported } = self.phase {
            match &health {
                None => {
                    if now_ms.saturating_sub(last_ok_ms) > HEALTH_MISSED_DEADLINE_MS {
                        self.kill(crashed)
                    } else {
                        RunAction::Wait
                    }
                },
                Some(h) => {
                    if h.state == WorkerState::Unhealthy {
                        return self.kill(crashed);
                    }
                    self.uncovered_bytes = record_memory(ledger, self.model.as_str(), h);
                    let busy: bool = h.requests_running > 0 || h.requests_waiting > 0;
                    if busy {
                        ledger.touch(self.model.as_str(), now_ms);
                    } else if let Some(ttl) = self.ttl_seconds {
                        let idle: u64 = ledger.idle(self.model.as_str(), now_ms);
                        if idle as u128 >= ttl as u128 * 1000 {
                            return self.begin_unload(ledger, UnloadReason::IdleTtl, false, now_ms);
                        }
                    }
                    self.phase = Phase::Serving {
                        ready_at_ms,
                        last_ok_ms: now_ms,
                        stats_supported,
                    };
                    if stats_supported {
                        RunAction::SampleStats
                    } else {
                        RunAction::Wait
                    }
                },
            }
        } else {
            RunAction::Wait
        }
    }

    /// The worker does not implement statistics: it is not asked again in
    /// this lifetime.
    pub fn on_stats_unimplemented(&mut self)
        requires
            old(self).phase is Serving,
        ensures
            *final(self) == old(self).in_phase(
                Phase::Serving {
                    ready_at_ms: old(self).phase->Serving_ready_at_ms,
                    last_ok_ms: old(self).phase->last_ok_ms,
                    stats_supported: false,
                },
            ),
    {
        if let Phase::Serving { ready_at_ms, last_ok_ms, .. } = self.phase {
            self.phase = Phase::Serving { ready_at_ms, last_ok_ms, stats_supported: false };
        }
    }

    /// Where a look at a draining worker leads.
    pub open spec fn drained(self, remaining: Option<u64>, shutting_down: bool, now_ms: u64) -> (
        WorkerRun,
        RunAction,
    ) {
        if remaining is Some && remaining->0 > 0 && lifecycle::minus(
            now_ms as int,
            self.phase->Draining_since_ms as int,
        ) < DRAIN_DEADLINE_MS && !shutting_down {
            (self, RunAction::PollDrain)
        } else {
            (
                self.in_phase(
                    Phase::Terminating {
                        reason: self.phase->Draining_reason,
                        answer: self.phase->Draining_answer,
                    },
                ),
                RunAction::Terminate,
            )
        }
    }

    /// What is known of a draining worker: `remaining` requests, or nothing
    /// when it does not answer or its process is gone. Requests that remain
    /// get until the drain deadline; then, on shutdown, or when the worker no
    /// longer answers, the process group is terminated.
    pub fn on_drain(&mut self, remaining: Option<u64>, shutting_down: bool, now_ms: u64) -> (r:
        RunAction)
        requires
            old(self).phase is Draining,
        ensures
            (*final(self), r) == old(self).drained(remaining, shutting_down, now_ms),
    {
        if let Phase::Draining { reason, answer, since_ms } = self.phase {
            let left: u64 = match remaining {
                Some(n) => n,
                None => 0,
            };
            if left > 0 && now_ms.saturating_sub(since_ms) < DRAIN_DEADLINE_MS && !shutting_down {
                return RunAction::PollDrain;
            }
            self.phase = Phase::Terminating { reason, answer };
        }
        RunAction::Terminate
    }

    /// A run whose worker had its time to end.
    pub open spec fn swept(self) -> WorkerRun {
        self.reaping(
            RunExit::Unloaded { reason: self.phase->Terminating_reason },
            self.phase->Terminating_answer,
        )
    }

    /// The grace period after SIGTERM is over, one way or the other: the
    /// whole group is swept, because descendants may outlive the child.
    pub fn on_terminated(&mut self) -> (r: RunAction)
        requires
            old(self).phase is Terminating,
        ensures
            r == RunAction::Kill,
            *final(self) == old(self).swept(),
    {
        if let Phase::Terminating { reason, answer } = self.phase {
            self.phase = Phase::Reaping { exit: RunExit::Unloaded { reason }, answer };
        }
        RunAction::Kill
    }

    /// Where the end of the process leads.
    pub open spec fn reaped(self, l: Ledger) -> (WorkerRun, Ledger) {
        (
            self.done(self.phase->Reaping_exit, self.phase->Reaping_answer),
            l.after_clear(self.model@),
        )
    }

    /// The process is gone: everything it was charged for is released, and
    /// the run is over.
    pub fn on_reaped(&mut self, ledger: &mut Lifecycle) -> (r: RunAction)
        requires
            old(self).phase is Reaping,
            old(ledger).wf(),
        ensures
            final(ledger).wf(),
            r == RunAction::Finish,
            (*final(self), final(ledger)@) == old(self).reaped(old(ledger)@),
    {
        ledger.clear_usage(self.model.as_str());
        if let Phase::Reaping { exit, answer } = self.phase {
            self.phase = Phase::Done { exit, answer };
        }
        RunAction::Finish
    }
}

/// A load that goes ahead leaves what is charged within the budget.
pub proof fn law_loads_stay_within_the_budget(run: WorkerRun, l: Ledger)
    requires
        l.ids_distinct(),
        l.has(run.model@),
        l.slot(run.model@).usage_bytes == 0,
        run.fits(l),
        l.budget_bytes < u64::MAX,
    ensures
        l.after_usage(run.model@, run.price(l) as u64).charged() <= l.budget_bytes,
{
    lifecycle::lemma_usage_charge(l, run.model@, run.price(l) as u64);
}

/// Why the supervisor cannot start.
#[derive(Debug)]
pub enum StartError {
    Registry(RegistryError),
    Budget(String),
}

impl StartError {
    pub open spec fn spec_message(self) -> Seq<char> {
        match self {
            StartError::Registry(e) => e.spec_message(),
            StartError::Budget(m) => "memory budget: "@ + m@,
        }
    }

    /// The error in words.
    pub fn message(&self) -> (r: String)
        ensures
            r@ == self.spec_message(),
    {
        match self {
            StartError::Registry(e) => e.message(),
            StartError::Budget(m) => {
                let mut s: String = "memory budget: ".to_owned();
                s.append(m.as_str());
                s
            },
        }
    }
}

/// The bytes of weights on disk of a model and of its draft.
#[derive(Debug, Clone, Copy, PartialEq, Eq, Structural)]
pub struct Weights {
    pub target: u64,
    pub draft: u64,
}

/// How a model's worker is started.
#[derive(Debug)]
pub struct WorkerPlan {
    pub argv: Vec<String>,
    pub projected_bytes: u64,
}

/// What a model's load is projected to take.
pub open spec fn projection(entry: ModelEntry, weights: Weights) -> int {
    let bytes = weights.target + (if entry.draft_path is Some {
        weights.draft as int
    } else {
        0
    });
    if bytes == 0 {
        0
    } else {
        bytes + LOAD_OVERHEAD_MARGIN_BYTES
    }
}

/// The slot of a model that was just registered.
pub open spec fn fresh_slot(slot: Slot, entry: ModelEntry) -> bool {
    &&& slot.id@ == entry.id@
    &&& slot == (Slot {
        id: slot.id,
        status: WorkerStatus::Starting,
        pinned: entry.config.pinned,
        ttl_seconds: if entry.config.ttl_seconds == 0 {
            None
        } else {
            Some(entry.config.ttl_seconds)
        },
        usage_bytes: 0,
        last_used_ms: 0,
        pool_commitment_bytes: 0,
        pool_materialized_bytes: 0,
        pool_reserved_bytes: 0,
        known_pool_commitment_bytes: 0,
    })
}

/// The ledger of a gateway that just started: one fresh slot per entry, in
/// order.
pub open spec fn fresh_ledger(l: Ledger, entries: Seq<ModelEntry>) -> bool {
    &&& l.slots.len() == entries.len()
    &&& forall|i: int|
        0 <= i < entries.len() ==> fresh_slot(#[trigger] l.slots[i], entries[i])
}

fn add_slots(ledger: &mut Lifecycle, registry: &Registry)
    requires
        registry.wf(),
        old(ledger).wf(),
        old(ledger)@.slots.len() == 0,
    ensures
        final(ledger).wf(),
        fresh_ledger(final(ledger)@, registry.entries@),
        final(ledger)@ == (Ledger { slots: final(ledger)@.slots, ..old(ledger)@ }),
{
    let ghost start = ledger@;
    let mut i: usize = 0;
    while i < registry.entries.len()
        invariant
            i <= registry.entries@.len(),
            registry.wf(),
            ledger.wf(),
            ledger@ == (Ledger { slots: ledger@.slots, ..start }),
            ledger@.slots.len() == i,
            forall|j: int|
                0 <= j < i ==> fresh_slot(#[trigger] ledger@.slots[j], registry.entries@[j]),
        decreases registry.entries@.len() - i,
    {
        let entry: &ModelEntry = &registry.entries[i];
        let ghost before = ledger@;
        let added: bool = ledger.add_slot(
            entry.id.as_str(),
            WorkerStatus::Starting,
            entry.config.pinned,
            entry.config.ttl_seconds,
        );
        proof {
            if before.has(entry.id@) {
                let j = before.at(entry.id@);
                assert(fresh_slot(before.slots[j], registry.entries@[j]));
                assert(registry.entries@[j].id@ == registry.entries@[i as int].id@);
                assert(false);
            }
            assert(added);
            assert forall|j: int| 0 <= j < i + 1 implies fresh_slot(
                #[trigger] ledger@.slots[j],
                registry.entries@[j],
            ) by {
                if j < i {
                    assert(ledger@.slots[j] == ledger@.slots.drop_last()[j]);
                    assert(fresh_slot(before.slots[j], registry.entries@[j]));
                }
            }
        }
        i = i + 1;
    }
}

/// The machine's budget: the override, else the configured share of the
/// total.
pub open spec fn budget_of(config: KilnConfig, share_bytes: u64) -> u64 {
    match config.memory.budget_bytes {
        Some(bytes) => bytes,
        None => share_bytes,
    }
}

/// A model before the one at `i` has its id.
pub open spec fn id_repeats(models: Seq<crate::config::ModelConfig>, i: int) -> bool {
    exists|j: int| 0 <= j < i && (#[trigger] models[j]).id@ == models[i].id@
}

/// The registry, the ledger and one plan per model, in configuration order. Two
/// models with one id cannot be supervised side by side: their workers would
/// share a socket.
/// `facts` and `weights` say what is known of each configured model's files,
/// `total` what memory the machine has and `share_bytes` the configured share
/// of it.
pub fn start(
    config: &KilnConfig,
    facts: &Vec<ModelFacts>,
    weights: &Vec<Weights>,
    home: Option<&str>,
    created_unix: u64,
    total: Option<u64>,
    share_bytes: u64,
) -> (r: Result<(Registry, Lifecycle, Vec<WorkerPlan>), StartError>)
    requires
        facts@.len() == config.models@.len(),
        weights@.len() == config.models@.len(),
        forall|i: int|
            0 <= i < weights@.len() ==> (#[trigger] weights@[i]).target + weights@[i].draft
                + LOAD_OVERHEAD_MARGIN_BYTES <= u64::MAX,
    ensures
        match r {
            Ok((registry, ledger, plans)) => {
                let dir = paths::expanded(config.server.runtime_dir@, paths::opt_str(home));
                &&& registry.wf()
                &&& registry.entries@.len() == config.models@.len()
                &&& forall|i: int|
                    0 <= i < config.models@.len() ==> registry::entry_problem(
                        #[trigger] config.models@[i],
                        facts@[i],
                        dir,
                    ) is None
                &&& forall|i: int|
                    0 <= i < config.models@.len() ==> !#[trigger] id_repeats(config.models@, i)
                &&& forall|i: int|
                    0 <= i < config.models@.len() ==> registry::entry_ok(
                        #[trigger] registry.entries@[i],
                        config.models@[i],
                        facts@[i],
                        dir,
                        paths::opt_str(home),
                        created_unix,
                    )
                &&& ledger.wf()
                &&& fresh_ledger(ledger@, registry.entries@)
                &&& config.memory.budget_bytes is Some || total is Some
                &&& ledger@ == (Ledger {
                    budget_bytes: budget_of(*config, share_bytes),
                    total_bytes: total,
                    min_available_bytes: config.memory.min_available_bytes,
                    system: None,
                    probed_at_ms: 0,
                    probe_inflight: false,
                    slots: ledger@.slots,
                })
                &&& plans@.len() == config.models@.len()
                &&& forall|i: int|
                    0 <= i < plans@.len() ==> text::list_view((#[trigger] plans@[i]).argv@)
                        == argv_of(*config, registry.entries@[i], paths::opt_str(home))
                        && plans@[i].projected_bytes == projection(
                        registry.entries@[i],
                        weights@[i],
                    )
                &&& forall|i: int|
                    0 <= i < plans@.len() && !(registry.entries@[i].worker_kind is Rust)
                        ==> text::list_view((#[trigger] plans@[i]).argv@) == text::list_view(
                        config.server.python_worker_argv@,
                    )
                &&& forall|i: int|
                    0 <= i < plans@.len() && registry.entries@[i].worker_kind is Rust
                        ==> text::list_view(config.server.rust_worker_argv@).is_prefix_of(
                        text::list_view((#[trigger] plans@[i]).argv@),
                    )
            },
            Err(StartError::Registry(e)) => {
                let dir = paths::expanded(config.server.runtime_dir@, paths::opt_str(home));
                ||| exists|i: int|
                    {
                        &&& 0 <= i < config.models@.len()
                        &&& registry::entry_problem(#[trigger] config.models@[i], facts@[i], dir)
                            == Some(e.problem())
                        &&& registry::error_ok(e, config.models@[i], facts@[i], dir)
                        &&& forall|j: int|
                            0 <= j < i ==> registry::entry_problem(
                                #[trigger] config.models@[j],
                                facts@[j],
                                dir,
                            ) is None
                    }
                ||| e is Duplicate && (forall|j: int|
                    0 <= j < config.models@.len() ==> registry::entry_problem(
                        #[trigger] config.models@[j],
                        facts@[j],
                        dir,
                    ) is None) && exists|i: int|
                    {
                        &&& 0 <= i < config.models@.len()
                        &&& #[trigger] id_repeats(config.models@, i)
                        &&& e->Duplicate_0@ == config.models@[i].id@
                        &&& forall|j: int| 0 <= j < i ==> !#[trigger] id_repeats(config.models@, j)
                    }
            },
            Err(StartError::Budget(m)) => {
                let dir = paths::expanded(config.server.runtime_dir@, paths::opt_str(home));
                &&& config.memory.budget_bytes is None
                &&& total is None
                &&& m@
                    == "could not determine total unified memory for the machine budget; set memory.budget_bytes explicitly"@
                &&& forall|i: int|
                    0 <= i < config.models@.len() ==> registry::entry_problem(
                        #[trigger] config.models@[i],
                        facts@[i],
                        dir,
                    ) is None
                &&& forall|i: int|
                    0 <= i < config.models@.len() ==> !#[trigger] id_repeats(config.models@, i)
            },
        },
{
    let registry: Registry = match Registry::from_config(config, facts, home, created_unix) {
        Ok(registry) => registry,
        Err(e) => return Err(StartError::Registry(e)),
    };
    proof {
        assert forall|i: int| 0 <= i < config.models@.len() implies #[trigger] id_repeats(
            config.models@,
            i,
        ) == registry.repeats(i) by {
            assert(registry.entries@[i].id@ == config.models@[i].id@);
            if registry.repeats(i) {
                let j = choose|j: int|
                    0 <= j < i && (#[trigger] registry.entries@[j]).id@ == registry.entries@[i].id@;
                assert(config.models@[j].id@ == config.models@[i].id@);
            }
            if id_repeats(config.models@, i) {
                let j = choose|j: int|
                    0 <= j < i && (#[trigger] config.models@[j]).id@ == config.models@[i].id@;
                assert(registry.entries@[j].id@ == registry.entries@[i].id@);
            }
        }
    }
    if let Some(i) = registry.first_repeat() {
        assert(id_repeats(config.models@, i as int));
        assert forall|j: int| 0 <= j < i implies !#[trigger] id_repeats(config.models@, j) by {
            assert(!registry.repeats(j));
        }
        return Err(StartError::Registry(RegistryError::Duplicate(registry.entries[i].id.clone())));
    }
    assert forall|i: int| 0 <= i < config.models@.len() implies !#[trigger] id_repeats(
        config.models@,
        i,
    ) by {
        if registry.repeats(i) {
            let j = choose|j: int|
                0 <= j < i && (#[trigger] registry.entries@[j]).id@ == registry.entries@[i].id@;
            assert(registry.entries@[j].id@ != registry.entries@[i].id@);
        }
    }
    let (budget, total_bytes) = match lifecycle::machine_budget(
        config.memory.budget_bytes,
        total,
        share_bytes,
    ) {
        Ok(x) => x,
        Err(m) => return Err(StartError::Budget(m)),
    };
    let mut ledger: Lifecycle = Lifecycle::new(
        budget,
        total_bytes,
        config.memory.min_available_bytes,
    );
    add_slots(&mut ledger, &registry);
    let mut plans: Vec<WorkerPlan> = Vec::new();
    let mut i: usize = 0;
    while i < registry.entries.len()
        invariant
            i <= registry.entries@.len(),
            registry.entries@.len() == weights@.len(),
            forall|i: int|
                0 <= i < weights@.len() ==> (#[trigger] weights@[i]).target + weights@[i].draft
                    + LOAD_OVERHEAD_MARGIN_BYTES <= u64::MAX,
            plans@.len() == i,
            forall|j: int|
                0 <= j < i ==> text::list_view((#[trigger] plans@[j]).argv@) == argv_of(
                    *config,
                    registry.entries@[j],
                    paths::opt_str(home),
                ) && plans@[j].projected_bytes == projection(registry.entries@[j], weights@[j]),
            forall|j: int|
                0 <= j < i && !(registry.entries@[j].worker_kind is Rust) ==> text::list_view(
                    (#[trigger] plans@[j]).argv@,
                ) == text::list_view(config.server.python_worker_argv@),
            forall|j: int|
                0 <= j < i && registry.entries@[j].worker_kind is Rust ==> text::list_view(
                    config.server.rust_worker_argv@,
                ).is_prefix_of(text::list_view((#[trigger] plans@[j]).argv@)),
        decreases registry.entries@.len() - i,
    {
        let entry: &ModelEntry = &registry.entries[i];
        assert(weights@[i as int].target + weights@[i as int].draft
            + LOAD_OVERHEAD_MARGIN_BYTES <= u64::MAX);
        let draft: u64 = if entry.draft_path.is_some() {
            weights[i].draft
        } else {
            0
        };
        let projected_bytes: u64 = load_projection(weights[i].target, draft);
        plans.push(WorkerPlan { argv: worker_argv(config, entry, home), projected_bytes });
        i = i + 1;
    }
    Ok((registry, ledger, plans))
}

/// A model of the Python worker is started with the Python worker's configured
/// command line, a model of the Rust worker with one that begins with the Rust
/// worker's.
pub proof fn law_models_run_their_own_worker(
    config: KilnConfig,
    entry: ModelEntry,
    home: Option<Seq<char>>,
)
    ensures
        !(entry.worker_kind is Rust) ==> argv_of(config, entry, home) == text::list_view(
            config.server.python_worker_argv@,
        ),
        entry.worker_kind is Rust ==> text::list_view(config.server.rust_worker_argv@).is_prefix_of(
            argv_of(config, entry, home),
        ),
{
    let base = text::list_view(config.server.rust_worker_argv@);
    let argv = argv_of(config, entry, home);
    if entry.worker_kind is Rust {
        assert(base =~= argv.take(base.len() as int));
    }
}

/// The words behind the Rust worker's configured command line are flags, each with
/// its value: the disk cache's directory and size where the disk cache is on, the
/// kernel switch where that is on, the draft's directory and depth where the model
/// has one, and nothing else.
pub proof fn law_rust_workers_are_told_their_options(
    config: KilnConfig,
    entry: ModelEntry,
    home: Option<Seq<char>>,
)
    requires
        entry.worker_kind is Rust,
    ensures
        ({
            let base = text::list_view(config.server.rust_worker_argv@);
            let argv = argv_of(config, entry, home);
            let disk: int = if config.defaults.ssd_tier {
                4
            } else {
                0
            };
            let kernel: int = if config.defaults.paged_attention_kernel {
                1
            } else {
                0
            };
            let draft: int = if entry.draft_path is Some && entry.config.speculative is Some {
                4
            } else {
                0
            };
            let n = base.len() as int;
            &&& argv.len() == n + disk + kernel + draft
            &&& disk > 0 ==> argv[n] == "--ssd-dir"@ && argv[n + 1] == paths::expanded(
                config.server.cache_dir@,
                home,
            ) && argv[n + 2] == "--ssd-max-gb"@ && argv[n + 3] == text::decimal(
                config.defaults.ssd_cache_max_gb as nat,
            )
            &&& kernel > 0 ==> argv[n + disk] == "--paged-attention-kernel"@
            &&& draft > 0 ==> argv[n + disk + kernel] == "--draft-model"@ && argv[n + disk + kernel
                + 1] == entry.draft_path->0@ && argv[n + disk + kernel + 2] == "--draft-gamma"@
                && argv[n + disk + kernel + 3] == text::decimal(
                entry.config.speculative->0.gamma as nat,
            )
        }),
{
}

/// A worker is told the directory of its model, the socket it serves at and the
/// name it goes by, behind its command line.
pub proof fn law_workers_are_told_model_socket_and_name(argv: Seq<Seq<char>>, entry: ModelEntry)
    ensures
        ({
            let all = spawned(argv, entry);
            let n = argv.len() as int;
            &&& argv.is_prefix_of(all)
            &&& all.len() == n + 6
            &&& all[n] == "--model"@ && all[n + 1] == entry.model_path@
            &&& all[n + 2] == "--socket"@ && all[n + 3] == entry.socket_path@
            &&& all[n + 4] == "--model-id"@ && all[n + 5] == entry.id@
        }),
{
    let all = spawned(argv, entry);
    assert(argv =~= all.take(argv.len() as int));
}

/// Half a second before the first restart, twice that before the second, four
/// times before the third.
pub proof fn law_backoff_doubles(attempt: u32)
    requires
        1 <= attempt < 5,
    ensures
        backoff_ms(1) == 500,
        backoff_ms((attempt + 1) as u32) == 2 * backoff_ms(attempt),
{
    lemma_backoff_table(1);
    lemma_backoff_table(attempt);
    lemma_backoff_table((attempt + 1) as u32);
}

/// The limits that supervision goes by: a second between heartbeats, three seconds
/// of silence, ten minutes to load, half a minute to drain, five seconds to end,
/// three restarts, a minute of service for a new count.
pub proof fn law_supervision_limits()
    ensures
        HEALTH_POLL_INTERVAL_MS == 1_000,
        HEALTH_RPC_TIMEOUT_MS == 2_000,
        HEALTH_MISSED_DEADLINE_MS == 3_000,
        READY_POLL_INTERVAL_MS == 250,
        READY_DEADLINE_MS == 10 * 60 * 1_000,
        DRAIN_DEADLINE_MS == 30 * 1_000,
        TERM_GRACE_MS == 5 * 1_000,
        DRAIN_POLL_MS == 250,
        MAX_RESTART_ATTEMPTS == 3,
        STABLE_RESET_MS == 60 * 1_000,
        LOAD_OVERHEAD_MARGIN_BYTES == 64 * 1024 * 1024,
{
}

/// A crash is counted, published and followed by its wait and a new run, as long as
/// it is at most the third in a row; the one after that fails the model for good.
pub proof fn law_crashes_restart_or_fail(attempts: u32, ready_for_ms: Option<u64>)
    requires
        attempts <= 3,
        ready_for_ms is Some ==> ready_for_ms->0 < 60_000,
    ensures
        ({
            let e = SuperviseEvent::Exit(RunExit::Crashed { ready_for_ms });
            let (next, action) = supervised(Supervision::Running { attempts }, e);
            &&& action.crashed && !action.start && !action.ack
            &&& attempts < 3 ==> {
                &&& action.publish == Some(
                    WorkerStatus::Restarting { attempt: (attempts + 1) as u32 },
                )
                &&& action.wait_ms is Some && action.wait_ms->0 == backoff_ms(
                    (attempts + 1) as u32,
                )
                &&& supervised(next, SuperviseEvent::BackoffElapsed).1.start
                &&& supervised(next, SuperviseEvent::BackoffElapsed).1.publish == Some(
                    WorkerStatus::Starting,
                )
            }
            &&& attempts == 3 ==> action.publish == Some(WorkerStatus::Failed) && action.wait_ms
                is None
        }),
{
    lemma_backoff_table((attempts + 1) as u32);
}

/// A load starts a run where nothing is running and nothing has failed, and only
/// there: a run is started by a load of an idle model or by the end of a wait.
pub proof fn law_runs_are_started_once(s: Supervision, e: SuperviseEvent)
    ensures
        supervised(s, e).1.start <==> (s is Idle && e == SuperviseEvent::Command(Command::Load))
            || (s is BackingOff && e is BackoffElapsed),
        supervised(s, e).1.start ==> supervised(s, e).0 is Running && supervised(s, e).1.publish
            == Some(WorkerStatus::Starting),
        s is Running && !(e is Exit) ==> supervised(s, e) == (s, quiet()),
        quiet().publish is None && !quiet().start && quiet().wait_ms is None && !quiet().ack
            && !quiet().crashed,
{
}

/// What ended a run is what is published: an unload its reason, a load without room
/// that it was over budget, a shutdown that it stopped.
pub proof fn law_ends_are_published(attempts: u32, reason: UnloadReason)
    ensures
        ({
            let s = Supervision::Running { attempts };
            let unloaded = supervised(s, SuperviseEvent::Exit(RunExit::Unloaded { reason }));
            let rejected = supervised(s, SuperviseEvent::Exit(RunExit::BudgetRejected));
            let stopped = supervised(s, SuperviseEvent::Exit(RunExit::Shutdown));
            &&& unloaded.0 is Idle && unloaded.1.publish == Some(WorkerStatus::Unloaded { reason })
            &&& rejected.0 is Idle && rejected.1.publish == Some(
                WorkerStatus::Unloaded { reason: UnloadReason::OverBudget },
            )
            &&& stopped.0 is Stopped && stopped.1.publish == Some(WorkerStatus::Stopped)
            &&& !unloaded.1.crashed && !rejected.1.crashed && !stopped.1.crashed
        }),
{
}

/// A shutdown stops a model that is not running at once, whatever it waits for, and
/// an unload takes back a restart that is waited for.
pub proof fn law_waits_can_be_given_up(s: Supervision, reason: UnloadReason)
    requires
        !(s is Running),
    ensures
        supervised(s, SuperviseEvent::Shutdown).0 is Stopped,
        supervised(s, SuperviseEvent::CommandsClosed).0 is Stopped,
        s is BackingOff ==> {
            let (next, action) = supervised(
                s,
                SuperviseEvent::Command(Command::Unload { reason }),
            );
            next is Idle && action.ack && action.publish == Some(WorkerStatus::Unloaded { reason })
        },
{
}

/// A load is projected to take its weights on disk and 64 MiB on top, the draft's
/// weights with them where there is a draft; a model without weights on disk is not
/// priced.
pub proof fn law_projection_is_weights_and_margin(entry: ModelEntry, weights: Weights)
    ensures
        entry.draft_path is None && weights.target > 0 ==> projection(entry, weights)
            == weights.target + 64 * 1024 * 1024,
        entry.draft_path is Some && weights.target + weights.draft > 0 ==> projection(
            entry,
            weights,
        ) == weights.target + weights.draft + 64 * 1024 * 1024,
        weights.target == 0 && (entry.draft_path is None || weights.draft == 0) ==> projection(
            entry,
            weights,
        ) == 0,
{
}

/// A pool's cost is what the worker reports for it; a worker that reports none is
/// taken by its blocks.
pub proof fn law_reported_pool_cost_wins(info: WorkerInfo)
    ensures
        info.kv_pool_commitment_bytes > 0 ==> commitment(info) == info.kv_pool_commitment_bytes,
        info.kv_pool_commitment_bytes == 0 && info.kv_bytes_per_block * info.kv_pool_blocks
            <= u64::MAX ==> commitment(info) == info.kv_bytes_per_block * info.kv_pool_blocks,
        commitment(info) <= u64::MAX,
{
}

/// A heartbeat replaces what the model is charged by what was measured, and records
/// how much of its pool is there.
pub proof fn law_heartbeats_replace_the_charge(l: Ledger, id: Seq<char>, report: MemoryReport)
    requires
        l.ids_distinct(),
        l.has(id),
        lifecycle::footprint(report) <= u64::MAX,
    ensures
        after_memory(l, id, Some(report)).slot(id).usage_bytes == lifecycle::footprint(report),
        after_memory(l, id, Some(report)).slot(id).pool_materialized_bytes
            == report.kv_pool_allocated_bytes,
        after_memory(l, id, Some(report)).slot(id).status == l.slot(id).status,
        after_memory(l, id, Some(report)).slot(id).last_used_ms == l.slot(id).last_used_ms,
        after_memory(l, id, Some(report)).slot(id).pool_reserved_bytes <= l.slot(
            id,
        ).pool_reserved_bytes,
        after_memory(l, id, None) == l,
        uncovered_by(l, id, Some(report)) == l.uncovered(id, report.kv_pool_allocated_bytes),
        uncovered_by(l, id, None) == 0,
{
    let bytes = lifecycle::footprint(report) as u64;
    lifecycle::lemma_usage(l, id, bytes);
    lifecycle::lemma_materialized(l.after_usage(id, bytes), id, report.kv_pool_allocated_bytes);
}

/// A load has room if, and only if, it fits the budget on top of everything that is
/// charged: its projection and the pool that the model was known to take.
pub proof fn law_loads_are_priced_with_their_pool(run: WorkerRun, l: Ledger)
    requires
        l.budget_bytes < u64::MAX,
        l.has(run.model@),
    ensures
        run.fits(l) <==> l.used() + l.reserved() + run.projected_bytes + l.slot(
            run.model@,
        ).known_pool_commitment_bytes <= l.budget_bytes,
{
    lifecycle::lemma_charges(l);
}

/// A load with room is started, or the machine is asked first where its memory is
/// watched. A load without room evicts a model that serves, is not pinned, is not
/// itself and is out of its lease, the one used least recently; it is rejected only
/// where there is no such model.
pub proof fn law_room_is_made_by_the_least_recently_used(
    run: WorkerRun,
    l: Ledger,
    now_ms: u64,
    after: WorkerRun,
    l2: Ledger,
    r: RunAction,
    j: int,
)
    requires
        run.secured(l, now_ms, after, l2, r),
        l.ids_distinct(),
        0 <= j < l.slots.len(),
        l.slots[j].id@ != run.model@,
        !l.slots[j].pinned,
        l.slots[j].status is Ready,
        l.slots[j].usage_bytes > 0,
        l.slots[j].ttl_seconds is Some ==> l.slots[j].last_used_ms + l.slots[j].ttl_seconds->0
            * 1_000 <= now_ms,
    ensures
        run.fits(l) && l.min_available_bytes == 0 ==> r is Spawn,
        run.fits(l) && l.min_available_bytes > 0 ==> r is Probe && l2 == l,
        !run.fits(l) ==> r is Evict && l2 == l && l.slot(r->Evict_0@).last_used_ms
            <= l.slots[j].last_used_ms,
{
}

/// A victim is a model that is loaded and serving, not pinned, not the one that
/// loads, and not inside its lease.
pub proof fn law_victims_are_out_of_their_lease(
    run: WorkerRun,
    l: Ledger,
    now_ms: u64,
    after: WorkerRun,
    l2: Ledger,
    victim: String,
)
    requires
        run.secured(l, now_ms, after, l2, RunAction::Evict(victim)),
        l.ids_distinct(),
    ensures
        !run.fits(l),
        victim@ != run.model@,
        l.has(victim@),
        !l.slot(victim@).pinned,
        l.slot(victim@).status is Ready,
        l.slot(victim@).usage_bytes > 0,
        match l.slot(victim@).ttl_seconds {
            Some(t) => t > 0 ==> l.slot(victim@).last_used_ms + t * 1_000 <= now_ms,
            None => true,
        },
{
}

/// An eviction that is not confirmed rejects the load and changes no charge; one
/// that is confirmed is followed by another look at the budget.
pub proof fn law_unconfirmed_evictions_reject_the_load(
    run: WorkerRun,
    l: Ledger,
    shutting_down: bool,
    now_ms: u64,
    after: WorkerRun,
    l2: Ledger,
    r: RunAction,
)
    ensures
        run.resumed(l, false, shutting_down, now_ms, after, l2, r) ==> l2 == l && r is Finish
            && after.phase is Done && after.phase->Done_exit is BudgetRejected
            && after.rejected == Some(AdmitConstraint::Budget),
        run.resumed(l, true, true, now_ms, after, l2, r) ==> l2 == l && r is Finish
            && after.phase is Done && after.phase->Done_exit is Shutdown,
        run.resumed(l, true, false, now_ms, after, l2, r) ==> run.secured(
            l,
            now_ms,
            after,
            l2,
            r,
        ),
{
}

/// A load goes ahead after a reading if, and only if, the kernel is at ease and the
/// load leaves the floor free; without a reading it goes ahead. What goes ahead is
/// charged its price, what does not is charged nothing.
pub proof fn law_machine_has_the_last_word(
    run: WorkerRun,
    l: Ledger,
    probe: Option<SystemMemory>,
    now_ms: u64,
)
    requires
        l.ids_distinct(),
        l.has(run.model@),
        run.price(l) > 0,
        l.min_available_bytes > 0,
    ensures
        run.probed(l, probe, now_ms).2 is Spawn <==> (probe is None || (probe->0.pressure_level < 2
            && run.price(l) + l.reserved() + l.min_available_bytes <= probe->0.available_bytes)),
        run.probed(l, probe, now_ms).2 is Spawn ==> run.probed(l, probe, now_ms).1.slot(
            run.model@,
        ).usage_bytes == run.price(l) && run.probed(l, probe, now_ms).0.phase is Spawning,
        !(run.probed(l, probe, now_ms).2 is Spawn) ==> {
            &&& run.probed(l, probe, now_ms).2 is Finish
            &&& run.probed(l, probe, now_ms).1.slots == l.slots
            &&& run.probed(l, probe, now_ms).0.phase == (Phase::Done {
                exit: RunExit::BudgetRejected,
                answer: false,
            })
            &&& run.probed(l, probe, now_ms).0.rejected is Some
        },
        probe is Some ==> run.probed(l, probe, now_ms).1.system == probe && run.probed(
            l,
            probe,
            now_ms,
        ).1.probed_at_ms == now_ms,
{
    lifecycle::lemma_charges(l);
    let seen = WorkerRun::informed(l, probe, now_ms);
    assert(seen.slots == l.slots);
    lifecycle::lemma_usage(seen, run.model@, run.price(l) as u64);
    if probe is Some {
        lifecycle::law_loads_leave_the_floor_free(l, probe->0, run.price(l) as u64);
    }
}

/// A process that does not start counts as a crash and gives back what the load was
/// charged.
pub proof fn law_failed_starts_give_memory_back(run: WorkerRun, l: Ledger, now_ms: u64)
    requires
        l.ids_distinct(),
        l.has(run.model@),
    ensures
        run.launched(l, true, now_ms).0.phase == (Phase::Loading { since_ms: now_ms }),
        run.launched(l, true, now_ms).1 == l,
        run.launched(l, false, now_ms).2 is Finish,
        run.launched(l, false, now_ms).0.phase == (Phase::Done {
            exit: RunExit::Crashed { ready_for_ms: None },
            answer: false,
        }),
        run.launched(l, false, now_ms).1.slot(run.model@).usage_bytes == 0,
{
    lifecycle::law_clearing_releases_every_charge(l, run.model@);
}

/// A worker that loads is given ten minutes and no more, one that reports itself
/// unhealthy no time, and one that is ready is asked who it is.
pub proof fn law_loading_workers_are_given_ten_minutes(
    run: WorkerRun,
    health: Option<HealthReport>,
    now_ms: u64,
    since_ms: u64,
)
    requires
        run.phase == (Phase::Loading { since_ms }),
        since_ms <= now_ms,
    ensures
        ({
            let (after, r) = run.load_polled(health, now_ms);
            let late = now_ms - since_ms > 600_000;
            let state = health->0.state;
            &&& r is Kill <==> late || (health is Some && state is Unhealthy)
            &&& r is Kill ==> after.phase == (Phase::Reaping {
                exit: RunExit::Crashed { ready_for_ms: None },
                answer: false,
            })
            &&& r is FetchInfo <==> !late && health is Some && state is Ready
            &&& r is FetchInfo ==> after.phase == (Phase::Identifying { ready_at_ms: now_ms })
            &&& r is Kill || r is FetchInfo || (r is Wait && after == run)
        }),
{
}

/// A worker that is ready has its pool's cost remembered for the next load, and
/// where the load was priced with a pool, that pool is covered in full.
pub proof fn law_ready_workers_have_their_pool_covered(
    run: WorkerRun,
    l: Ledger,
    info: WorkerInfo,
)
    requires
        l.ids_distinct(),
        l.has(run.model@),
        commitment(info) > 0,
    ensures
        run.identified(l, Some(info)).known_commitment(run.model@) == commitment(info),
        run.priced_pool ==> run.identified(l, Some(info)).growth(run.model@) == 0,
        !run.priced_pool ==> run.identified(l, Some(info)).charged() == l.charged(),
        !run.priced_pool ==> run.identified(l, None) == l,
{
    let bytes = commitment(info) as u64;
    lifecycle::lemma_commitment(l, run.model@, bytes);
    lifecycle::lemma_reserve_room(l.after_commitment(run.model@, bytes), run.model@);
}

/// A worker that was measured is ready and counts as used just now; a measurement
/// replaces the projection, and without one the projection stays.
pub proof fn law_measured_workers_serve(
    run: WorkerRun,
    l: Ledger,
    health: Option<HealthReport>,
    now_ms: u64,
    ready_at_ms: u64,
)
    requires
        l.ids_distinct(),
        l.has(run.model@),
        run.phase == (Phase::Measuring { ready_at_ms }),
        health is Some ==> health->0.fits(),
    ensures
        ({
            let (after, l2) = run.measured(l, health, now_ms);
            &&& l2.slot(run.model@).status is Ready
            &&& l2.slot(run.model@).last_used_ms == now_ms
            &&& l2.slot(run.model@).usage_bytes == (if health is Some && health->0.memory is Some {
                lifecycle::footprint(health->0.memory->0)
            } else {
                l.slot(run.model@).usage_bytes as int
            })
            &&& after.phase == (Phase::Serving {
                ready_at_ms,
                last_ok_ms: now_ms,
                stats_supported: true,
            })
        }),
{
    let id = run.model@;
    let seen = match health {
        Some(h) => after_memory(l, id, h.memory),
        None => l,
    };
    if health is Some && health->0.memory is Some {
        law_heartbeats_replace_the_charge(l, id, health->0.memory->0);
        lemma_after_memory(l, id, health->0.memory);
    }
    lifecycle::lemma_touch(seen, id, now_ms);
    lifecycle::lemma_status(seen.after_touch(id, now_ms), id, WorkerStatus::Ready);
}

proof fn lemma_after_memory(l: Ledger, id: Seq<char>, memory: Option<MemoryReport>)
    requires
        l.ids_distinct(),
        l.has(id),
    ensures
        after_memory(l, id, memory).ids_distinct(),
        after_memory(l, id, memory).has(id),
        after_memory(l, id, memory).slot(id).last_used_ms == l.slot(id).last_used_ms,
        after_memory(l, id, memory).slot(id).status == l.slot(id).status,
{
    if let Some(report) = memory {
        let bytes = lifecycle::footprint(report) as u64;
        lifecycle::lemma_usage(l, id, bytes);
        lifecycle::lemma_materialized(
            l.after_usage(id, bytes),
            id,
            report.kv_pool_allocated_bytes,
        );
    }
}

/// A load of a model that serves changes nothing; an unload drains it for the reason
/// given, and is answered in the end.
pub proof fn law_serving_workers_obey_unloads(
    run: WorkerRun,
    l: Ledger,
    reason: UnloadReason,
    now_ms: u64,
)
    requires
        l.ids_distinct(),
        l.has(run.model@),
    ensures
        run.ordered(l, Command::Load, now_ms) == (run, l, RunAction::Wait),
        ({
            let (after, l2, r) = run.ordered(l, Command::Unload { reason }, now_ms);
            &&& r is Drain
            &&& after.phase == (Phase::Draining { reason, answer: true, since_ms: now_ms })
            &&& l2.slot(run.model@).status is Draining
            &&& l2.charged() == l.charged()
        }),
{
    lifecycle::lemma_status(l, run.model@, WorkerStatus::Draining);
}

/// Three seconds without an answer are borne and no more, and a worker that says it
/// is unhealthy is given up at once; a crash says how long the worker had served.
pub proof fn law_silent_workers_are_recycled(
    run: WorkerRun,
    l: Ledger,
    health: Option<HealthReport>,
    now_ms: u64,
    ready_at_ms: u64,
    last_ok_ms: u64,
    stats_supported: bool,
)
    requires
        run.phase == (Phase::Serving { ready_at_ms, last_ok_ms, stats_supported }),
        ready_at_ms <= last_ok_ms <= now_ms,
    ensures
        ({
            let (after, l2, r) = run.polled(l, health, now_ms);
            &&& r is Kill <==> (health is None && now_ms - last_ok_ms > 3_000) || (health is Some
                && health->0.state is Unhealthy)
            &&& r is Kill ==> l2 == l && after.phase == (Phase::Reaping {
                exit: RunExit::Crashed { ready_for_ms: Some((now_ms - ready_at_ms) as u64) },
                answer: false,
            })
            &&& health is None && now_ms - last_ok_ms <= 3_000 ==> r is Wait && after == run && l2
                == l
            &&& run.crashed(now_ms).phase == (Phase::Reaping {
                exit: RunExit::Crashed { ready_for_ms: Some((now_ms - ready_at_ms) as u64) },
                answer: false,
            })
        }),
{
}

/// A worker that serves is unloaded for being idle if, and only if, it has a time to
/// live, has nothing in flight, and that many seconds have passed since its last use.
/// Work in flight is use.
pub proof fn law_idle_workers_are_unloaded(
    run: WorkerRun,
    l: Ledger,
    health: HealthReport,
    now_ms: u64,
    ready_at_ms: u64,
    last_ok_ms: u64,
    stats_supported: bool,
)
    requires
        l.ids_distinct(),
        l.has(run.model@),
        run.phase == (Phase::Serving { ready_at_ms, last_ok_ms, stats_supported }),
        !(health.state is Unhealthy),
        l.slot(run.model@).last_used_ms <= now_ms,
    ensures
        ({
            let (after, l2, r) = run.polled(l, Some(health), now_ms);
            let busy = health.requests_running > 0 || health.requests_waiting > 0;
            let used = l.slot(run.model@).last_used_ms;
            let over = run.ttl_seconds is Some && used + run.ttl_seconds->0 * 1_000 <= now_ms;
            &&& r is Drain <==> !busy && over
            &&& r is Drain ==> l2.slot(run.model@).status is Draining && after.phase == (
            Phase::Draining {
                reason: UnloadReason::IdleTtl,
                answer: false,
                since_ms: now_ms,
            })
            &&& busy ==> l2.slot(run.model@).last_used_ms == now_ms
            &&& !busy ==> l2.slot(run.model@).last_used_ms == used
            &&& !(r is Drain) ==> {
                &&& after.phase == (Phase::Serving {
                    ready_at_ms,
                    last_ok_ms: now_ms,
                    stats_supported,
                })
                &&& l2.slot(run.model@).status == l.slot(run.model@).status
                &&& r is SampleStats <==> stats_supported
            }
        }),
{
    let id = run.model@;
    lemma_after_memory(l, id, health.memory);
    let seen = after_memory(l, id, health.memory);
    lifecycle::lemma_touch(seen, id, now_ms);
    lifecycle::lemma_status(seen, id, WorkerStatus::Draining);
}

/// A worker that drains is left alone while requests remain, for half a minute at
/// most and not through a shutdown; what is unloaded keeps its reason and its answer
/// through every step down to the end.
pub proof fn law_draining_keeps_reason_and_answer(
    run: WorkerRun,
    l: Ledger,
    remaining: Option<u64>,
    shutting_down: bool,
    now_ms: u64,
    reason: UnloadReason,
    answer: bool,
    since_ms: u64,
)
    requires
        run.phase == (Phase::Draining { reason, answer, since_ms }),
        since_ms <= now_ms,
        l.ids_distinct(),
        l.has(run.model@),
    ensures
        ({
            let (after, r) = run.drained(remaining, shutting_down, now_ms);
            &&& r is PollDrain <==> remaining is Some && remaining->0 > 0 && now_ms - since_ms
                < 30_000 && !shutting_down
            &&& r is PollDrain ==> after == run
            &&& !(r is PollDrain) ==> {
                let swept = after.swept();
                let (done, l2) = swept.reaped(l);
                &&& r is Terminate && after.phase is Terminating
                &&& swept.phase is Reaping
                &&& done.phase == (Phase::Done { exit: RunExit::Unloaded { reason }, answer })
                &&& l2.slot(run.model@).usage_bytes == 0
                &&& l2.charged() == l.charged() - l.slot(run.model@).usage_bytes - l.slot(
                    run.model@,
                ).pool_reserved_bytes
            }
        }),
{
    lifecycle::law_clearing_releases_every_charge(l, run.model@);
}

/// Shutting down ends a run that waits at once and kills a worker that is there.
pub proof fn law_shutdown_leaves_no_worker(run: WorkerRun)
    ensures
        run.phase is AwaitPermit ==> run.shut_down().1 is Finish && run.shut_down().0.phase == (
        Phase::Done { exit: RunExit::Shutdown, answer: false }),
        !(run.phase is AwaitPermit) ==> run.shut_down().1 is Kill && run.shut_down().0.phase == (
        Phase::Reaping { exit: RunExit::Shutdown, answer: false }),
{
}

/// The load permit is held while a worker is brought up, and at no other time: one
/// load at a time.
pub proof fn law_one_load_at_a_time(run: WorkerRun)
    ensures
        run.phase is AwaitPermit || run.phase is Serving || run.phase is Draining || run.phase
            is Terminating || run.phase is Reaping || run.phase is Done
            <==> !run.spec_holds_permit(),
{
}

/// A gateway that starts has one slot per model, in order, with the model's own pin
/// and lease, and nothing charged.
pub proof fn law_gateways_start_empty(l: Ledger, entries: Seq<ModelEntry>, i: int)
    requires
        fresh_ledger(l, entries),
        0 <= i < entries.len(),
    ensures
        l.slots.len() == entries.len(),
        l.slots[i].id@ == entries[i].id@,
        l.slots[i].pinned == entries[i].config.pinned,
        l.slots[i].status is Starting,
        entries[i].config.ttl_seconds == 0 ==> l.slots[i].ttl_seconds is None,
        entries[i].config.ttl_seconds > 0 ==> l.slots[i].ttl_seconds == Some(
            entries[i].config.ttl_seconds,
        ),
        l.charged() == 0,
{
    lifecycle::lemma_nothing_charged(l);
}

/// An explicit budget is the budget; without one it is the share of the machine.
pub proof fn law_explicit_budget_wins(config: KilnConfig, share_bytes: u64)
    ensures
        config.memory.budget_bytes is Some ==> budget_of(config, share_bytes)
            == config.memory.budget_bytes->0,
        config.memory.budget_bytes is None ==> budget_of(config, share_bytes) == share_bytes,
{
}

/// A model that was just registered has used nothing, committed nothing and learnt nothing yet.
pub proof fn law_models_start_without_a_past(l: Ledger, entries: Seq<ModelEntry>, i: int)
    requires
        fresh_ledger(l, entries),
        0 <= i < entries.len(),
    ensures
        l.slots[i].usage_bytes == 0,
        l.slots[i].last_used_ms == 0,
        l.slots[i].pool_commitment_bytes == 0,
        l.slots[i].pool_materialized_bytes == 0,
        l.slots[i].pool_reserved_bytes == 0,
        l.slots[i].known_pool_commitment_bytes == 0,
{
}

/// A model repeats an id where one before it has the same.
pub proof fn law_repeated_ids_are_found(models: Seq<crate::config::ModelConfig>, i: int, j: int)
    requires
        0 <= j < i < models.len(),
    ensures
        models[j].id@ == models[i].id@ ==> id_repeats(models, i),
        (forall|k: int| 0 <= k < i ==> (#[trigger] models[k]).id@ != models[i].id@) ==> !id_repeats(
            models,
            i,
        ),
        !id_repeats(models, 0),
{
}

} // verus!
