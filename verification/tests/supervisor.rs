use kiln_gateway::config::KilnConfig;
use kiln_gateway::config::ModelConfig;
use kiln_gateway::config::SpeculativeConfig;
use kiln_gateway::config::WorkerKind;
use kiln_gateway::lifecycle::AdmitConstraint;
use kiln_gateway::lifecycle::Command;
use kiln_gateway::lifecycle::Lifecycle;
use kiln_gateway::lifecycle::MemoryReport;
use kiln_gateway::registry::ModelFacts;
use kiln_gateway::status::UnloadReason;
use kiln_gateway::status::WorkerStatus;
use kiln_gateway::supervisor::backoff;
use kiln_gateway::supervisor::load_projection;
use kiln_gateway::supervisor::pool_commitment;
use kiln_gateway::supervisor::settled;
use kiln_gateway::supervisor::spawn_args;
use kiln_gateway::supervisor::start;
use kiln_gateway::supervisor::HealthReport;
use kiln_gateway::supervisor::Phase;
use kiln_gateway::supervisor::RunAction;
use kiln_gateway::supervisor::RunExit;
use kiln_gateway::supervisor::StartError;
use kiln_gateway::supervisor::SuperviseEvent;
use kiln_gateway::supervisor::Supervision;
use kiln_gateway::supervisor::Weights;
use kiln_gateway::supervisor::WorkerInfo;
use kiln_gateway::supervisor::WorkerRun;
use kiln_gateway::supervisor::WorkerState;
use kiln_gateway::supervisor::LOAD_OVERHEAD_MARGIN_BYTES;
use kiln_gateway::sysmem::SystemMemory;

#[test]
fn backoff_grows_and_caps() {
    assert_eq!(backoff(1), 500);
    assert_eq!(backoff(2), 1_000);
    assert_eq!(backoff(3), 2_000);
    assert_eq!(backoff(30), 10_000);
}

const SHORT: SuperviseEvent = SuperviseEvent::Exit(RunExit::Crashed {
    ready_for_ms: Some(1_000),
});

#[test]
fn crash_loops_end_in_failure() {
    let mut s = Supervision::Idle;
    let a = s.supervise(SuperviseEvent::Command(Command::Load));
    assert!(a.start);
    assert_eq!(a.publish, Some(WorkerStatus::Starting));
    for attempt in 1..=3 {
        let a = s.supervise(SHORT);
        assert!(a.crashed);
        assert_eq!(a.publish, Some(WorkerStatus::Restarting { attempt }));
        assert_eq!(a.wait_ms, Some(backoff(attempt)));
        assert!(s.supervise(SuperviseEvent::BackoffElapsed).start);
    }
    let a = s.supervise(SHORT);
    assert_eq!(a.publish, Some(WorkerStatus::Failed));
    assert_eq!(s, Supervision::Failed);
    // It stays dark, and answers unloads.
    assert!(!s.supervise(SuperviseEvent::Command(Command::Load)).start);
    assert!(
        s.supervise(SuperviseEvent::Command(Command::Unload {
            reason: UnloadReason::Admin
        }))
        .ack
    );
    assert_eq!(s, Supervision::Failed);
    s.supervise(SuperviseEvent::Shutdown);
    assert_eq!(s, Supervision::Stopped);
}

#[test]
fn stable_runs_reset_the_crash_count() {
    let mut s = Supervision::Running { attempts: 3 };
    let a = s.supervise(SuperviseEvent::Exit(RunExit::Crashed {
        ready_for_ms: Some(60_000),
    }));
    assert_eq!(s, Supervision::BackingOff { attempts: 1 });
    assert_eq!(a.wait_ms, Some(500));
}

#[test]
fn an_unload_cancels_a_pending_restart() {
    let mut s = Supervision::BackingOff { attempts: 2 };
    let reason = UnloadReason::Admin;
    let a = s.supervise(SuperviseEvent::Command(Command::Unload { reason }));
    assert!(a.ack);
    assert_eq!(a.publish, Some(WorkerStatus::Unloaded { reason }));
    assert_eq!(s, Supervision::Idle);
}

#[test]
fn rejected_loads_park_the_model_over_budget() {
    let mut s = Supervision::Running { attempts: 0 };
    let a = s.supervise(SuperviseEvent::Exit(RunExit::BudgetRejected));
    assert_eq!(
        a.publish,
        Some(WorkerStatus::Unloaded {
            reason: UnloadReason::OverBudget
        })
    );
    assert_eq!(s, Supervision::Idle);
    s.supervise(SuperviseEvent::CommandsClosed);
    assert_eq!(s, Supervision::Stopped);
}

#[test]
fn settled_statuses() {
    assert!(settled(WorkerStatus::Ready));
    assert!(settled(WorkerStatus::Failed));
    assert!(settled(WorkerStatus::Stopped));
    assert!(!settled(WorkerStatus::Starting));
    assert!(!settled(WorkerStatus::Restarting { attempt: 1 }));
    assert!(!settled(WorkerStatus::Draining));
}

fn ledger(budget: u64) -> Lifecycle {
    let mut l = Lifecycle::new(budget, None, 0);
    assert!(l.add_slot("m", WorkerStatus::Starting, false, 0));
    assert!(l.add_slot("other", WorkerStatus::Ready, false, 0));
    l.record_usage("other", 600);
    l
}

fn report(state: WorkerState, running: u32, weights: u64, pool: u64) -> HealthReport {
    HealthReport {
        state,
        requests_running: running,
        requests_waiting: 0,
        memory: Some(MemoryReport {
            weights_bytes: weights,
            kv_pool_allocated_bytes: pool,
            kv_pool_used_bytes: 0,
            mlx_active_bytes: 0,
            mlx_cache_bytes: 0,
            process_rss_bytes: 0,
        }),
    }
}

const INFO: WorkerInfo = WorkerInfo {
    max_context_len: 4096,
    grammar_capable: true,
    kv_bytes_per_block: 10,
    kv_pool_blocks: 5,
    kv_pool_commitment_bytes: 0,
};

#[test]
fn a_run_loads_serves_and_unloads() {
    let mut l = ledger(1000);
    let mut run = WorkerRun::new("m", 300, 10);
    assert!(!run.holds_permit());
    assert_eq!(run.on_permit(&mut l, 0), RunAction::Spawn);
    assert!(run.holds_permit());
    assert_eq!(l.model_usage_bytes("m"), 300);
    assert_eq!(run.on_spawned(&mut l, true, 10), RunAction::Wait);
    assert_eq!(run.on_load_poll(None, 20), RunAction::Wait);
    assert_eq!(
        run.on_load_poll(Some(report(WorkerState::Loading, 0, 0, 0)), 30),
        RunAction::Wait
    );
    assert_eq!(
        run.on_load_poll(Some(report(WorkerState::Ready, 0, 0, 0)), 40),
        RunAction::FetchInfo
    );
    assert_eq!(run.on_info(&mut l, Some(INFO)), RunAction::Measure);
    assert_eq!(l.known_pool_commitment_bytes("m"), 50);
    // The first load was not priced with a pool: nothing is reserved.
    assert_eq!(l.reserved_bytes(), 0);
    assert_eq!(
        run.on_measured(&mut l, Some(report(WorkerState::Ready, 0, 250, 0)), 50),
        RunAction::Serve
    );
    assert!(!run.holds_permit());
    assert_eq!(l.model_usage_bytes("m"), 250);
    assert_eq!(l.status("m"), Some(WorkerStatus::Ready));

    // Busy heartbeats keep it alive; an idle one past the lease unloads it.
    let busy = Some(report(WorkerState::Ready, 1, 250, 0));
    assert_eq!(run.on_health_poll(&mut l, busy, 9_000), RunAction::SampleStats);
    run.on_stats_unimplemented();
    assert_eq!(run.on_health_poll(&mut l, busy, 9_100), RunAction::Wait);
    let idle = Some(report(WorkerState::Ready, 0, 250, 0));
    assert_eq!(run.on_health_poll(&mut l, idle, 19_000), RunAction::Wait);
    assert_eq!(
        run.on_command(&mut l, Command::Load, 19_001),
        RunAction::Wait
    );
    assert_eq!(run.on_health_poll(&mut l, idle, 19_100), RunAction::Drain);
    assert_eq!(l.status("m"), Some(WorkerStatus::Draining));
    assert_eq!(run.on_drain(Some(2), false, 19_200), RunAction::PollDrain);
    assert_eq!(run.on_drain(Some(0), false, 19_300), RunAction::Terminate);
    assert_eq!(run.on_terminated(), RunAction::Kill);
    assert_eq!(run.on_reaped(&mut l), RunAction::Finish);
    assert_eq!(
        run.phase,
        Phase::Done {
            exit: RunExit::Unloaded {
                reason: UnloadReason::IdleTtl
            },
            answer: false,
        }
    );
    assert_eq!(l.model_usage_bytes("m"), 0);

    // The next load is priced with the pool it took, and reserves it.
    let mut run = WorkerRun::new("m", 300, 10);
    assert_eq!(run.on_permit(&mut l, 20_000), RunAction::Spawn);
    assert_eq!(l.model_usage_bytes("m"), 350);
    run.on_spawned(&mut l, true, 20_000);
    run.on_load_poll(Some(report(WorkerState::Ready, 0, 0, 0)), 20_001);
    run.on_info(&mut l, Some(INFO));
    assert_eq!(l.reserved_bytes(), 50);
}

#[test]
fn loads_evict_or_are_rejected() {
    let mut l = ledger(1000);
    let mut run = WorkerRun::new("m", 500, 0);
    assert_eq!(
        run.on_permit(&mut l, 5),
        RunAction::Evict("other".to_string())
    );
    l.clear_usage("other");
    assert_eq!(run.on_evicted(&mut l, true, false, 6), RunAction::Spawn);

    let mut l = ledger(1000);
    let mut run = WorkerRun::new("m", 500, 0);
    run.on_permit(&mut l, 5);
    assert_eq!(run.on_evicted(&mut l, false, false, 6), RunAction::Finish);
    assert_eq!(run.rejected, Some(AdmitConstraint::Budget));

    let mut l = ledger(1000);
    l.set_pinned("other", true);
    let mut run = WorkerRun::new("m", 500, 0);
    assert_eq!(run.on_permit(&mut l, 5), RunAction::Finish);
    assert_eq!(
        run.phase,
        Phase::Done {
            exit: RunExit::BudgetRejected,
            answer: false,
        }
    );
    assert_eq!(l.model_usage_bytes("m"), 0);
}

#[test]
fn loads_face_a_fresh_reading_of_the_machine() {
    let mut l = ledger(1000);
    l.min_available_bytes = 100;
    let mut run = WorkerRun::new("m", 300, 0);
    assert_eq!(run.on_permit(&mut l, 5), RunAction::Probe);
    let tight = SystemMemory {
        available_bytes: 399,
        swap_used_bytes: 0,
        pressure_level: 1,
    };
    assert_eq!(run.on_probed(&mut l, Some(tight), 6), RunAction::Finish);
    assert_eq!(run.rejected, Some(AdmitConstraint::SystemAvailability));

    let mut run = WorkerRun::new("m", 300, 0);
    run.on_permit(&mut l, 7);
    // Without a reading the budget alone decides.
    assert_eq!(run.on_probed(&mut l, None, 8), RunAction::Spawn);
    assert_eq!(l.model_usage_bytes("m"), 300);
    // A process that does not start releases the charge.
    assert_eq!(run.on_spawned(&mut l, false, 9), RunAction::Finish);
    assert_eq!(l.model_usage_bytes("m"), 0);
}

fn serving(l: &mut Lifecycle) -> WorkerRun {
    let mut run = WorkerRun::new("m", 300, 0);
    run.on_permit(l, 0);
    run.on_spawned(l, true, 0);
    run.on_load_poll(Some(report(WorkerState::Ready, 0, 0, 0)), 1_000);
    run.on_info(l, None);
    run.on_measured(l, None, 1_100);
    run
}

fn crashed(ready_for_ms: Option<u64>) -> Phase {
    Phase::Reaping {
        exit: RunExit::Crashed { ready_for_ms },
        answer: false,
    }
}

#[test]
fn silent_and_unhealthy_workers_are_recycled() {
    let mut l = ledger(1000);
    let mut run = serving(&mut l);
    assert_eq!(run.on_health_poll(&mut l, None, 4_100), RunAction::Wait);
    assert_eq!(run.on_health_poll(&mut l, None, 4_101), RunAction::Kill);
    assert_eq!(run.phase, crashed(Some(3_101)));

    let mut run = serving(&mut l);
    let bad = Some(report(WorkerState::Unhealthy, 0, 0, 0));
    assert_eq!(run.on_health_poll(&mut l, bad, 2_000), RunAction::Kill);

    let mut run = serving(&mut l);
    assert_eq!(run.on_child_exit(6_000), RunAction::Kill);
    assert_eq!(run.phase, crashed(Some(5_000)));
    assert_eq!(run.on_reaped(&mut l), RunAction::Finish);
    assert_eq!(l.model_usage_bytes("m"), 0);

    let mut run = WorkerRun::new("m", 300, 0);
    run.on_permit(&mut l, 0);
    run.on_spawned(&mut l, true, 0);
    assert_eq!(run.on_load_poll(None, 600_000), RunAction::Wait);
    assert_eq!(run.on_load_poll(None, 600_001), RunAction::Kill);
    assert_eq!(run.phase, crashed(None));
}

#[test]
fn unloads_are_answered_and_shutdown_ends_runs() {
    let mut l = ledger(1000);
    let mut run = serving(&mut l);
    let reason = UnloadReason::Admin;
    assert_eq!(
        run.on_command(&mut l, Command::Unload { reason }, 2_000),
        RunAction::Drain
    );
    // Requests that remain get until the deadline.
    assert_eq!(run.on_drain(Some(1), false, 31_999), RunAction::PollDrain);
    assert_eq!(run.on_drain(Some(1), false, 32_000), RunAction::Terminate);
    run.on_terminated();
    run.on_reaped(&mut l);
    assert_eq!(
        run.phase,
        Phase::Done {
            exit: RunExit::Unloaded { reason },
            answer: true,
        }
    );

    let mut run = serving(&mut l);
    assert_eq!(run.on_shutdown(), RunAction::Kill);
    let mut run = WorkerRun::new("m", 1, 0);
    assert_eq!(run.on_shutdown(), RunAction::Finish);
    assert_eq!(
        run.phase,
        Phase::Done {
            exit: RunExit::Shutdown,
            answer: false,
        }
    );
}

#[test]
fn commitments_and_projections() {
    assert_eq!(pool_commitment(&INFO), 50);
    assert_eq!(
        pool_commitment(&WorkerInfo {
            kv_pool_commitment_bytes: 7,
            ..INFO
        }),
        7
    );
    assert_eq!(
        pool_commitment(&WorkerInfo {
            kv_bytes_per_block: u64::MAX,
            ..INFO
        }),
        u64::MAX
    );
    assert_eq!(load_projection(0, 0), 0);
    assert_eq!(load_projection(100, 10), 110 + LOAD_OVERHEAD_MARGIN_BYTES);
}

fn facts() -> ModelFacts {
    ModelFacts {
        is_local: true,
        arch: Ok(()),
        tokenizer: Ok(()),
        draft_is_local: true,
        has_template: true,
        channel: Ok(()),
    }
}

fn config() -> KilnConfig {
    let mut config = KilnConfig::default();
    config.models.push(ModelConfig {
        id: "m".to_string(),
        path: "~/models/m".to_string(),
        worker: WorkerKind::Auto,
        pinned: true,
        ttl_seconds: 5,
        speculative: Some(SpeculativeConfig {
            draft: "/d".to_string(),
            gamma: 4,
        }),
    });
    config
}

#[test]
fn start_builds_registry_ledger_and_plans() {
    let config = config();
    let weights = vec![Weights {
        target: 100,
        draft: 20,
    }];
    let (registry, ledger, plans) =
        match start(&config, &vec![facts()], &weights, Some("/h"), 9, Some(64), 51) {
            Ok(x) => x,
            Err(e) => panic!("{}", e.message()),
        };
    assert_eq!(ledger.budget_bytes(), 51);
    assert_eq!(ledger.total_bytes(), Some(64));
    assert_eq!(ledger.status("m"), Some(WorkerStatus::Starting));
    assert_eq!(ledger.pinned("m"), Some(true));
    assert_eq!(plans[0].projected_bytes, 120 + LOAD_OVERHEAD_MARGIN_BYTES);
    assert_eq!(
        plans[0].argv,
        vec![
            "kiln-worker",
            "--ssd-dir",
            "/h/.kiln/cache",
            "--ssd-max-gb",
            "64",
            "--draft-model",
            "/d",
            "--draft-gamma",
            "4"
        ]
    );
    let entry = &registry.entries[0];
    let whole = spawn_args(&plans[0].argv, entry);
    assert_eq!(
        whole[plans[0].argv.len()..],
        [
            "--model".to_string(),
            "/h/models/m".to_string(),
            "--socket".to_string(),
            entry.socket_path.clone(),
            "--model-id".to_string(),
            "m".to_string()
        ]
    );
}

#[test]
fn start_needs_a_budget_and_servable_models() {
    let weights = vec![Weights {
        target: 1,
        draft: 0,
    }];
    match start(&config(), &vec![facts()], &weights, None, 9, None, 0) {
        Err(StartError::Budget(m)) => assert!(m.contains("memory.budget_bytes"), "{m}"),
        _ => panic!("no budget"),
    }
    let mut gone = facts();
    gone.is_local = false;
    match start(&config(), &vec![gone], &weights, None, 9, Some(1), 0) {
        Err(StartError::Registry(e)) => {
            assert!(e.message().contains("'m'"), "{}", e.message())
        }
        _ => panic!("not local"),
    }
}

#[test]
fn start_refuses_two_models_with_one_id() {
    let mut config = config();
    let again = config.models[0].duplicate();
    config.models.push(again);
    let weights = || Weights {
        target: 1,
        draft: 0,
    };
    let all = vec![weights(), weights()];
    match start(&config, &vec![facts(), facts()], &all, None, 9, Some(1), 0) {
        Err(StartError::Registry(e)) => {
            assert_eq!(e.message(), "a model with id 'm' is already registered")
        }
        _ => panic!("supervised twice"),
    }
}
