use kiln_gateway::lifecycle::AdmitConstraint;
use kiln_gateway::lifecycle::Command;
use kiln_gateway::lifecycle::Lifecycle;
use kiln_gateway::lifecycle::MemoryDenial;
use kiln_gateway::lifecycle::MemoryReport;
use kiln_gateway::lifecycle::ModelFile;
use kiln_gateway::lifecycle::footprint_bytes;
use kiln_gateway::lifecycle::footprint_fits;
use kiln_gateway::lifecycle::machine_budget;
use kiln_gateway::lifecycle::weights_bytes;
use kiln_gateway::lifecycle::weights_fit;
use kiln_gateway::metrics::Metrics;
use kiln_gateway::status::UnloadReason;
use kiln_gateway::status::WorkerStatus;
use kiln_gateway::sysmem::SystemMemory;

const HOUR_MS: u64 = 3_600_000;

const NOTHING: MemoryReport = MemoryReport {
    weights_bytes: 0,
    kv_pool_allocated_bytes: 0,
    kv_pool_used_bytes: 0,
    mlx_active_bytes: 0,
    mlx_cache_bytes: 0,
    process_rss_bytes: 0,
};

/// Ready models over a budget of 1000 bytes, with the system check off.
fn lifecycle_with(slots: &[(&str, bool, u64, u64, u64)]) -> Lifecycle {
    let mut lifecycle = Lifecycle::new(1000, None, 0);
    for (id, pinned, ttl, usage, last_used_ms) in slots {
        assert!(lifecycle.add_slot(id, WorkerStatus::Ready, *pinned, *ttl));
        lifecycle.record_usage(id, *usage);
        lifecycle.touch(id, *last_used_ms);
    }
    lifecycle
}

fn denied(needed_bytes: u64, headroom_bytes: u64) -> Result<(), MemoryDenial> {
    Err(MemoryDenial {
        needed_bytes,
        headroom_bytes,
        constraint: AdmitConstraint::Budget,
    })
}

fn reading(available_bytes: u64, swap_used_bytes: u64, pressure_level: u32) -> SystemMemory {
    SystemMemory {
        available_bytes,
        swap_used_bytes,
        pressure_level,
    }
}

/// What the metrics show of a model's uncovered bytes.
fn uncovered_total(metrics: &Metrics, model: &str) -> u64 {
    let text = metrics.encode().expect("encode");
    let name = format!("kiln_admission_uncovered_bytes_total{{model=\"{model}\"}} ");
    match text.lines().find_map(|line| line.strip_prefix(name.as_str())) {
        Some(n) => n.parse().expect("a count"),
        None => 0,
    }
}

#[test]
fn footprint_counts_every_mlx_byte_once() {
    // Active covers weights + pool: footprint = active + cache.
    let report = MemoryReport {
        weights_bytes: 700,
        kv_pool_allocated_bytes: 500,
        mlx_active_bytes: 1300,
        mlx_cache_bytes: 100,
        ..NOTHING
    };
    assert_eq!(footprint_bytes(&report), 1400);
    // Active unavailable (reported 0): weights + pool are the floor.
    let report = MemoryReport {
        weights_bytes: 700,
        kv_pool_allocated_bytes: 500,
        mlx_active_bytes: 0,
        mlx_cache_bytes: 100,
        ..NOTHING
    };
    assert_eq!(footprint_bytes(&report), 1300);
    assert!(footprint_fits(&report));
    assert!(!footprint_fits(&MemoryReport {
        weights_bytes: u64::MAX,
        kv_pool_allocated_bytes: 1,
        ..NOTHING
    }));
}

fn file(name: &str, len: u64) -> ModelFile {
    ModelFile {
        name: name.to_string(),
        len,
    }
}

#[test]
fn weights_on_disk_sums_only_safetensors() {
    let files = vec![
        file("model.safetensors", 128),
        file("model-2.safetensors", 64),
        file("config.json", 2),
    ];
    assert!(weights_fit(&files));
    assert_eq!(weights_bytes(&files), 192);
    assert_eq!(weights_bytes(&Vec::new()), 0);
    assert!(!weights_fit(&vec![
        file("a.safetensors", u64::MAX),
        file("b.safetensors", 1)
    ]));
}

#[test]
fn victim_is_lru_among_unpinned_unleased_loaded_models() {
    let lifecycle = lifecycle_with(&[
        // Pinned: never a victim, even as the machine-wide LRU.
        ("pinned", true, 0, 400, 0),
        // Unloaded (no bytes charged): nothing to evict.
        ("unloaded", false, 0, 0, 10),
        // Inside its keep-alive lease (used just now, ten minutes).
        ("leased", false, 600, 400, HOUR_MS),
        // Lease expired (used at the start, one second): fair game.
        ("expired", false, 1, 400, 100),
        // Plain unpinned models; "old" is least recently used.
        ("old", false, 0, 400, 200),
        ("new", false, 0, 400, HOUR_MS),
    ]);
    // "expired" (100ms) beats "old" (200ms) on the LRU clock.
    assert_eq!(
        lifecycle.pick_victim("loader", HOUR_MS).as_deref(),
        Some("expired")
    );
    // The asking model never evicts itself.
    assert_eq!(
        lifecycle.pick_victim("expired", HOUR_MS).as_deref(),
        Some("old")
    );

    let lifecycle = lifecycle_with(&[
        ("pinned", true, 0, 400, 0),
        ("leased", false, 600, 400, HOUR_MS),
    ]);
    // Only pinned/leased candidates left: the load must be rejected.
    assert_eq!(lifecycle.pick_victim("loader", HOUR_MS), None);
}

#[test]
fn runtime_pin_toggle_changes_eviction_candidacy() {
    let mut lifecycle = lifecycle_with(&[("m", false, 0, 400, 0)]);
    assert_eq!(lifecycle.pinned("m"), Some(false));
    assert_eq!(lifecycle.pick_victim("loader", HOUR_MS).as_deref(), Some("m"));
    assert!(lifecycle.set_pinned("m", true));
    assert_eq!(lifecycle.pinned("m"), Some(true));
    assert_eq!(lifecycle.pick_victim("loader", HOUR_MS), None);
    assert!(lifecycle.set_pinned("m", false));
    assert_eq!(lifecycle.pick_victim("loader", HOUR_MS).as_deref(), Some("m"));
    // Unknown ids are reported, not silently absorbed.
    assert!(!lifecycle.set_pinned("ghost", true));
    assert_eq!(lifecycle.pinned("ghost"), None);
    assert_eq!(lifecycle.model_usage_bytes("m"), 400);
    assert_eq!(lifecycle.model_usage_bytes("ghost"), 0);
}

#[test]
fn victim_must_be_ready() {
    let mut lifecycle = lifecycle_with(&[("draining", false, 0, 400, 0)]);
    assert_eq!(
        lifecycle.pick_victim("loader", HOUR_MS).as_deref(),
        Some("draining")
    );
    lifecycle.set_status("draining", WorkerStatus::Draining);
    assert_eq!(lifecycle.pick_victim("loader", HOUR_MS), None);
}

#[test]
fn admit_request_gates_on_projected_pool_growth() {
    // One loaded worker charged 700 of a 1000-byte budget.
    let mut lifecycle = lifecycle_with(&[("m", false, 0, 700, 0)]);
    let mut metrics = Metrics::new().expect("metrics");

    // No pool geometry recorded: never held up.
    assert_eq!(lifecycle.admit_request("m"), Ok(()));
    // Unknown model: answered elsewhere.
    assert_eq!(lifecycle.admit_request("ghost"), Ok(()));

    // Pool commitment 500, nothing materialized: growth 500 > headroom 300,
    // rejected with the numbers.
    lifecycle.set_pool_commitment("m", 500);
    assert_eq!(lifecycle.admit_request("m"), denied(500, 300));

    // Growth within headroom passes and is reserved: 250 already materialized
    // leaves 250 to grow against 300 free.
    metrics.record_uncovered("m", lifecycle.record_pool_materialized("m", 250));
    assert_eq!(lifecycle.admit_request("m"), Ok(()));
    assert_eq!(lifecycle.reserved_bytes(), 250);

    // Fully materialized: the reservation reconciles away and zero growth
    // always passes, even if the machine is over budget.
    metrics.record_uncovered("m", lifecycle.record_pool_materialized("m", 500));
    assert_eq!(lifecycle.reserved_bytes(), 0);
    lifecycle.record_usage("m", 1200);
    assert_eq!(lifecycle.admit_request("m"), Ok(()));

    // A heartbeat total exceeding the commitment means that the projection
    // was incomplete: growth still saturates to zero, but the overflow is
    // alertable. In all: the 250 materialized with no admission covering it
    // and this 400 overflow.
    metrics.record_uncovered("m", lifecycle.record_pool_materialized("m", 900));
    assert_eq!(lifecycle.admit_request("m"), Ok(()));
    assert_eq!(uncovered_total(&metrics, "m"), 650);

    // Worker gone: projection state clears with the usage.
    lifecycle.record_pool_materialized("m", 0);
    lifecycle.clear_usage("m");
    assert_eq!(lifecycle.admit_request("m"), Ok(()));
}

#[test]
fn admit_request_prices_in_other_models_drift() {
    // "hot" drifted to 600 bytes, "cold" idles at 250 with a 400-byte pool
    // nothing has touched: cold's first request is refused.
    let mut lifecycle = lifecycle_with(&[
        ("hot", false, 0, 600, 0),
        ("cold", false, 0, 250, 0),
    ]);
    lifecycle.set_pool_commitment("cold", 400);
    assert_eq!(lifecycle.admit_request("cold"), denied(400, 150));
    // The hot model unloads: headroom recovers, the same request passes.
    lifecycle.clear_usage("hot");
    assert_eq!(lifecycle.admit_request("cold"), Ok(()));
}

#[test]
fn concurrent_admissions_cannot_jointly_overshoot() {
    // Two cold models, usage 250+250 of a 1000 budget, commitments 400 each.
    // The first admission's reservation is visible to the second.
    let mut lifecycle = lifecycle_with(&[("a", false, 0, 250, 0), ("b", false, 0, 250, 0)]);
    lifecycle.set_pool_commitment("a", 400);
    lifecycle.set_pool_commitment("b", 400);
    assert_eq!(lifecycle.admit_request("a"), Ok(()));
    assert_eq!(lifecycle.reserved_bytes(), 400);
    assert_eq!(lifecycle.charged_bytes(), 900);
    assert_eq!(lifecycle.admit_request("b"), denied(400, 100));
    // A refusal reserves nothing.
    assert_eq!(lifecycle.reserved_bytes(), 400);
    // A second request on the same still-cold pool rides the outstanding
    // reservation: admitted, no double charge.
    assert_eq!(lifecycle.admit_request("a"), Ok(()));
    assert_eq!(lifecycle.reserved_bytes(), 400);
}

#[test]
fn heartbeats_reconcile_reservations() {
    let mut lifecycle = lifecycle_with(&[("m", false, 0, 300, 0)]);
    lifecycle.set_pool_commitment("m", 400);
    assert_eq!(lifecycle.admit_request("m"), Ok(()));
    assert_eq!(lifecycle.reserved_bytes(), 400);
    assert_eq!(lifecycle.charged_bytes(), 700);

    // Partial materialization: confirmed bytes now live in the measured
    // footprint; the reservation shrinks to the outstanding growth.
    let mut metrics = Metrics::new().expect("metrics");
    metrics.record_uncovered("m", lifecycle.record_pool_materialized("m", 150));
    lifecycle.record_usage("m", 450);
    assert_eq!(lifecycle.reserved_bytes(), 250);
    assert_eq!(lifecycle.charged_bytes(), 700);

    // Full materialization releases the reservation entirely.
    metrics.record_uncovered("m", lifecycle.record_pool_materialized("m", 400));
    lifecycle.record_usage("m", 700);
    assert_eq!(lifecycle.reserved_bytes(), 0);
    assert_eq!(lifecycle.charged_bytes(), 700);

    // Every byte was priced before it materialized: nothing alerted.
    assert_eq!(uncovered_total(&metrics, "m"), 0);

    // Worker exit clears usage, projection, and reservation alike.
    lifecycle.clear_usage("m");
    assert_eq!(lifecycle.charged_bytes(), 0);
}

#[test]
fn reload_reserves_pool_room_from_the_remembered_commitment() {
    let mut lifecycle = lifecycle_with(&[("m", false, 0, 300, 0)]);
    // First READY records the commitment; the worker then unloads.
    lifecycle.set_pool_commitment("m", 400);
    assert_eq!(lifecycle.known_pool_commitment_bytes("m"), 400);
    lifecycle.clear_usage("m");
    // Live projection state clears with the worker; the remembered
    // commitment does not.
    assert_eq!(lifecycle.charged_bytes(), 0);
    assert_eq!(lifecycle.known_pool_commitment_bytes("m"), 400);

    // Reload: usage and the fresh commitment are recorded again, and the
    // priced pool room becomes a reservation at READY.
    lifecycle.record_usage("m", 300);
    lifecycle.set_pool_commitment("m", 400);
    lifecycle.reserve_pool_room("m");
    assert_eq!(lifecycle.reserved_bytes(), 400);
    assert_eq!(lifecycle.charged_bytes(), 700);

    // The request that triggered the reload projects zero growth: its room
    // is already reserved.
    lifecycle.record_usage("m", 300);
    assert_eq!(lifecycle.admit_request("m"), Ok(()));
    // Nothing new was reserved, now or by reserving again.
    assert_eq!(lifecycle.reserved_bytes(), 400);
    lifecycle.reserve_pool_room("m");
    assert_eq!(lifecycle.reserved_bytes(), 400);

    // Heartbeats reconcile the seeded reservation; every materialized byte
    // was priced.
    let mut metrics = Metrics::new().expect("metrics");
    metrics.record_uncovered("m", lifecycle.record_pool_materialized("m", 400));
    lifecycle.record_usage("m", 700);
    assert_eq!(lifecycle.reserved_bytes(), 0);
    assert_eq!(lifecycle.charged_bytes(), 700);
    assert_eq!(uncovered_total(&metrics, "m"), 0);

    // Unknown ids are inert on both paths.
    assert_eq!(lifecycle.known_pool_commitment_bytes("ghost"), 0);
    lifecycle.reserve_pool_room("ghost");
    assert_eq!(lifecycle.reserved_bytes(), 0);
}

#[test]
fn uncovered_growth_is_alertable() {
    let mut lifecycle = lifecycle_with(&[("m", false, 0, 300, 0)]);
    lifecycle.set_pool_commitment("m", 400);

    // Pool growth with no covering reservation: alertable, byte-accurate.
    let mut metrics = Metrics::new().expect("metrics");
    metrics.record_uncovered("m", lifecycle.record_pool_materialized("m", 100));
    assert_eq!(uncovered_total(&metrics, "m"), 100);

    // Growth covered by a reservation is silent.
    assert_eq!(lifecycle.admit_request("m"), Ok(()));
    assert_eq!(lifecycle.reserved_bytes(), 300);
    metrics.record_uncovered("m", lifecycle.record_pool_materialized("m", 400));
    assert_eq!(uncovered_total(&metrics, "m"), 100);
    assert_eq!(lifecycle.reserved_bytes(), 0);
}

#[test]
fn load_system_gate_refuses_what_the_machine_cannot_give() {
    let mut lifecycle = lifecycle_with(&[("m", false, 0, 0, 0)]);
    lifecycle.min_available_bytes = 100;
    let plenty = reading(1000, 0, 1);

    // Fits: 800 needed + 100 floor <= 1000 available.
    assert_eq!(lifecycle.system_denial(plenty, 800), None);
    // The floor is enforced: 950 would leave only 50 of the 100.
    assert_eq!(
        lifecycle
            .system_denial(plenty, 950)
            .map(|denial| denial.constraint),
        Some(AdmitConstraint::SystemAvailability)
    );
    // Outstanding reservations shrink what availability can promise.
    lifecycle.set_pool_commitment("m", 300);
    assert_eq!(lifecycle.admit_request("m"), Ok(()));
    assert_eq!(lifecycle.reserved_bytes(), 300);
    assert_eq!(
        lifecycle
            .system_denial(plenty, 700)
            .map(|denial| denial.constraint),
        Some(AdmitConstraint::SystemAvailability)
    );
    assert_eq!(lifecycle.system_denial(plenty, 600), None);

    // The kernel already reporting pressure refuses outright.
    let pressured = reading(1000, 4_400_000_000, 2);
    let denial = lifecycle
        .system_denial(pressured, 1)
        .expect("pressure refuses even trivial admissions");
    assert_eq!(denial.constraint, AdmitConstraint::SystemPressure);
    assert_eq!(denial.swap_used_bytes, 4_400_000_000);
    assert!(lifecycle
        .admit_load_system(1, Some(pressured), 5)
        .is_err());
    assert_eq!(lifecycle.system_memory(), Some(pressured));

    // Off (no floor): budget-only admission.
    lifecycle.min_available_bytes = 0;
    assert!(lifecycle
        .admit_load_system(u64::MAX, Some(pressured), 6)
        .is_ok());
}

#[test]
fn request_admission_is_bounded_by_system_availability() {
    // Budget headroom is generous (1000 budget, 100 used) but the machine has
    // little to give: 500 available against a 300 floor.
    let mut lifecycle = lifecycle_with(&[("m", false, 0, 100, 0)]);
    lifecycle.min_available_bytes = 300;
    lifecycle.store_system_memory(reading(500, 0, 1), 1);
    lifecycle.set_pool_commitment("m", 400);
    // Growth 400 fits the 900 budget headroom but not the 200 the system can
    // give; the denial names the tighter constraint.
    assert_eq!(
        lifecycle.admit_request("m"),
        Err(MemoryDenial {
            needed_bytes: 400,
            headroom_bytes: 200,
            constraint: AdmitConstraint::SystemAvailability,
        })
    );
    // Nothing was reserved by the refusal.
    assert_eq!(lifecycle.reserved_bytes(), 0);

    // The machine recovers: same request passes.
    lifecycle.store_system_memory(reading(800, 0, 1), 2);
    assert_eq!(lifecycle.admit_request("m"), Ok(()));
    assert_eq!(lifecycle.reserved_bytes(), 400);
}

#[test]
fn request_admission_refuses_new_growth_under_os_pressure() {
    let mut lifecycle = lifecycle_with(&[("m", false, 0, 100, 0)]);
    lifecycle.min_available_bytes = 1;
    lifecycle.store_system_memory(reading(10_000, 2_000_000_000, 2), 1);
    lifecycle.set_pool_commitment("m", 400);
    // New pool growth would compound active pressure: refused.
    assert_eq!(
        lifecycle.admit_request("m").map_err(|d| d.constraint),
        Err(AdmitConstraint::SystemPressure)
    );
    // A warm pool (zero growth) keeps serving under pressure.
    lifecycle.record_pool_materialized("m", 400);
    assert_eq!(lifecycle.admit_request("m"), Ok(()));
    // Pressure clears: cold growth admits again.
    lifecycle.set_pool_commitment("m", 600);
    lifecycle.store_system_memory(reading(10_000, 2_000_000_000, 1), 2);
    assert_eq!(lifecycle.admit_request("m"), Ok(()));
}

#[test]
fn missing_snapshot_fails_open_to_budget_only() {
    // On but no reading: the budget arithmetic still governs.
    let mut lifecycle = lifecycle_with(&[("m", false, 0, 100, 0)]);
    lifecycle.min_available_bytes = 1 << 30;
    assert_eq!(lifecycle.system_memory(), None);
    lifecycle.set_pool_commitment("m", 400);
    assert_eq!(lifecycle.admit_request("m"), Ok(()));
}

#[test]
fn explicit_budget_bytes_overrides_the_fraction() {
    let total: u64 = 17_179_869_184;
    let share = (total as f64 * 0.5) as u64;
    let (budget, _) = machine_budget(Some(1234), Some(total), share).expect("explicit budget");
    assert_eq!(budget, 1234);

    let (budget, found) = machine_budget(None, Some(total), share).expect("fraction budget");
    assert_eq!(found, Some(total));
    assert_eq!(budget, (total as f64 * 0.5) as u64);

    assert!(machine_budget(None, None, 0).is_err());
    assert_eq!(machine_budget(Some(9), None, 0), Ok((9, None)));
}

#[test]
fn slots_are_never_overwritten() {
    let mut lifecycle = lifecycle_with(&[("m", false, 0, 400, 0)]);
    assert!(!lifecycle.add_slot("m", WorkerStatus::Starting, true, 9));
    assert_eq!(lifecycle.status("m"), Some(WorkerStatus::Ready));
    assert_eq!(lifecycle.status("ghost"), None);
    assert_eq!(lifecycle.used_bytes(), 400);
    assert!(lifecycle.sums_fit());
    assert_eq!(lifecycle.idle("m", 70), 70);
    assert_eq!(lifecycle.budget_bytes(), 1000);
    assert_eq!(lifecycle.total_bytes(), None);
    assert_eq!(lifecycle.min_available_bytes(), 0);
}

#[test]
fn orders_follow_the_status() {
    let mut lifecycle = lifecycle_with(&[("m", false, 0, 400, 0)]);
    assert_eq!(lifecycle.request_load("m"), None);
    lifecycle.set_status(
        "m",
        WorkerStatus::Unloaded {
            reason: UnloadReason::IdleTtl,
        },
    );
    assert_eq!(lifecycle.request_load("m"), Some(Command::Load));
    assert_eq!(lifecycle.boot_load("m"), Some(Command::Load));
    assert_eq!(
        lifecycle.request_unload("m"),
        Some(Command::Unload {
            reason: UnloadReason::Admin
        })
    );
    assert_eq!(
        lifecycle.evict("m"),
        Some(Command::Unload {
            reason: UnloadReason::Evicted
        })
    );
    assert_eq!(lifecycle.evict("ghost"), None);
    assert_eq!(lifecycle.request_load("ghost"), None);
}

#[test]
fn one_probe_is_in_flight_at_a_time() {
    let mut lifecycle = lifecycle_with(&[]);
    // Off: never probed.
    assert!(!lifecycle.begin_probe(10_000, 1000));
    lifecycle.min_available_bytes = 1;
    assert!(lifecycle.begin_probe(10_000, 1000));
    assert!(!lifecycle.begin_probe(10_000, 1000));
    lifecycle.finish_probe(Some(reading(5, 0, 0)), 10_500);
    assert_eq!(lifecycle.system_memory(), Some(reading(5, 0, 0)));
    // Fresh enough for now, stale a second later.
    assert!(!lifecycle.begin_probe(11_000, 1000));
    assert!(lifecycle.begin_probe(11_500, 1000));
    // A failed probe keeps the last reading.
    lifecycle.finish_probe(None, 11_600);
    assert_eq!(lifecycle.system_memory(), Some(reading(5, 0, 0)));
}

#[test]
fn constraint_labels() {
    assert_eq!(AdmitConstraint::Budget.label(), "budget");
    assert_eq!(AdmitConstraint::SystemAvailability.label(), "system_available");
    assert_eq!(AdmitConstraint::SystemPressure.label(), "system_pressure");
}
