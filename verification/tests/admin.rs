use kiln_gateway::admin::job_json;
use kiln_gateway::admin::jobs_json;
use kiln_gateway::admin::on_probe;
use kiln_gateway::admin::status_to_api_error;
use kiln_gateway::admin::ChildState;
use kiln_gateway::admin::DownloadBody;
use kiln_gateway::admin::JobKind;
use kiln_gateway::admin::JobState;
use kiln_gateway::admin::JobStatus;
use kiln_gateway::admin::JobsProxy;
use kiln_gateway::admin::QuantizeBody;
use kiln_gateway::admin::RunnerStep;
use kiln_gateway::admin::StartStep;
use kiln_gateway::admin_models;
use kiln_gateway::admin_models::LiveHealth;
use kiln_gateway::admin_models::LiveWorker;
use kiln_gateway::admin_models::PinBody;
use kiln_gateway::admin_register;
use kiln_gateway::admin_register::hf_repo_shaped;
use kiln_gateway::admin_register::hub_endpoint;
use kiln_gateway::admin_register::hub_files;
use kiln_gateway::admin_register::hub_json;
use kiln_gateway::admin_register::persist_error_to_api;
use kiln_gateway::admin_register::registry_error_to_api;
use kiln_gateway::admin_register::revision_sha;
use kiln_gateway::admin_register::revision_url;
use kiln_gateway::admin_register::tree_url;
use kiln_gateway::admin_register::AddModelBody;
use kiln_gateway::admin_register::AddPlan;
use kiln_gateway::admin_register::AddStep;
use kiln_gateway::admin_register::EstimateQuery;
use kiln_gateway::admin_register::HubReply;
use kiln_gateway::admin_register::Registrar;
use kiln_gateway::admin_register::Resolution;
use kiln_gateway::app;
use kiln_gateway::config::KilnConfig;
use kiln_gateway::config::ModelConfig;
use kiln_gateway::config::WorkerKind;
use kiln_gateway::config_write::PersistError;
use kiln_gateway::error::ApiError;
use kiln_gateway::lifecycle::weights_bytes;
use kiln_gateway::lifecycle::Command;
use kiln_gateway::lifecycle::Lifecycle;
use kiln_gateway::lifecycle::MemoryReport;
use kiln_gateway::metrics::WorkerStats;
use kiln_gateway::registry::ModelFacts;
use kiln_gateway::registry::Registry;
use kiln_gateway::registry::RegistryError;
use kiln_gateway::status::UnloadReason;
use kiln_gateway::status::WorkerStatus;
use kiln_gateway::supervisor::LOAD_OVERHEAD_MARGIN_BYTES;
use kiln_gateway::sysmem::SystemMemory;
use kiln_gateway::worker::RpcStatus;
use serde_json::Value;

fn canned(kind: JobKind, spec_json: &str) -> JobStatus {
    JobStatus {
        id: "job-1".to_string(),
        kind,
        state: JobState::Queued,
        spec_json: spec_json.to_string(),
        detail_json: String::new(),
        created_unix: 1,
        updated_unix: 1,
    }
}

#[test]
fn download_submission_proxies_and_translates() {
    let spec = DownloadBody {
        repo: "org/m".to_string(),
        revision: None,
        dest: None,
    }
    .into_spec();
    assert_eq!(spec.repo, "org/m");
    assert_eq!(spec.revision, "");
    assert_eq!(spec.dest, "");
    let body = job_json(&canned(JobKind::Download, r#"{"repo":"org/m"}"#));
    assert_eq!(body["id"], "job-1");
    assert_eq!(body["kind"], "download");
    assert_eq!(body["state"], "queued");
    // The stored text arrives inlined as an object, not a string.
    assert_eq!(body["spec"]["repo"], "org/m");
    assert!(body["detail"].is_null());
    assert_eq!(body["created_unix"], 1);
}

#[test]
fn quantize_submissions_default_to_zero() {
    let spec = QuantizeBody {
        path: "/m".to_string(),
        bits: Some(5),
        group_size: None,
        out: Some("/o".to_string()),
    }
    .into_spec();
    assert_eq!((spec.src.as_str(), spec.bits, spec.group_size), ("/m", 5, 0));
    assert_eq!(spec.out, "/o");
}

fn rpc(code: i32, message: &str) -> ApiError {
    status_to_api_error(&RpcStatus {
        code,
        message: message.to_string(),
    })
}

#[test]
fn invalid_argument_maps_to_400_and_not_found_to_404() {
    let e = rpc(3, "unsupported bits 5");
    assert_eq!(e.status, 400);
    assert_eq!(e.message, "unsupported bits 5");
    let e = rpc(5, "no job with id missing");
    assert_eq!(e.status, 404);
    assert_eq!(e.body()["error"]["code"], "not_found");
    let e = rpc(14, "gone");
    assert_eq!(e.status, 503);
    assert_eq!(e.message, "job runner error (Unavailable): gone");
}

#[test]
fn get_and_list_translate_detail_and_enums() {
    let mut status = canned(JobKind::Download, r#"{"repo":"org/m"}"#);
    status.detail_json = r#"{"event":"done","dest":"/models/org--m"}"#.to_string();
    status.state = JobState::Succeeded;
    let body = job_json(&status);
    assert_eq!(body["state"], "succeeded");
    assert_eq!(body["detail"]["event"], "done");

    let body = jobs_json(&vec![canned(JobKind::Download, r#"{"repo":"org/m"}"#)]);
    assert_eq!(body["jobs"][0]["kind"], "download");

    // A stored text that is no JSON is shown as it is.
    let body = job_json(&canned(JobKind::Quantize, "not json"));
    assert_eq!(body["spec"], "not json");
    assert_eq!(body["kind"], "quantize");
}

#[test]
fn runners_start_on_demand() {
    let mut config = KilnConfig::default();
    config.server.jobs_argv = vec!["uv".to_string(), "kiln-jobs".to_string()];
    let proxy = JobsProxy::from_config(&config, Some("/h"));
    assert_eq!(proxy.socket, "/h/.kiln/run/jobs.sock");
    assert_eq!(proxy.ensure_running(ChildState::Alive), RunnerStep::Call);
    assert_eq!(proxy.ensure_running(ChildState::Absent), RunnerStep::Start);
    assert_eq!(proxy.ensure_running(ChildState::Gone), RunnerStep::Start);
    assert_eq!(
        proxy.start_argv(),
        vec![
            "uv",
            "kiln-jobs",
            "serve",
            "--socket",
            "/h/.kiln/run/jobs.sock",
            "--db",
            "/h/.kiln/jobs.db",
            "--dest-root",
            "/h/.kiln/models"
        ]
    );
    assert_eq!(
        proxy.start_error("no such file").message,
        "failed to spawn kiln-jobs (uv kiln-jobs): no such file"
    );
    let external = JobsProxy::external("/tmp/x.sock".to_string());
    assert_eq!(external.ensure_running(ChildState::Absent), RunnerStep::Call);
}

#[test]
fn fresh_runners_are_waited_for() {
    assert!(matches!(on_probe(true, Some("1"), 99, 10), StartStep::Ready));
    match on_probe(false, Some("exit status: 1"), 0, 10) {
        StartStep::Failed(e) => assert_eq!(
            e.message,
            "kiln-jobs exited during startup (exit status: 1); check gateway logs"
        ),
        other => panic!("{other:?}"),
    }
    match on_probe(false, None, 10, 10) {
        StartStep::Failed(e) => {
            assert_eq!(e.message, "kiln-jobs did not bind its socket in time");
            assert_eq!(e.status, 503);
        }
        other => panic!("{other:?}"),
    }
    assert!(matches!(
        on_probe(false, None, 9, 10),
        StartStep::Wait { delay_ms: 100 }
    ));
}

fn facts() -> ModelFacts {
    ModelFacts {
        is_local: true,
        arch: Err("phi3".to_string()),
        tokenizer: Err("none".to_string()),
        draft_is_local: false,
        has_template: false,
        channel: Ok(()),
    }
}

/// One registered model whose status the test drives.
fn state_with_model() -> (Registry, Lifecycle) {
    let mut config = KilnConfig::default();
    config.models.push(ModelConfig {
        id: "m".to_string(),
        path: "/models/m".to_string(),
        worker: WorkerKind::Python,
        pinned: false,
        ttl_seconds: 0,
        speculative: None,
    });
    let registry = Registry::from_config(&config, &vec![facts()], None, 3).expect("registry");
    let mut ledger = Lifecycle::new(1000, Some(2000), 0);
    assert!(ledger.add_slot("m", WorkerStatus::Starting, false, 0));
    (registry, ledger)
}

#[test]
fn list_reports_status_pin_and_memory() {
    let (registry, mut ledger) = state_with_model();
    let body = admin_models::list_models(&registry, &ledger);
    assert_eq!(body["models"][0]["id"], "m");
    assert_eq!(body["models"][0]["status"], "starting");
    assert_eq!(body["models"][0]["pinned"], false);
    assert_eq!(body["models"][0]["worker"], "python");
    assert!(body["memory"]["budget_bytes"].as_u64().unwrap_or(0) > 0);
    assert_eq!(body["memory"]["total_bytes"], 2000);

    ledger.set_status("m", WorkerStatus::Ready);
    ledger.record_usage("m", 70);
    let body = admin_models::list_models(&registry, &ledger);
    assert_eq!(body["models"][0]["status"], "ready");
    assert_eq!(body["models"][0]["usage_bytes"], 70);
    assert_eq!(body["memory"]["used_bytes"], 70);
}

#[test]
fn load_and_unload_translate_status_to_supervisor_commands() {
    let (registry, mut ledger) = state_with_model();

    // Starting: load has nothing to do, unload is a 409.
    let answer = admin_models::load_model(&registry, &ledger, "m").expect("no-op load");
    assert_eq!(answer.status, 200);
    assert!(answer.command.is_none());
    assert_eq!(answer.body["action"], "none");
    let err = admin_models::unload_model(&registry, &ledger, "m", true)
        .expect_err("cannot unload mid-start");
    assert_eq!(err.status, 409);
    assert_eq!(err.code, "model_busy");

    // Unloaded: load sends the order.
    ledger.set_status(
        "m",
        WorkerStatus::Unloaded {
            reason: UnloadReason::IdleTtl,
        },
    );
    let answer = admin_models::load_model(&registry, &ledger, "m").expect("load accepted");
    assert_eq!(answer.status, 202);
    assert_eq!(answer.command, Some(Command::Load));

    // Ready: unload sends the order.
    ledger.set_status("m", WorkerStatus::Ready);
    let answer =
        admin_models::unload_model(&registry, &ledger, "m", true).expect("unload accepted");
    assert_eq!(answer.status, 202);
    assert_eq!(
        answer.command,
        Some(Command::Unload {
            reason: UnloadReason::Admin
        })
    );
    let err = admin_models::unload_model(&registry, &ledger, "m", false).expect_err("no task");
    assert_eq!(err.status, 500);

    // Failed: both conflict, naming the manual reset.
    ledger.set_status("m", WorkerStatus::Failed);
    let err = admin_models::load_model(&registry, &ledger, "m")
        .expect_err("failed model refuses load");
    assert_eq!(err.code, "model_failed");
    assert!(err.message.contains("manual reset"), "{}", err.message);
    let err = admin_models::unload_model(&registry, &ledger, "m", true)
        .expect_err("failed model refuses unload");
    assert_eq!(err.code, "model_failed");
}

#[test]
fn pin_toggles_and_unknown_models_404() {
    let (registry, mut ledger) = state_with_model();
    let body = admin_models::pin_model(&registry, &mut ledger, "m", PinBody { pinned: true })
        .expect("pin");
    assert_eq!(body["pinned"], true);
    assert_eq!(ledger.pinned("m"), Some(true));
    let body = admin_models::list_models(&registry, &ledger);
    assert_eq!(body["models"][0]["pinned"], true);

    for err in [
        admin_models::load_model(&registry, &ledger, "ghost").expect_err("404"),
        admin_models::unload_model(&registry, &ledger, "ghost", true).expect_err("404"),
        admin_models::pin_model(&registry, &mut ledger, "ghost", PinBody { pinned: true })
            .expect_err("404"),
    ] {
        assert_eq!(err.status, 404);
    }
}

fn live() -> LiveWorker {
    LiveWorker {
        health: Some(LiveHealth {
            state: "Ready".to_string(),
            requests_running: 1,
            requests_waiting: 2,
            uptime_ms: 3,
            memory: MemoryReport {
                weights_bytes: 4,
                kv_pool_allocated_bytes: 5,
                kv_pool_used_bytes: 6,
                mlx_active_bytes: 7,
                mlx_cache_bytes: 8,
                process_rss_bytes: 9,
            },
        }),
        stats: Some(WorkerStats {
            requests_total: 11,
            requests_failed: 0,
            requests_cancelled: 0,
            requests_preempted: 0,
            tokens_prefilled_total: 0,
            tokens_generated_total: 0,
            prefix_tokens_reused_total: 0,
            kv_blocks_allocated: 0,
            kv_blocks_free: 0,
            ssd_blocks_stored: 0,
            ssd_reads_total: 0,
            ssd_writes_total: 0,
            ssd_fingerprint_rejects_total: 0,
            spec_tokens_proposed_total: 0,
            spec_tokens_accepted_total: 0,
            engine_steps_total: 12,
        }),
    }
}

#[test]
fn stats_snapshot_carries_nulls_for_down_workers() {
    let (registry, mut ledger) = state_with_model();
    let body = admin_models::stats_snapshot(&registry, &ledger, &vec![live()]);
    assert!(body["models"][0]["health"].is_null());
    assert!(body["models"][0]["stats"].is_null());
    assert_eq!(body["models"][0]["status"], "starting");

    ledger.set_status("m", WorkerStatus::Ready);
    let body = admin_models::stats_snapshot(&registry, &ledger, &vec![live()]);
    assert_eq!(body["models"][0]["health"]["state"], "Ready");
    assert_eq!(body["models"][0]["health"]["requests_waiting"], 2);
    assert_eq!(body["models"][0]["health"]["mlx_cache_bytes"], 8);
    assert_eq!(body["models"][0]["stats"]["requests_total"], 11);
    assert!(body["memory"]["budget_bytes"].is_u64());
}

fn body(id: &str, path: &str) -> AddModelBody {
    AddModelBody {
        id: id.to_string(),
        path: path.to_string(),
        worker: WorkerKind::Python,
        pinned: false,
        ttl_seconds: 0,
    }
}

struct World {
    registrar: Registrar,
    registry: Registry,
    ledger: Lifecycle,
    file: String,
    /// Directories that hold a model configuration.
    dirs: Vec<String>,
}

fn world() -> World {
    let mut config = KilnConfig::default();
    config.server.runtime_dir = "/tmp/r/run".to_string();
    config.server.model_dir = "/tmp/r/models".to_string();
    World {
        registrar: Registrar::new(&config, "/tmp/r/kiln.toml".to_string(), None),
        registry: Registry { entries: vec![] },
        ledger: Lifecycle::new(1_000_000_000_000, None, 0),
        file: "# operator note: hands off\n[server]\nport = 8080\n".to_string(),
        dirs: vec![],
    }
}

impl World {
    fn resolve(&self, path: &str) -> Resolution {
        let (local, dest) = self.registrar.candidates(path, None);
        let has = |p: &String| self.dirs.iter().any(|d| format!("{d}/config.json") == *p);
        let at_dest = match &dest {
            Some(p) => has(p),
            None => false,
        };
        self.registrar.resolve(path, None, has(&local), at_dest)
    }

    /// The whole flow; `Err(Ok(body))` is the structured conflict.
    fn add(&mut self, body: &AddModelBody) -> Result<Value, Result<Value, ApiError>> {
        if let Err(e) = admin_register::open_add(body, &self.registry) {
            return Err(Err(e));
        }
        let model = match admin_register::after_resolve(body, self.resolve(&body.path)) {
            AddStep::Register(model) => model,
            AddStep::Download(answer) => return Err(Ok(answer)),
            AddStep::Refuse(e) => return Err(Err(e)),
        };
        let file: Result<String, String> = Ok(self.file.clone());
        let plan: AddPlan =
            match admin_register::prepare_add(&self.registrar, &model, &facts(), &file, None, 5) {
                Ok(plan) => plan,
                Err(e) => return Err(Err(e)),
            };
        self.file = plan.edited;
        admin_register::publish(
            &self.registrar,
            &mut self.registry,
            &mut self.ledger,
            plan.entry,
        )
        .map_err(Err)
    }
}

fn refusal(r: Result<Value, Result<Value, ApiError>>) -> ApiError {
    match r {
        Err(Err(e)) => e,
        other => panic!("{other:?}"),
    }
}

#[test]
fn add_local_model_registers_live_and_persists() {
    let mut w = world();
    w.dirs.push("/tmp/r/m1-src".to_string());
    let json = w.add(&body("m1", "/tmp/r/m1-src")).expect("add succeeds");
    assert_eq!(json["model"]["id"], "m1");
    assert_eq!(json["model"]["status"], "unloaded (registered)");
    assert_eq!(json["persisted_to"], "/tmp/r/kiln.toml");

    // Live: in the registry, in the ledger, and in the models table.
    assert!(w.registry.get("m1").is_some());
    assert_eq!(
        w.ledger.status("m1"),
        Some(WorkerStatus::Unloaded {
            reason: UnloadReason::Registered
        })
    );
    assert_eq!(w.ledger.pinned("m1"), Some(false));
    let list = admin_models::list_models(&w.registry, &w.ledger);
    assert_eq!(list["models"][0]["id"], "m1");
    // A load is accepted at once, and the fleet counts as settled.
    let answer = admin_models::load_model(&w.registry, &w.ledger, "m1").expect("loadable");
    assert_eq!(answer.status, 202);
    assert_eq!(app::readyz(&w.registry, &w.ledger).0, 200);

    // Persisted: the operator comment survives, with exactly one block.
    assert!(w.file.contains("# operator note: hands off"), "{}", w.file);
    assert_eq!(w.file.matches("[[model]]").count(), 1);
    assert!(w.file.contains("id = \"m1\""), "{}", w.file);
    assert!(w.file.contains("path = \"/tmp/r/m1-src\""), "{}", w.file);
}

#[test]
fn duplicate_ids_conflict_never_overwrite() {
    let mut w = world();
    w.dirs.push("/tmp/r/dup-src".to_string());
    w.add(&body("dup", "/tmp/r/dup-src")).expect("first add");
    // Live duplicate: clear 409, nothing changed.
    let err = refusal(w.add(&body("dup", "/tmp/r/dup-src")));
    assert_eq!(err.status, 409);
    assert_eq!(err.code, "model_exists");
    assert_eq!(w.file.matches("[[model]]").count(), 1);

    // File-only duplicate (hand-edited since boot): also a 409.
    w.file
        .push_str("\n[[model]]\nid = \"hand-added\"\npath = \"/tmp/r/dup-src\"\n");
    let err = refusal(w.add(&body("hand-added", "/tmp/r/dup-src")));
    assert_eq!(err.status, 409);
    assert_eq!(err.code, "config_conflict");
    assert!(err.message.contains("restart"), "{}", err.message);
    assert!(w.registry.get("hand-added").is_none());
}

#[test]
fn missing_model_answers_structured_not_downloaded() {
    let mut w = world();
    let json = match w.add(&body("fresh", "stub/tiny")) {
        Err(Ok(json)) => json,
        other => panic!("{other:?}"),
    };
    assert_eq!(json["error"]["code"], "model_not_downloaded");
    assert_eq!(json["download"]["repo"], "stub/tiny");
    let dest = json["download"]["dest"].as_str().expect("dest").to_string();
    assert!(dest.ends_with("models/stub--tiny"), "{dest}");
    assert_eq!(
        json["error"]["message"],
        "model 'stub/tiny' is not downloaded; submit POST /admin/jobs/download \
         {\"repo\": \"stub/tiny\", \"dest\": \"/tmp/r/models/stub--tiny\"} \
         and retry this request when the job succeeds"
    );
    // Nothing registered, nothing persisted.
    assert!(w.registry.get("fresh").is_none());
    assert!(!w.file.contains("[[model]]"), "{}", w.file);

    // Once the files exist at the derived dest, the same request resolves and
    // registers against it.
    w.dirs.push(dest);
    assert!(w.add(&body("fresh", "stub/tiny")).is_ok());
    assert!(w.file.contains("stub--tiny"), "{}", w.file);
}

#[test]
fn unservable_and_invalid_requests_are_400s() {
    let mut w = world();
    // Explicit rust on an architecture the rust worker cannot serve.
    w.dirs.push("/tmp/r/phi-src".to_string());
    let mut rust_body = body("phi", "/tmp/r/phi-src");
    rust_body.worker = WorkerKind::Rust;
    assert_eq!(refusal(w.add(&rust_body)).status, 400);
    assert!(!w.file.contains("[[model]]"), "{}", w.file);

    // A path that is neither local nor repo-shaped.
    let err = refusal(w.add(&body("ghost", "/no/such/dir")));
    assert_eq!(err.status, 400);
    assert!(err.message.contains("'/no/such/dir'"), "{}", err.message);

    for empty in [body("", "x/y"), body("id", ""), body(" \t", "x/y")] {
        assert_eq!(refusal(w.add(&empty)).status, 400);
    }
}

#[test]
fn files_that_cannot_be_edited_leave_no_trace() {
    let w = world();
    let model = ModelConfig {
        id: "m".to_string(),
        path: "/m".to_string(),
        worker: WorkerKind::Python,
        pinned: false,
        ttl_seconds: 0,
        speculative: None,
    };
    let unread: Result<String, String> = Err("denied".to_string());
    let e = admin_register::prepare_add(&w.registrar, &model, &facts(), &unread, None, 5)
        .expect_err("unreadable");
    assert_eq!(e.status, 500);
    assert_eq!(e.message, "failed to read /tmp/r/kiln.toml: denied");
    let refused = |text: &str, model: &ModelConfig| {
        let file: Result<String, String> = Ok(text.to_string());
        admin_register::prepare_add(&w.registrar, model, &facts(), &file, None, 5)
            .expect_err("refused")
    };
    assert!(refused("[server\n", &model).message.contains("nothing was written"));
    assert!(refused("model = 3\n", &model).message.contains("[[model]]"));
    let mut odd = model.duplicate();
    odd.ttl_seconds = u64::MAX;
    assert!(refused("", &odd).message.contains("TOML integer range"));
    odd.ttl_seconds = 0;
    odd.path = "\"".repeat(256);
    assert!(refused("", &odd).message.contains("quotes in a row"));
    let e = persist_error_to_api(&PersistError::DuplicateInFile("m".to_string()));
    assert_eq!(e.status, 409);
    let e = registry_error_to_api(&RegistryError::Duplicate("m".to_string()));
    assert_eq!(e.message, "a model with id 'm' is already registered");
    let e = registry_error_to_api(&RegistryError::Channel {
        id: "m".to_string(),
        source: "x".to_string(),
    });
    assert_eq!(e.status, 500);
}

#[test]
fn missing_file_is_a_read_error() {
    let mut w = world();
    w.registrar.config_path = "/nonexistent/kiln.toml".to_string();
    let model = ModelConfig {
        id: "m".to_string(),
        path: "/models/x".to_string(),
        worker: WorkerKind::Auto,
        pinned: false,
        ttl_seconds: 0,
        speculative: None,
    };
    let missing: Result<String, String> = Err("no file".to_string());
    let e = admin_register::prepare_add(&w.registrar, &model, &facts(), &missing, None, 5)
        .expect_err("no file");
    assert_eq!(e.status, 500);
    assert_eq!(e.message, "failed to read /nonexistent/kiln.toml: no file");
}

#[test]
fn a_slot_without_an_entry_is_loud() {
    let mut w = world();
    w.dirs.push("/d".to_string());
    assert!(w.ledger.add_slot("m", WorkerStatus::Ready, false, 0));
    let e = refusal(w.add(&body("m", "/d")));
    assert_eq!(e.status, 500);
    assert_eq!(e.message, "lifecycle slot for 'm' already exists");
}

#[test]
fn estimate_prices_local_dirs_against_the_live_budget() {
    let mut w = world();
    let tree: Value = serde_json::from_str(
        r#"[{"type":"file","path":"model.safetensors","size":128},
            {"type":"file","path":"model-2.safetensors","size":64},
            {"type":"file","path":"config.json","size":9},
            {"type":"directory","path":"x.safetensors","size":7},
            {"type":"file","path":"sizeless.safetensors"}]"#,
    )
    .expect("json");
    let files = hub_files(&tree, "org/m").expect("list");
    assert_eq!(files.len(), 4);
    assert_eq!(weights_bytes(&files), 192);
    let query = EstimateQuery {
        path: "/tmp/r/est-src".to_string(),
    };
    let json = admin_register::estimate_model(&query, "local", 192, &mut w.ledger, None, 7);
    assert_eq!(json["source"], "local");
    assert_eq!(json["weights_bytes"], 192);
    assert_eq!(
        json["estimated_bytes"].as_u64(),
        Some(192 + LOAD_OVERHEAD_MARGIN_BYTES)
    );
    assert!(json["budget_bytes"].as_u64().unwrap_or(0) > 0);
    assert_eq!(json["headroom_bytes"], json["budget_bytes"]);
    assert_eq!(json["fits"], true);
    assert!(json["pressure_level"].is_null());

    // The machine's own limit counts too.
    w.ledger.min_available_bytes = 1;
    let probe = SystemMemory {
        available_bytes: 100,
        swap_used_bytes: 0,
        pressure_level: 1,
    };
    let json = admin_register::estimate_model(&query, "hub", 192, &mut w.ledger, Some(probe), 8);
    assert_eq!(json["fits_budget"], true);
    assert_eq!(json["fits_system"], false);
    assert_eq!(json["fits"], false);
    assert_eq!(json["system_available_bytes"], 100);
    let json = admin_register::estimate_model(&query, "hub", 0, &mut w.ledger, Some(probe), 9);
    assert_eq!(json["estimated_bytes"], 0);
    assert_eq!(json["fits"], true);

    assert!(matches!(
        w.resolve("/no/such/dir"),
        Resolution::Invalid(_)
    ));
}

#[test]
fn repo_shape_detection() {
    assert!(hf_repo_shaped("mlx-community/Qwen3-0.6B-4bit").is_some());
    assert!(hf_repo_shaped("stub/tiny").is_some());
    for not_repo in [
        "",
        "no-slash",
        "/leading",
        "trailing/",
        "a/b/c",
        "~/models/x",
        "./rel/x",
    ] {
        assert!(hf_repo_shaped(not_repo).is_none(), "{not_repo}");
    }
}

#[test]
fn hub_replies_are_judged() {
    assert_eq!(hub_endpoint(None), "https://huggingface.co");
    assert_eq!(hub_endpoint(Some("http://mirror//")), "http://mirror");
    assert_eq!(
        revision_url("http://h", "o/n"),
        "http://h/api/models/o/n/revision/main"
    );
    assert_eq!(
        tree_url("http://h", "o/n", "abc"),
        "http://h/api/models/o/n/tree/abc?recursive=true"
    );
    let reply = |status: u16, text: &str| HubReply::Body {
        status,
        bytes: text.as_bytes().to_vec(),
    };
    let v = hub_json(&reply(200, r#"{"sha":"abc"}"#), "o/n").expect("json");
    assert_eq!(revision_sha(&v, "o/n").expect("sha"), "abc");
    let e = revision_sha(&hub_json(&reply(200, "{}"), "o/n").expect("json"), "o/n")
        .expect_err("no sha");
    assert_eq!(e.status, 502);
    assert_eq!(e.code, "hub_unavailable");
    assert_eq!(e.message, "hub revision response for 'o/n' has no sha");
    assert!(hub_files(&v, "o/n").is_err());

    let e = hub_json(&reply(404, ""), "o/n").expect_err("unknown repo");
    assert_eq!(e.status, 400);
    let e = hub_json(&reply(503, ""), "o/n").expect_err("down");
    assert_eq!(e.message, "hub answered HTTP 503 for 'o/n'");
    let e = hub_json(&reply(200, "not json"), "o/n").expect_err("garbage");
    assert!(
        e.message.starts_with("bad hub response for 'o/n': "),
        "{}",
        e.message
    );
    let e = hub_json(&HubReply::Failed("dns".to_string()), "o/n").expect_err("offline");
    assert_eq!(e.message, "hub request for 'o/n' failed: dns");
    let cut = HubReply::Broken {
        status: 200,
        source: "cut off".to_string(),
    };
    let e = hub_json(&cut, "o/n").expect_err("cut off");
    assert_eq!(e.message, "bad hub response for 'o/n': cut off");
}

#[test]
fn runner_failures_name_their_code() {
    for (code, name) in [
        (0, "Ok"),
        (1, "Cancelled"),
        (2, "Unknown"),
        (4, "DeadlineExceeded"),
        (6, "AlreadyExists"),
        (7, "PermissionDenied"),
        (8, "ResourceExhausted"),
        (9, "FailedPrecondition"),
        (10, "Aborted"),
        (11, "OutOfRange"),
        (12, "Unimplemented"),
        (13, "Internal"),
        (14, "Unavailable"),
        (15, "DataLoss"),
        (16, "Unauthenticated"),
        (99, "Unknown"),
    ] {
        let e = status_to_api_error(&RpcStatus {
            code,
            message: "boom".to_string(),
        });
        assert_eq!(e.code, "jobs_unavailable");
        assert_eq!(e.message, format!("job runner error ({name}): boom"));
    }
}
