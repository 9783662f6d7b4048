use kiln_gateway::config::KilnConfig;
use kiln_gateway::config::ModelConfig;
use kiln_gateway::config::SpeculativeConfig;
use kiln_gateway::config::WorkerKind;
use kiln_gateway::paths::expand_tilde;
use kiln_gateway::registry::build_entry;
use kiln_gateway::registry::resolve_draft;
use kiln_gateway::registry::resolve_worker;
use kiln_gateway::registry::socket_path_for;
use kiln_gateway::registry::ModelFacts;
use kiln_gateway::registry::Registry;
use kiln_gateway::registry::RegistryError;

const HOME: Option<&str> = Some("/home/op");

fn model(worker: WorkerKind) -> ModelConfig {
    ModelConfig {
        id: "test-model".to_string(),
        path: "/models/test".to_string(),
        worker,
        pinned: false,
        ttl_seconds: 0,
        speculative: None,
    }
}

fn servable() -> ModelFacts {
    ModelFacts {
        is_local: true,
        arch: Ok(()),
        tokenizer: Ok(()),
        draft_is_local: true,
        has_template: true,
        channel: Ok(()),
    }
}

fn no_tokenizer() -> ModelFacts {
    ModelFacts {
        tokenizer: Err("no tokenizer.json".to_string()),
        ..servable()
    }
}

fn unsupported(why: &str) -> ModelFacts {
    ModelFacts {
        arch: Err(why.to_string()),
        ..no_tokenizer()
    }
}

fn resolve(worker: WorkerKind, facts: &ModelFacts) -> (WorkerKind, bool) {
    match resolve_worker(&model(worker), facts) {
        Ok(r) => r,
        Err(e) => panic!("resolution must not error: {}", e.message()),
    }
}

#[test]
fn tilde_expansion() {
    assert_eq!(expand_tilde("~/.kiln/run", HOME), "/home/op/.kiln/run");
    assert_eq!(expand_tilde("/abs/path", HOME), "/abs/path");
    assert_eq!(expand_tilde("rel/path", HOME), "rel/path");
    assert_eq!(expand_tilde("~/x", None), "~/x");
}

#[test]
fn auto_routes_unsupported_configs_to_python() {
    for why in [
        "unsupported model_type phi3",
        "per-module quantization override",
        "non-affine quantization mode",
        "bits 3",
        "group size 16",
        "rope_scaling longrope",
    ] {
        let (kind, has_tokenizer) = resolve(WorkerKind::Auto, &unsupported(why));
        assert_eq!(kind, WorkerKind::Python, "{why}");
        assert!(!has_tokenizer, "python route must not load a tokenizer");
    }
}

#[test]
fn auto_prefers_rust_but_downgrades_without_tokenizer() {
    let (kind, _) = resolve(WorkerKind::Auto, &no_tokenizer());
    assert_eq!(kind, WorkerKind::Python);
    let (kind, has_tokenizer) = resolve(WorkerKind::Auto, &servable());
    assert_eq!(kind, WorkerKind::Rust);
    assert!(has_tokenizer);
}

#[test]
fn explicit_rust_on_unservable_model_is_a_startup_error() {
    let err = match resolve_worker(&model(WorkerKind::Rust), &unsupported("lm_head")) {
        Ok(_) => panic!("must fail loudly"),
        Err(e) => e,
    };
    assert!(
        matches!(err, RegistryError::RustUnsupported { .. }),
        "{}",
        err.message()
    );
}

#[test]
fn explicit_rust_accepts_every_supported_architecture() {
    let err = match resolve_worker(&model(WorkerKind::Rust), &no_tokenizer()) {
        Ok(_) => panic!("no tokenizer"),
        Err(e) => e,
    };
    assert!(
        matches!(err, RegistryError::Tokenizer { .. }),
        "{}",
        err.message()
    );
}

#[test]
fn explicit_python_skips_validation_entirely() {
    let (kind, has_tokenizer) = resolve(WorkerKind::Python, &unsupported("phi3"));
    assert_eq!(kind, WorkerKind::Python);
    assert!(!has_tokenizer);
}

fn draft_error(m: &ModelConfig, kind: WorkerKind, local: bool) -> RegistryError {
    match resolve_draft(m, kind, local, HOME) {
        Ok(_) => panic!("resolved"),
        Err(e) => e,
    }
}

#[test]
fn speculative_requires_the_rust_worker() {
    // The draft is local: the failure under test is the worker kind.
    let mut m = model(WorkerKind::Python);
    m.speculative = Some(SpeculativeConfig {
        draft: "/models/test".to_string(),
        gamma: 4,
    });
    let err = draft_error(&m, WorkerKind::Python, true);
    assert!(matches!(err, RegistryError::SpeculativeNeedsRust { .. }));
    assert!(
        err.message().contains("worker = \"python\""),
        "{}",
        err.message()
    );

    // An auto that resolved to python is rejected just as loudly.
    m.worker = WorkerKind::Auto;
    let err = draft_error(&m, WorkerKind::Python, true);
    assert!(
        err.message().contains("resolved to python"),
        "{}",
        err.message()
    );
}

#[test]
fn speculative_draft_must_be_local() {
    let mut m = model(WorkerKind::Rust);
    m.speculative = Some(SpeculativeConfig {
        draft: "mlx-community/Qwen3-0.6B-4bit".to_string(),
        gamma: 4,
    });
    let err = draft_error(&m, WorkerKind::Rust, false);
    assert!(
        matches!(err, RegistryError::DraftNotLocal { .. }),
        "{}",
        err.message()
    );
}

#[test]
fn speculative_draft_resolves_to_the_local_dir() {
    let mut m = model(WorkerKind::Rust);
    m.speculative = Some(SpeculativeConfig {
        draft: "/models/draft".to_string(),
        gamma: 4,
    });
    let path = match resolve_draft(&m, WorkerKind::Rust, true, HOME) {
        Ok(Some(path)) => path,
        _ => panic!("local draft resolves"),
    };
    assert_eq!(path, "/models/draft");

    m.speculative = None;
    assert!(matches!(
        resolve_draft(&m, WorkerKind::Rust, true, HOME),
        Ok(None)
    ));
}

#[test]
fn socket_name_is_stable_and_safe() {
    let a = socket_path_for("/run", "llama-3.2-1b-4bit");
    let b = socket_path_for("/run", "llama-3.2-1b-4bit");
    let c = socket_path_for("/run", "other/model");
    assert_eq!(a, b);
    assert_ne!(a, c);
    let name = a.strip_prefix("/run/").expect("under the runtime dir");
    assert!(
        name.starts_with("worker-") && name.ends_with(".sock"),
        "{name}"
    );
    assert_eq!(name.len(), "worker-".len() + 12 + ".sock".len());
    // The first six bytes of the SHA-256 digest of "abc".
    assert_eq!(
        socket_path_for("/run", "abc"),
        "/run/worker-ba7816bf8f01.sock"
    );
}

fn entry_error(m: &ModelConfig, facts: &ModelFacts, dir: &str) -> RegistryError {
    match build_entry(m, facts, dir, HOME, 7) {
        Ok(_) => panic!("built"),
        Err(e) => e,
    }
}

#[test]
fn entries_are_built_from_facts() {
    let mut m = model(WorkerKind::Auto);
    m.path = "~/m".to_string();
    let entry = match build_entry(&m, &servable(), "/run", HOME, 7) {
        Ok(e) => e,
        Err(e) => panic!("{}", e.message()),
    };
    assert_eq!(entry.model_path, "/home/op/m");
    assert_eq!(entry.worker_kind, WorkerKind::Rust);
    assert!(entry.has_tokenizer && entry.has_template);
    assert_eq!(entry.created_unix, 7);
    assert!(entry.draft_path.is_none());

    let mut gone = servable();
    gone.is_local = false;
    assert!(matches!(
        entry_error(&m, &gone, "/run"),
        RegistryError::NotLocal { .. }
    ));
    let mut dead = servable();
    dead.channel = Err("bad uri".to_string());
    let e = entry_error(&m, &dead, "/run");
    assert_eq!(
        e.message(),
        "model 'test-model': failed to build worker channel: bad uri"
    );
    let deep = format!("/{}", "d".repeat(90));
    let e = entry_error(&m, &servable(), &deep);
    assert!(e.message().contains("104 bytes"), "{}", e.message());
}

#[test]
fn an_id_is_never_registered_again() {
    let mut config = KilnConfig::default();
    config.models.push(model(WorkerKind::Python));
    let mut other = model(WorkerKind::Python);
    other.id = "other".to_string();
    config.models.push(other);
    let facts = vec![servable(), servable()];
    let mut registry = match Registry::from_config(&config, &facts, HOME, 1) {
        Ok(r) => r,
        Err(e) => panic!("{}", e.message()),
    };
    assert!(!registry.is_empty());
    assert_eq!(registry.position("other"), Some(1));
    assert_eq!(registry.get("other").expect("registered").id, "other");
    assert!(registry.get("ghost").is_none());

    let again = match build_entry(&model(WorkerKind::Python), &servable(), "/run", HOME, 2) {
        Ok(e) => e,
        Err(e) => panic!("{}", e.message()),
    };
    match registry.insert(again) {
        Err(e) => assert_eq!(
            e.message(),
            "a model with id 'test-model' is already registered"
        ),
        Ok(()) => panic!("overwritten"),
    }
    assert_eq!(registry.entries.len(), 2);

    assert_eq!(registry.first_repeat(), None);
}

#[test]
fn of_models_with_one_id_the_later_is_found() {
    let mut config = KilnConfig::default();
    for path in ["/first", "/between", "/last"] {
        let mut m = model(WorkerKind::Python);
        m.path = path.to_string();
        config.models.push(m);
    }
    config.models[1].id = "between".to_string();
    let facts = vec![servable(), servable(), servable()];
    let registry = match Registry::from_config(&config, &facts, HOME, 1) {
        Ok(r) => r,
        Err(e) => panic!("{}", e.message()),
    };
    assert_eq!(registry.entries.len(), 3);
    assert_eq!(registry.position("test-model"), Some(2));
    assert_eq!(registry.get("test-model").expect("held").model_path, "/last");
    assert_eq!(registry.first_repeat(), Some(2));
}
