use kiln_gateway::config::env_key_admitted;
use kiln_gateway::config::is_power_of_two;
use kiln_gateway::config::ConfigError;
use kiln_gateway::config::Fraction;
use kiln_gateway::config::KilnConfig;
use kiln_gateway::config::ModelConfig;
use kiln_gateway::config::SpeculativeConfig;
use kiln_gateway::config::WorkerKind;
use kiln_gateway::float::Double;

fn model(id: &str, path: &str) -> ModelConfig {
    ModelConfig {
        id: id.to_string(),
        path: path.to_string(),
        worker: WorkerKind::Auto,
        pinned: false,
        ttl_seconds: 0,
        speculative: None,
    }
}

fn fraction(x: f64) -> Fraction {
    Fraction {
        value: Double { bits: x.to_bits() },
        text: format!("{x}"),
    }
}

fn problem(config: &KilnConfig) -> String {
    match config.validate() {
        Ok(()) => panic!("accepted"),
        Err(ConfigError::Invalid(m)) => m,
        Err(ConfigError::Load(m)) => panic!("load error {m}"),
    }
}

#[test]
fn out_of_range_budget_fraction_is_rejected() {
    let mut config = KilnConfig::default();
    config.memory.budget_fraction = fraction(1.5);
    assert_eq!(
        problem(&config),
        "memory.budget_fraction must be in (0, 1], got 1.5"
    );
    for bad in [0.0, -0.5, f64::NAN, f64::INFINITY, 1.0000000000000002] {
        config.memory.budget_fraction = fraction(bad);
        assert!(config.validate().is_err(), "{bad}");
    }
    for good in [1.0, 0.5, 0.8, 1e-300, 5e-324] {
        config.memory.budget_fraction = fraction(good);
        assert!(config.validate().is_ok(), "{good}");
    }
}

#[test]
fn non_power_of_two_block_size_is_rejected() {
    let mut config = KilnConfig::default();
    config.defaults.block_size = 48;
    assert_eq!(
        problem(&config),
        "defaults.block_size must be a power of two, got 48"
    );
}

#[test]
fn duplicate_model_ids_are_rejected() {
    let mut config = KilnConfig::default();
    config.models.push(model("m", "org/a"));
    config.models.push(model("m", "org/b"));
    assert_eq!(problem(&config), "duplicate model id 'm'");
}

#[test]
fn defaults_are_valid() {
    let config = KilnConfig::default();
    assert!(config.validate().is_ok());
    assert_eq!(config.server.host, "127.0.0.1");
    assert_eq!(config.server.port, 8080);
    assert_eq!(config.server.model_dir, "~/.kiln/models");
    assert_eq!(
        f64::from_bits(config.memory.budget_fraction.value.bits),
        0.80
    );
    assert_eq!(config.defaults.block_size, 32);
    assert_eq!(config.defaults.max_batch_tokens, 8192);
    assert!(config.defaults.ssd_tier);
    assert!(config.models.is_empty());
    assert_eq!(WorkerKind::default(), WorkerKind::Auto);
}

#[test]
fn every_rule_has_its_message() {
    let mut c = KilnConfig::default();
    c.server.port = 0;
    assert_eq!(problem(&c), "server.port must be non-zero");
    let mut c = KilnConfig::default();
    c.defaults.prefill_chunk = 0;
    assert_eq!(problem(&c), "defaults.prefill_chunk must be non-zero");
    let mut c = KilnConfig::default();
    c.defaults.max_batch_tokens = 16;
    assert_eq!(
        problem(&c),
        "defaults.max_batch_tokens (16) must be >= defaults.block_size (32)"
    );
    let mut c = KilnConfig::default();
    c.server.ttft_timeout_secs = Some(9);
    c.server.total_timeout_secs = Some(8);
    assert_eq!(
        problem(&c),
        "server.ttft_timeout_secs (9) must be <= server.total_timeout_secs (8)"
    );
    c.server.total_timeout_secs = Some(9);
    assert!(c.validate().is_ok());
    let mut c = KilnConfig::default();
    c.server.cors_origins = vec!["*".to_string(), "http://a".to_string()];
    assert!(problem(&c).contains("only entry"));
    c.server.cors_origins = vec!["http://a b".to_string()];
    assert!(problem(&c).contains("ASCII"));
    let mut c = KilnConfig::default();
    c.models.push(model("", "p"));
    assert_eq!(problem(&c), "model.id must be non-empty");
    c.models[0] = model("m", "");
    assert_eq!(problem(&c), "model 'm': path must be non-empty");
    c.models[0] = model("m", "p");
    c.models[0].speculative = Some(SpeculativeConfig {
        draft: String::new(),
        gamma: 4,
    });
    assert_eq!(problem(&c), "model 'm': speculative.draft must be non-empty");
    c.models[0].speculative = Some(SpeculativeConfig {
        draft: "d".to_string(),
        gamma: 0,
    });
    assert_eq!(problem(&c), "model 'm': speculative.gamma must be >= 1");
}

#[test]
fn powers_of_two() {
    for n in [1u32, 2, 64, 1 << 31] {
        assert!(is_power_of_two(n), "{n}");
    }
    for n in [0u32, 3, 48, u32::MAX] {
        assert!(!is_power_of_two(n), "{n}");
    }
}

#[test]
fn unrelated_kiln_env_vars_are_ignored() {
    assert!(!env_key_admitted("TEST_MODELS"));
    assert!(!env_key_admitted("SERVER__"));
    assert!(!env_key_admitted("SERVER"));
}

#[test]
fn section_env_vars_are_admitted() {
    assert!(env_key_admitted("SERVER__PORT"));
    assert!(env_key_admitted("memory__budget_fraction"));
    assert!(env_key_admitted("Defaults__SSD_TIER"));
    assert!(env_key_admitted("AUTH__ADMIN_TOKEN_HASH"));
}

#[test]
fn errors_read_as_sentences() {
    assert_eq!(
        ConfigError::Load("no such file".to_string()).message(),
        "failed to load configuration: no such file"
    );
    assert_eq!(
        ConfigError::Invalid("x".to_string()).message(),
        "invalid configuration: x"
    );
}
