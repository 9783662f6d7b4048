//! The gateway's configuration and what makes it valid.
//!
//! Directory paths are kept verbatim; a leading `~/` is expanded where the
//! paths are used.

use crate::defaults;
use crate::float::Double;
use crate::text;
use vstd::arithmetic::power2::*;
use vstd::prelude::*;
use vstd::string::*;

verus! {

/// Why a configuration cannot be used.
#[derive(Debug)]
pub enum ConfigError {
    /// It could not be read.
    Load(String),
    /// It was read and breaks a rule.
    Invalid(String),
}

impl ConfigError {
    pub open spec fn spec_message(self) -> Seq<char> {
        match self {
            ConfigError::Load(detail) => "failed to load configuration: "@ + detail@,
            ConfigError::Invalid(detail) => "invalid configuration: "@ + detail@,
        }
    }

    /// The error in words.
    pub fn message(&self) -> (r: String)
        ensures
            r@ == self.spec_message(),
    {
        match self {
            ConfigError::Load(detail) => {
                let mut m: String = "failed to load configuration: ".to_owned();
                m.append(detail.as_str());
                m
            },
            ConfigError::Invalid(detail) => {
                let mut m: String = "invalid configuration: ".to_owned();
                m.append(detail.as_str());
                m
            },
        }
    }
}

/// `kiln.toml`.
#[derive(Debug)]
pub struct KilnConfig {
    pub server: ServerConfig,
    pub memory: MemoryConfig,
    pub defaults: EngineDefaults,
    pub models: Vec<ModelConfig>,
    pub auth: AuthConfig,
}

#[derive(Debug)]
pub struct ServerConfig {
    pub host: String,
    pub port: u16,
    pub runtime_dir: String,
    pub cache_dir: String,
    pub model_dir: String,
    /// Command line of the Rust worker, without the per-model arguments.
    pub rust_worker_argv: Vec<String>,
    /// Command line of the Python worker.
    pub python_worker_argv: Vec<String>,
    /// Command line of the job runner.
    pub jobs_argv: Vec<String>,
    pub jobs_db: String,
    /// Arrival to first token; absent = unbounded.
    pub ttft_timeout_secs: Option<u64>,
    /// Arrival to terminal event; absent = unbounded.
    pub total_timeout_secs: Option<u64>,
    /// Origins that may call the gateway from a browser; empty = none.
    pub cors_origins: Vec<String>,
}

/// A share of the machine's memory, with the text it displays as.
#[derive(Debug)]
pub struct Fraction {
    pub value: Double,
    pub text: String,
}

#[derive(Debug)]
pub struct MemoryConfig {
    /// Fraction of unified memory the gateway may hand out across workers.
    pub budget_fraction: Fraction,
    /// Explicit budget; overrides the fraction.
    pub budget_bytes: Option<u64>,
    /// Real availability that must remain after any admission; 0 = off.
    pub min_available_bytes: u64,
}

#[derive(Debug)]
pub struct EngineDefaults {
    pub max_batch_tokens: u32,
    pub prefill_chunk: u32,
    /// Tokens per KV block; must be a power of two.
    pub block_size: u32,
    pub ssd_cache_max_gb: u64,
    pub ssd_tier: bool,
    pub paged_attention_kernel: bool,
}

#[derive(Debug, Clone, Copy, PartialEq, Eq, Structural)]
pub enum WorkerKind {
    Rust,
    Python,
    /// Rust if the architecture is supported and the quant format is known,
    /// else Python.
    Auto,
}

#[derive(Debug)]
pub struct ModelConfig {
    pub id: String,
    /// Hugging Face repo id or local path.
    pub path: String,
    pub worker: WorkerKind,
    /// Never evicted under memory pressure.
    pub pinned: bool,
    /// Idle auto-unload; 0 = never.
    pub ttl_seconds: u64,
    pub speculative: Option<SpeculativeConfig>,
}

#[derive(Debug)]
pub struct SpeculativeConfig {
    /// Draft model: repo id or local path.
    pub draft: String,
    /// Tokens proposed per speculation round.
    pub gamma: u32,
}

#[derive(Debug)]
pub struct AuthConfig {
    /// argon2 hash of the admin bearer token; never the raw token.
    pub admin_token_hash: Option<String>,
    pub api_keys: Vec<ApiKeyConfig>,
}

#[derive(Debug)]
pub struct ApiKeyConfig {
    pub name: String,
    /// argon2 hash of the API key.
    pub key_hash: String,
    /// Requests/minute; absent = unlimited.
    pub rpm: Option<u32>,
    /// Tokens/minute; absent = unlimited.
    pub tpm: Option<u32>,
}

impl WorkerKind {
    pub open spec fn spec_config_str(self) -> Seq<char> {
        match self {
            WorkerKind::Rust => "rust"@,
            WorkerKind::Python => "python"@,
            WorkerKind::Auto => "auto"@,
        }
    }

    /// The word for this kind in `kiln.toml`.
    pub fn as_config_str(self) -> (r: &'static str)
        ensures
            r@ == self.spec_config_str(),
    {
        match self {
            WorkerKind::Rust => "rust",
            WorkerKind::Python => "python",
            WorkerKind::Auto => "auto",
        }
    }
}

impl ServerConfig {
    /// Every setting has its default.
    pub open spec fn is_default(self) -> bool {
        &&& self.host@ == "127.0.0.1"@
        &&& self.port == 8080
        &&& self.runtime_dir@ == "~/.kiln/run"@
        &&& self.cache_dir@ == "~/.kiln/cache"@
        &&& self.model_dir@ == "~/.kiln/models"@
        &&& text::list_view(self.rust_worker_argv@) == seq!["kiln-worker"@]
        &&& text::list_view(self.python_worker_argv@) == seq!["kiln-worker-py"@]
        &&& text::list_view(self.jobs_argv@) == seq!["kiln-jobs"@]
        &&& self.jobs_db@ == "~/.kiln/jobs.db"@
        &&& self.ttft_timeout_secs is None
        &&& self.total_timeout_secs is None
        &&& self.cors_origins@.len() == 0
    }
}

impl MemoryConfig {
    /// Every setting has its default: four fifths of the memory, and one GiB
    /// that stays available.
    pub open spec fn is_default(self) -> bool {
        &&& self.budget_fraction.value.bits == 0x3fe9_9999_9999_999a
        &&& self.budget_fraction.text@ == "0.8"@
        &&& self.budget_bytes is None
        &&& self.min_available_bytes == 1073741824
    }
}

impl EngineDefaults {
    /// Every setting has its default.
    pub open spec fn is_default(self) -> bool {
        self == (EngineDefaults {
            max_batch_tokens: 8192,
            prefill_chunk: 2048,
            block_size: 32,
            ssd_cache_max_gb: 64,
            ssd_tier: true,
            paged_attention_kernel: false,
        })
    }
}

impl Default for WorkerKind {
    fn default() -> (r: Self)
        ensures
            r == WorkerKind::Auto,
    {
        WorkerKind::Auto
    }
}

impl Default for ServerConfig {
    fn default() -> (r: Self)
        ensures
            r.is_default(),
    {
        ServerConfig {
            host: defaults::host(),
            port: defaults::port(),
            runtime_dir: defaults::runtime_dir(),
            cache_dir: defaults::cache_dir(),
            model_dir: defaults::model_dir(),
            rust_worker_argv: defaults::command("kiln-worker"),
            python_worker_argv: defaults::command("kiln-worker-py"),
            jobs_argv: defaults::command("kiln-jobs"),
            jobs_db: defaults::jobs_db(),
            ttft_timeout_secs: None,
            total_timeout_secs: None,
            cors_origins: Vec::new(),
        }
    }
}

impl Default for MemoryConfig {
    fn default() -> (r: Self)
        ensures
            r.is_default(),
    {
        MemoryConfig {
            budget_fraction: Fraction {
                value: defaults::budget_fraction(),
                text: "0.8".to_owned(),
            },
            budget_bytes: None,
            min_available_bytes: 1073741824,
        }
    }
}

impl Default for EngineDefaults {
    fn default() -> (r: Self)
        ensures
            r.is_default(),
    {
        EngineDefaults {
            max_batch_tokens: defaults::max_batch_tokens(),
            prefill_chunk: defaults::prefill_chunk(),
            block_size: defaults::block_size(),
            ssd_cache_max_gb: defaults::ssd_cache_max_gb(),
            ssd_tier: defaults::ssd_tier(),
            paged_attention_kernel: false,
        }
    }
}

impl Default for AuthConfig {
    fn default() -> (r: Self)
        ensures
            r.admin_token_hash is None,
            r.api_keys@.len() == 0,
    {
        AuthConfig { admin_token_hash: None, api_keys: Vec::new() }
    }
}

impl Default for KilnConfig {
    fn default() -> (r: Self)
        ensures
            r.problem() is None,
            r.server.is_default(),
            r.memory.is_default(),
            r.defaults.is_default(),
            r.models@.len() == 0,
            r.auth.api_keys@.len() == 0,
            r.auth.admin_token_hash is None,
    {
        let r: KilnConfig = KilnConfig {
            server: ServerConfig::default(),
            memory: MemoryConfig::default(),
            defaults: EngineDefaults::default(),
            models: Vec::new(),
            auth: AuthConfig::default(),
        };
        proof {
            lemma2_to64();
            assert(power_of_two(32)) by {
                assert(32 == pow2(5));
            }
        }
        proof {
            crate::float::lemma_above_0_to_1(r.memory.budget_fraction.value);
        }
        r
    }
}

impl ModelConfig {
    /// A copy of the block.
    pub fn duplicate(&self) -> (r: Self)
        ensures
            r == *self,
    {
        ModelConfig {
            id: self.id.clone(),
            path: self.path.clone(),
            worker: self.worker,
            pinned: self.pinned,
            ttl_seconds: self.ttl_seconds,
            speculative: match &self.speculative {
                Some(s) => Some(SpeculativeConfig { draft: s.draft.clone(), gamma: s.gamma }),
                None => None,
            },
        }
    }
}

/// One of 1, 2, 4, 8, ...
pub open spec fn power_of_two(n: u32) -> bool {
    exists|k: nat| n == #[trigger] pow2(k)
}

/// Whether `n` is a power of two.
pub fn is_power_of_two(n: u32) -> (r: bool)
    ensures
        r == power_of_two(n),
{
    let mut p: u64 = 1;
    let ghost mut k: nat = 0;
    proof {
        lemma2_to64();
    }
    while p < n as u64
        invariant
            p == pow2(k),
            p <= 0x2_0000_0000,
            forall|j: nat| j < k ==> n != #[trigger] pow2(j),
        decreases 0x2_0000_0000 - p,
    {
        proof {
            lemma_pow2_unfold(k + 1);
            lemma_pow2_pos(k);
        }
        p = p * 2;
        proof {
            k = k + 1;
        }
    }
    proof {
        if p == n as u64 {
            assert(n == pow2(k));
        } else {
            assert forall|j: nat| n != #[trigger] pow2(j) by {
                if j > k {
                    lemma_pow2_strictly_increases(k, j);
                }
            }
        }
    }
    p == n as u64
}

/// A browser origin that can stand in a header: printable ASCII without
/// blanks or commas.
pub open spec fn origin_ok(origin: Seq<char>) -> bool {
    origin.len() > 0 && forall|i: int|
        0 <= i < origin.len() ==> '!' <= #[trigger] origin[i] <= '~' && origin[i] != ','
}

/// Whether every origin can stand in a header.
pub open spec fn origins_ok(origins: Seq<Seq<char>>) -> bool {
    forall|i: int| 0 <= i < origins.len() ==> #[trigger] origin_ok(origins[i])
}

/// What is wrong with the `[[model]]` block at position `i`, if anything.
pub open spec fn model_problem(models: Seq<ModelConfig>, i: int) -> Option<Seq<char>> {
    let m = models[i];
    if m.id@.len() == 0 {
        Some("model.id must be non-empty"@)
    } else if m.path@.len() == 0 {
        Some("model '"@ + m.id@ + "': path must be non-empty"@)
    } else if exists|j: int| 0 <= j < i && (#[trigger] models[j]).id@ == m.id@ {
        Some("duplicate model id '"@ + m.id@ + "'"@)
    } else if m.speculative is Some && m.speculative->0.draft@.len() == 0 {
        Some("model '"@ + m.id@ + "': speculative.draft must be non-empty"@)
    } else if m.speculative is Some && m.speculative->0.gamma == 0 {
        Some("model '"@ + m.id@ + "': speculative.gamma must be >= 1"@)
    } else {
        None
    }
}

/// What is wrong with the first bad `[[model]]` block from `i` on.
pub open spec fn models_problem(models: Seq<ModelConfig>, i: int) -> Option<Seq<char>>
    decreases models.len() - i,
{
    if i >= models.len() {
        None
    } else if model_problem(models, i) is Some {
        model_problem(models, i)
    } else {
        models_problem(models, i + 1)
    }
}

impl KilnConfig {
    /// The first rule this configuration breaks, in words.
    pub open spec fn problem(self) -> Option<Seq<char>> {
        if self.server.port == 0 {
            Some("server.port must be non-zero"@)
        } else if !self.memory.budget_fraction.value.in_above_0_to_1() {
            Some(
                "memory.budget_fraction must be in (0, 1], got "@
                    + self.memory.budget_fraction.text@,
            )
        } else if !power_of_two(self.defaults.block_size) {
            Some(
                "defaults.block_size must be a power of two, got "@ + text::decimal(
                    self.defaults.block_size as nat,
                ),
            )
        } else if self.defaults.prefill_chunk == 0 {
            Some("defaults.prefill_chunk must be non-zero"@)
        } else if self.defaults.max_batch_tokens < self.defaults.block_size {
            Some(
                "defaults.max_batch_tokens ("@ + text::decimal(
                    self.defaults.max_batch_tokens as nat,
                ) + ") must be >= defaults.block_size ("@ + text::decimal(
                    self.defaults.block_size as nat,
                ) + ")"@,
            )
        } else if self.server.ttft_timeout_secs is Some && self.server.total_timeout_secs is Some
            && self.server.ttft_timeout_secs->0 > self.server.total_timeout_secs->0 {
            Some(
                "server.ttft_timeout_secs ("@ + text::decimal(
                    self.server.ttft_timeout_secs->0 as nat,
                ) + ") must be <= server.total_timeout_secs ("@ + text::decimal(
                    self.server.total_timeout_secs->0 as nat,
                ) + ")"@,
            )
        } else if self.server.cors_origins@.len() > 1 && text::list_view(
            self.server.cors_origins@,
        ).contains("*"@) {
            Some("server.cors_origins: \"*\" must be the only entry"@)
        } else if !origins_ok(text::list_view(self.server.cors_origins@)) {
            Some(
                "server.cors_origins: entries must be ASCII without blanks or separators"@,
            )
        } else {
            models_problem(self.models@, 0)
        }
    }

    /// Checks every rule; the first one broken is reported.
    pub fn validate(&self) -> (r: Result<(), ConfigError>)
        ensures
            match r {
                Ok(()) => self.problem() is None,
                Err(ConfigError::Invalid(m)) => self.problem() == Some(m@),
                Err(ConfigError::Load(_)) => false,
            },
    {
        if self.server.port == 0 {
            return Err(ConfigError::Invalid("server.port must be non-zero".to_owned()));
        }
        if !self.memory.budget_fraction.value.above_0_to_1() {
            let mut m: String = "memory.budget_fraction must be in (0, 1], got ".to_owned();
            m.append(self.memory.budget_fraction.text.as_str());
            return Err(ConfigError::Invalid(m));
        }
        if !is_power_of_two(self.defaults.block_size) {
            let mut m: String = "defaults.block_size must be a power of two, got ".to_owned();
            text::push_decimal(&mut m, self.defaults.block_size as u64);
            return Err(ConfigError::Invalid(m));
        }
        if self.defaults.prefill_chunk == 0 {
            return Err(
                ConfigError::Invalid("defaults.prefill_chunk must be non-zero".to_owned()),
            );
        }
        if self.defaults.max_batch_tokens < self.defaults.block_size {
            let mut m: String = "defaults.max_batch_tokens (".to_owned();
            text::push_decimal(&mut m, self.defaults.max_batch_tokens as u64);
            m.append(") must be >= defaults.block_size (");
            text::push_decimal(&mut m, self.defaults.block_size as u64);
            m.append(")");
            return Err(ConfigError::Invalid(m));
        }
        if let Some(ttft) = self.server.ttft_timeout_secs {
            if let Some(total) = self.server.total_timeout_secs {
                if ttft > total {
                    let mut m: String = "server.ttft_timeout_secs (".to_owned();
                    text::push_decimal(&mut m, ttft);
                    m.append(") must be <= server.total_timeout_secs (");
                    text::push_decimal(&mut m, total);
                    m.append(")");
                    return Err(ConfigError::Invalid(m));
                }
            }
        }
        if self.server.cors_origins.len() > 1 && text::contains(&self.server.cors_origins, "*") {
            return Err(
                ConfigError::Invalid(
                    "server.cors_origins: \"*\" must be the only entry".to_owned(),
                ),
            );
        }
        if !check_origins(&self.server.cors_origins) {
            return Err(
                ConfigError::Invalid(
                    "server.cors_origins: entries must be ASCII without blanks or separators".to_owned(),
                ),
            );
        }
        check_models(&self.models)
    }
}

fn check_origin(origin: &str) -> (r: bool)
    ensures
        r == origin_ok(origin@),
{
    let v: Vec<char> = text::chars_of(origin);
    if v.len() == 0 {
        return false;
    }
    let mut i: usize = 0;
    while i < v.len()
        invariant
            v@ == origin@,
            i <= v@.len(),
            forall|j: int| 0 <= j < i ==> '!' <= #[trigger] v@[j] <= '~' && v@[j] != ',',
        decreases v@.len() - i,
    {
        let c: char = v[i];
        if c < '!' || c > '~' || c == ',' {
            assert(!('!' <= v@[i as int] <= '~' && v@[i as int] != ','));
            return false;
        }
        i = i + 1;
    }
    true
}

fn check_origins(origins: &Vec<String>) -> (r: bool)
    ensures
        r == origins_ok(text::list_view(origins@)),
{
    let mut i: usize = 0;
    while i < origins.len()
        invariant
            i <= origins@.len(),
            forall|j: int| 0 <= j < i ==> #[trigger] origin_ok(text::list_view(origins@)[j]),
        decreases origins@.len() - i,
    {
        if !check_origin(origins[i].as_str()) {
            assert(!origin_ok(text::list_view(origins@)[i as int]));
            return false;
        }
        i = i + 1;
    }
    true
}

fn about(before: &str, id: &str, after: &str) -> (r: String)
    ensures
        r@ == before@ + id@ + after@,
{
    let mut m: String = before.to_owned();
    m.append(id);
    m.append(after);
    m
}

fn check_model(models: &Vec<ModelConfig>, i: usize) -> (r: Option<String>)
    requires
        i < models@.len(),
    ensures
        text::opt_view(r) == model_problem(models@, i as int),
{
    let model: &ModelConfig = &models[i];
    let id: &str = model.id.as_str();
    if id.is_empty() {
        return Some("model.id must be non-empty".to_owned());
    }
    if model.path.as_str().is_empty() {
        return Some(about("model '", id, "': path must be non-empty"));
    }
    let mut j: usize = 0;
    while j < i
        invariant
            j <= i < models@.len(),
            id@ == models@[i as int].id@,
            forall|k: int| 0 <= k < j ==> (#[trigger] models@[k]).id@ != id@,
            models@[i as int].id@.len() != 0,
            models@[i as int].path@.len() != 0,
        decreases i - j,
    {
        if text::same(models[j].id.as_str(), id) {
            assert(models@[j as int].id@ == models@[i as int].id@);
            return Some(about("duplicate model id '", id, "'"));
        }
        j = j + 1;
    }
    if let Some(spec) = &model.speculative {
        if spec.draft.as_str().is_empty() {
            return Some(about("model '", id, "': speculative.draft must be non-empty"));
        }
        if spec.gamma == 0 {
            return Some(about("model '", id, "': speculative.gamma must be >= 1"));
        }
    }
    None
}

fn check_models(models: &Vec<ModelConfig>) -> (r: Result<(), ConfigError>)
    ensures
        match r {
            Ok(()) => models_problem(models@, 0) is None,
            Err(ConfigError::Invalid(m)) => models_problem(models@, 0) == Some(m@),
            Err(ConfigError::Load(_)) => false,
        },
{
    let mut i: usize = 0;
    while i < models.len()
        invariant
            i <= models@.len(),
            models_problem(models@, 0) == models_problem(models@, i as int),
        decreases models@.len() - i,
    {
        if let Some(m) = check_model(models, i) {
            return Err(ConfigError::Invalid(m));
        }
        i = i + 1;
    }
    Ok(())
}

/// No rule broken from `i` on means that no block from `i` on is bad.
proof fn lemma_models_ok(models: Seq<ModelConfig>, i: int, j: int)
    requires
        0 <= i <= j < models.len(),
        models_problem(models, i) is None,
    ensures
        model_problem(models, j) is None,
    decreases models.len() - i,
{
    if i < j {
        lemma_models_ok(models, i + 1, j);
    }
}

/// In a valid configuration no two models share an id, and every model has an
/// id and a path.
pub proof fn law_valid_config_has_distinct_models(config: KilnConfig, i: int, j: int)
    requires
        config.problem() is None,
        0 <= i < j < config.models@.len(),
    ensures
        config.models@[i].id@ != config.models@[j].id@,
        config.models@[i].id@.len() > 0,
        config.models@[i].path@.len() > 0,
{
    lemma_models_ok(config.models@, 0, i);
    lemma_models_ok(config.models@, 0, j);
}

/// The sections of `kiln.toml` that `KILN_`-prefixed environment variables can
/// override, with their separator.
pub open spec fn env_section(key: Seq<char>, section: Seq<char>) -> bool {
    key.len() > section.len() && forall|i: int|
        0 <= i < section.len() ==> lower(#[trigger] key[i]) == lower(section[i])
}

/// Whether the variable's name, without its prefix, addresses a section that
/// may be overridden.
pub open spec fn env_key_ok(key: Seq<char>) -> bool {
    env_section(key, "SERVER__"@) || env_section(key, "MEMORY__"@) || env_section(
        key,
        "DEFAULTS__"@,
    ) || env_section(key, "AUTH__"@)
}

/// An ASCII letter in lower case; any other character unchanged.
pub open spec fn lower(c: char) -> char {
    if 'A' <= c <= 'Z' {
        (c as u8 + 32) as char
    } else {
        c
    }
}

/// An ASCII letter in lower case; any other character unchanged.
pub fn lower_char(c: char) -> (r: char)
    ensures
        r == lower(c),
{
    if 'A' <= c && c <= 'Z' {
        (c as u8 + 32) as char
    } else {
        c
    }
}

fn in_section(key: &Vec<char>, section: &str) -> (r: bool)
    ensures
        r == env_section(key@, section@),
{
    let s: Vec<char> = text::chars_of(section);
    if key.len() <= s.len() {
        return false;
    }
    let mut i: usize = 0;
    while i < s.len()
        invariant
            s@ == section@,
            i <= s@.len() < key@.len(),
            forall|j: int| 0 <= j < i ==> lower(#[trigger] key@[j]) == lower(s@[j]),
        decreases s@.len() - i,
    {
        if lower_char(key[i]) != lower_char(s[i]) {
            assert(lower(key@[i as int]) != lower(section@[i as int]));
            return false;
        }
        i = i + 1;
    }
    true
}

/// Whether an environment variable overrides the configuration: `key` is its
/// name without the `KILN_` prefix. Unrelated variables must not leak into
/// configuration keys.
pub fn env_key_admitted(key: &str) -> (r: bool)
    ensures
        r == env_key_ok(key@),
{
    let v: Vec<char> = text::chars_of(key);
    in_section(&v, "SERVER__") || in_section(&v, "MEMORY__") || in_section(&v, "DEFAULTS__")
        || in_section(&v, "AUTH__")
}

/// An error says whether the configuration could not be read or breaks a rule, and why.
pub proof fn law_errors_say_what_is_wrong(detail: String)
    ensures
        ConfigError::Load(detail).spec_message() == "failed to load configuration: "@ + detail@,
        ConfigError::Invalid(detail).spec_message() == "invalid configuration: "@ + detail@,
{
}

/// The kinds of worker have words of their own.
pub proof fn law_worker_kinds_have_their_words(a: WorkerKind, b: WorkerKind)
    ensures
        WorkerKind::Rust.spec_config_str() == "rust"@,
        WorkerKind::Python.spec_config_str() == "python"@,
        WorkerKind::Auto.spec_config_str() == "auto"@,
        a != b ==> a.spec_config_str() != b.spec_config_str(),
{
    reveal_strlit("rust");
    reveal_strlit("python");
    reveal_strlit("auto");
    assert("rust"@[0] != "auto"@[0]);
    assert("python"@.len() == 6);
}

/// Without settings the gateway listens on this machine alone at port 8080, keeps its
/// files under `~/.kiln`, starts the three programs by their names, and bounds nothing.
pub proof fn law_servers_default_to_this_machine(server: ServerConfig)
    requires
        server.is_default(),
    ensures
        server.host@ == "127.0.0.1"@,
        server.port == 8080,
        server.runtime_dir@ == "~/.kiln/run"@,
        server.cache_dir@ == "~/.kiln/cache"@,
        server.model_dir@ == "~/.kiln/models"@,
        server.jobs_db@ == "~/.kiln/jobs.db"@,
        server.rust_worker_argv@.len() == 1 && server.rust_worker_argv@[0]@ == "kiln-worker"@,
        server.python_worker_argv@.len() == 1 && server.python_worker_argv@[0]@
            == "kiln-worker-py"@,
        server.jobs_argv@.len() == 1 && server.jobs_argv@[0]@ == "kiln-jobs"@,
        server.ttft_timeout_secs is None,
        server.total_timeout_secs is None,
        server.cors_origins@.len() == 0,
{
    let rust = text::list_view(server.rust_worker_argv@);
    let python = text::list_view(server.python_worker_argv@);
    let jobs = text::list_view(server.jobs_argv@);
    assert(rust.len() == 1 && rust[0] == "kiln-worker"@);
    assert(python.len() == 1 && python[0] == "kiln-worker-py"@);
    assert(jobs.len() == 1 && jobs[0] == "kiln-jobs"@);
}

/// Without settings four fifths of the memory are handed out and one GiB of it stays
/// available, and the engine has the batch sizes of its documentation.
pub proof fn law_engines_have_their_defaults(memory: MemoryConfig, engine: EngineDefaults)
    requires
        memory.is_default(),
        engine.is_default(),
    ensures
        memory.budget_fraction.value.bits == 0x3fe9_9999_9999_999a,
        memory.budget_fraction.text@ == "0.8"@,
        memory.budget_bytes is None,
        memory.min_available_bytes == 1024 * 1024 * 1024,
        engine.max_batch_tokens == 8192,
        engine.prefill_chunk == 2048,
        engine.block_size == 32,
        engine.ssd_cache_max_gb == 64,
        engine.ssd_tier,
        !engine.paged_attention_kernel,
{
}

/// The powers of two are one and the doubles of powers of two.
pub proof fn law_powers_of_two_double(n: u32)
    ensures
        power_of_two(1),
        !power_of_two(0),
        n > 1 && n % 2 == 1 ==> !power_of_two(n),
        n > 0 && n % 2 == 0 ==> (power_of_two(n) <==> power_of_two((n / 2) as u32)),
{
    lemma2_to64();
    assert(1 == pow2(0));
    assert forall|k: nat| 0 != #[trigger] pow2(k) by {
        lemma_pow2_pos(k);
    }
    if power_of_two(n) {
        let k = choose|k: nat| n == #[trigger] pow2(k);
        if k > 0 {
            lemma_pow2_unfold(k);
            assert((n / 2) as u32 == pow2((k - 1) as nat));
        }
    }
    if n > 0 && n % 2 == 0 && power_of_two((n / 2) as u32) {
        let k = choose|k: nat| (n / 2) as u32 == #[trigger] pow2(k);
        lemma_pow2_unfold(k + 1);
        assert(n == pow2(k + 1));
    }
}

/// An origin with a blank, a comma or a control character is none, and neither is an
/// empty one; one of other printable ASCII characters is.
pub proof fn law_origins_fit_in_a_header(origin: Seq<char>, i: int)
    ensures
        origin_ok(Seq::<char>::empty()) == false,
        0 <= i < origin.len() && (origin[i] == ' ' || origin[i] == ',' || origin[i] == '\n'
            || origin[i] as u32 >= 127) ==> !origin_ok(origin),
        origin.len() > 0 && (forall|k: int|
            0 <= k < origin.len() ==> '!' <= #[trigger] origin[k] && origin[k] <= '~' && origin[k]
                != ',') ==> origin_ok(origin),
{
}

/// Every rule that a valid configuration keeps.
pub proof fn law_valid_configs_keep_the_rules(c: KilnConfig, i: int, j: int)
    requires
        c.problem() is None,
    ensures
        c.server.port > 0,
        c.memory.budget_fraction.value.in_above_0_to_1(),
        power_of_two(c.defaults.block_size),
        c.defaults.prefill_chunk > 0,
        c.defaults.max_batch_tokens >= c.defaults.block_size,
        c.server.ttft_timeout_secs is Some && c.server.total_timeout_secs is Some
            ==> c.server.ttft_timeout_secs->0 <= c.server.total_timeout_secs->0,
        0 <= i < c.server.cors_origins@.len() && c.server.cors_origins@[i]@ == "*"@
            ==> c.server.cors_origins@.len() == 1,
        0 <= i < c.server.cors_origins@.len() ==> origin_ok(c.server.cors_origins@[i]@),
        0 <= i < c.models@.len() ==> {
            let m = c.models@[i];
            &&& m.id@.len() > 0
            &&& m.path@.len() > 0
            &&& m.speculative is Some ==> m.speculative->0.draft@.len() > 0
                && m.speculative->0.gamma >= 1
            &&& 0 <= j < i ==> c.models@[j].id@ != m.id@
        },
{
    let origins = text::list_view(c.server.cors_origins@);
    if 0 <= i < c.server.cors_origins@.len() {
        assert(origins[i] == c.server.cors_origins@[i]@);
        assert(origin_ok(origins[i]));
        if origins[i] == "*"@ {
            assert(origins.contains("*"@));
        }
    }
    if 0 <= i < c.models@.len() {
        lemma_models_ok(c.models@, 0, i);
    }
}

proof fn lemma_models_sound(models: Seq<ModelConfig>, i: int)
    requires
        0 <= i <= models.len(),
        forall|k: int| 0 <= k < models.len() ==> #[trigger] model_problem(models, k) is None,
    ensures
        models_problem(models, i) is None,
    decreases models.len() - i,
{
    if i < models.len() {
        lemma_models_sound(models, i + 1);
    }
}

/// A configuration that keeps every rule is valid.
pub proof fn law_configs_that_keep_the_rules_are_valid(c: KilnConfig)
    requires
        c.server.port > 0,
        c.memory.budget_fraction.value.in_above_0_to_1(),
        power_of_two(c.defaults.block_size),
        c.defaults.prefill_chunk > 0,
        c.defaults.max_batch_tokens >= c.defaults.block_size,
        c.server.ttft_timeout_secs is Some && c.server.total_timeout_secs is Some
            ==> c.server.ttft_timeout_secs->0 <= c.server.total_timeout_secs->0,
        c.server.cors_origins@.len() > 1 ==> forall|i: int|
            0 <= i < c.server.cors_origins@.len() ==> (#[trigger] c.server.cors_origins@[i])@
                != "*"@,
        forall|i: int|
            0 <= i < c.server.cors_origins@.len() ==> origin_ok(
                (#[trigger] c.server.cors_origins@[i])@,
            ),
        forall|i: int|
            0 <= i < c.models@.len() ==> {
                let m = #[trigger] c.models@[i];
                &&& m.id@.len() > 0
                &&& m.path@.len() > 0
                &&& m.speculative is Some ==> m.speculative->0.draft@.len() > 0
                    && m.speculative->0.gamma >= 1
            },
        forall|i: int, j: int|
            0 <= i < j < c.models@.len() ==> (#[trigger] c.models@[i]).id@ != (
            #[trigger] c.models@[j]).id@,
    ensures
        c.problem() is None,
{
    let origins = text::list_view(c.server.cors_origins@);
    assert forall|i: int| 0 <= i < origins.len() implies #[trigger] origin_ok(origins[i]) by {
        assert(origins[i] == c.server.cors_origins@[i]@);
    }
    if c.server.cors_origins@.len() > 1 && origins.contains("*"@) {
        let i = choose|i: int| 0 <= i < origins.len() && origins[i] == "*"@;
        assert(c.server.cors_origins@[i]@ == "*"@);
    }
    assert forall|k: int| 0 <= k < c.models@.len() implies #[trigger] model_problem(
        c.models@,
        k,
    ) is None by {
        let m = c.models@[k];
        assert(m.id@.len() > 0);
        if exists|j: int| 0 <= j < k && (#[trigger] c.models@[j]).id@ == m.id@ {
            let j = choose|j: int| 0 <= j < k && (#[trigger] c.models@[j]).id@ == m.id@;
            assert(c.models@[j].id@ != c.models@[k].id@);
        }
    }
    lemma_models_sound(c.models@, 0);
}

/// What is wrong with a model is told by its id, and the first fault of a block counts.
pub proof fn law_faults_of_models_are_told(models: Seq<ModelConfig>, i: int, j: int)
    requires
        0 <= j < i < models.len(),
    ensures
        ({
            let m = models[i];
            let told = model_problem(models, i);
            let named = m.id@.len() > 0;
            let placed = named && m.path@.len() > 0;
            let apart = placed && forall|k: int| 0 <= k < i ==> (#[trigger] models[k]).id@ != m.id@;
            &&& !named ==> told == Some("model.id must be non-empty"@)
            &&& named && !placed ==> told == Some(
                "model '"@ + m.id@ + "': path must be non-empty"@,
            )
            &&& placed && models[j].id@ == m.id@ ==> told == Some(
                "duplicate model id '"@ + m.id@ + "'"@,
            )
            &&& apart && m.speculative is Some && m.speculative->0.draft@.len() == 0 ==> told
                == Some("model '"@ + m.id@ + "': speculative.draft must be non-empty"@)
            &&& apart && m.speculative is Some && m.speculative->0.draft@.len() > 0
                && m.speculative->0.gamma == 0 ==> told == Some(
                "model '"@ + m.id@ + "': speculative.gamma must be >= 1"@,
            )
        }),
{
}

/// The first block with a fault is the one that is told.
pub proof fn law_the_first_faulty_model_is_told(models: Seq<ModelConfig>, i: int, j: int)
    requires
        0 <= i <= j < models.len(),
        forall|k: int| i <= k < j ==> #[trigger] model_problem(models, k) is None,
        model_problem(models, j) is Some,
    ensures
        models_problem(models, i) == model_problem(models, j),
    decreases j - i,
{
    if i < j {
        assert(model_problem(models, i) is None);
        law_the_first_faulty_model_is_told(models, i + 1, j);
    }
}

/// Each broken rule of a configuration has its own words.
pub proof fn law_broken_rules_are_told(c: KilnConfig)
    ensures
        c.server.port == 0 ==> c.problem() == Some("server.port must be non-zero"@),
        c.server.port > 0 ==> {
            let share = c.memory.budget_fraction.value.in_above_0_to_1();
            let block = c.defaults.block_size;
            &&& !share ==> c.problem() == Some(
                "memory.budget_fraction must be in (0, 1], got "@ + c.memory.budget_fraction.text@,
            )
            &&& share && !power_of_two(block) ==> c.problem() == Some(
                "defaults.block_size must be a power of two, got "@ + text::decimal(block as nat),
            )
            &&& share && power_of_two(block) && c.defaults.prefill_chunk == 0 ==> c.problem()
                == Some("defaults.prefill_chunk must be non-zero"@)
            &&& share && power_of_two(block) && c.defaults.prefill_chunk > 0
                && c.defaults.max_batch_tokens < block ==> c.problem() == Some(
                "defaults.max_batch_tokens ("@ + text::decimal(c.defaults.max_batch_tokens as nat)
                    + ") must be >= defaults.block_size ("@ + text::decimal(block as nat) + ")"@,
            )
        },
{
}

/// A variable overrides a setting of four sections, whatever the case of its letters, and
/// only where a name stands behind the section.
pub proof fn law_variables_address_four_sections(rest: Seq<char>, key: Seq<char>)
    ensures
        rest.len() > 0 ==> env_key_ok("SERVER__"@ + rest),
        rest.len() > 0 ==> env_key_ok("MEMORY__"@ + rest),
        rest.len() > 0 ==> env_key_ok("DEFAULTS__"@ + rest),
        rest.len() > 0 ==> env_key_ok("AUTH__"@ + rest),
        key.len() <= 6 ==> !env_key_ok(key),
        env_key_ok(key) ==> lower(key[0]) == 's' || lower(key[0]) == 'm' || lower(key[0]) == 'd'
            || lower(key[0]) == 'a',
{
    reveal_strlit("SERVER__");
    reveal_strlit("MEMORY__");
    reveal_strlit("DEFAULTS__");
    reveal_strlit("AUTH__");
    assert(env_section("SERVER__"@ + rest, "SERVER__"@) || rest.len() == 0);
    assert(env_section("MEMORY__"@ + rest, "MEMORY__"@) || rest.len() == 0);
    assert(env_section("DEFAULTS__"@ + rest, "DEFAULTS__"@) || rest.len() == 0);
    assert(env_section("AUTH__"@ + rest, "AUTH__"@) || rest.len() == 0);
}

/// A section is addressed where the key goes on behind it and starts with it but for the
/// case of letters.
pub proof fn law_sections_match_in_any_case(key: Seq<char>, section: Seq<char>, i: int)
    ensures
        key.len() <= section.len() ==> !env_section(key, section),
        0 <= i < section.len() && lower(key[i]) != lower(section[i]) ==> !env_section(key, section),
        key.len() > section.len() && key.take(section.len() as int) == section ==> env_section(
            key,
            section,
        ),
        lower('A') == 'a',
        lower('Z') == 'z',
        lower('_') == '_',
        forall|c: char| 'a' <= c <= 'z' ==> #[trigger] lower(c) == c,
        forall|c: char| 'A' <= c <= 'Z' ==> #[trigger] lower(c) as u32 == c as u32 + 32,
{
    if key.len() > section.len() && key.take(section.len() as int) == section {
        assert forall|k: int| 0 <= k < section.len() implies lower(#[trigger] key[k]) == lower(
            section[k],
        ) by {
            assert(key.take(section.len() as int)[k] == section[k]);
        }
    }
}

} // verus!
