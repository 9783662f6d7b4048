//! Model registry: one entry per configured model, holding what the request
//! path needs — resolved paths, the worker that serves it, and whether the
//! gateway holds its tokenizer and chat template.

use crate::config::KilnConfig;
use crate::config::ModelConfig;
use crate::config::WorkerKind;
use crate::digest;
use crate::paths;
use crate::text;
use vstd::prelude::*;
use vstd::string::*;

verus! {

/// What is known of one model's files and connection before it is registered.
#[derive(Debug)]
pub struct ModelFacts {
    /// Its directory holds a `config.json`.
    pub is_local: bool,
    /// Whether the Rust worker can serve the checkpoint; if not, why.
    pub arch: Result<(), String>,
    /// Whether the gateway can load its tokenizer; if not, why.
    pub tokenizer: Result<(), String>,
    /// The speculative draft's directory holds a `config.json`.
    pub draft_is_local: bool,
    /// Its directory holds a usable chat template.
    pub has_template: bool,
    /// Whether a channel to its worker can be built; if not, why.
    pub channel: Result<(), String>,
}

/// One registered model.
#[derive(Debug)]
pub struct ModelEntry {
    pub id: String,
    /// Resolved local model directory.
    pub model_path: String,
    /// Resolved local draft-model directory; present exactly when the model
    /// has a speculative block.
    pub draft_path: Option<String>,
    pub socket_path: String,
    pub config: ModelConfig,
    /// Which worker serves this model: never `Auto`.
    pub worker_kind: WorkerKind,
    /// The gateway encodes prompts and detokenizes output itself: for models
    /// of the Rust worker only.
    pub has_tokenizer: bool,
    /// Without a chat template, chat requests fail with a clear error.
    pub has_template: bool,
    /// Unix time the entry was registered.
    pub created_unix: u64,
}

/// The registered models, in the order they were registered.
#[derive(Debug)]
pub struct Registry {
    pub entries: Vec<ModelEntry>,
}

/// Why a model cannot be registered.
#[derive(Debug)]
pub enum RegistryError {
    NotLocal { id: String, path: String },
    RustUnsupported { id: String, reason: String },
    Tokenizer { id: String, source: String },
    Channel { id: String, source: String },
    SocketPathTooLong(String),
    SpeculativeNeedsRust { id: String, reason: String },
    DraftNotLocal { id: String, path: String },
    /// A model with that id is registered already.
    Duplicate(String),
}

/// The same, without the details.
pub enum Problem {
    NotLocal,
    RustUnsupported,
    Tokenizer,
    Channel,
    SocketPathTooLong,
    SpeculativeNeedsRust,
    DraftNotLocal,
    Duplicate,
}

impl RegistryError {
    pub open spec fn problem(self) -> Problem {
        match self {
            RegistryError::NotLocal { .. } => Problem::NotLocal,
            RegistryError::RustUnsupported { .. } => Problem::RustUnsupported,
            RegistryError::Tokenizer { .. } => Problem::Tokenizer,
            RegistryError::Channel { .. } => Problem::Channel,
            RegistryError::SocketPathTooLong(_) => Problem::SocketPathTooLong,
            RegistryError::SpeculativeNeedsRust { .. } => Problem::SpeculativeNeedsRust,
            RegistryError::DraftNotLocal { .. } => Problem::DraftNotLocal,
            RegistryError::Duplicate(_) => Problem::Duplicate,
        }
    }

    pub open spec fn spec_message(self) -> Seq<char> {
        match self {
            RegistryError::NotLocal { id, path } => "model '"@ + id@ + "': path '"@ + path@
                + "' is not a local model directory (config.json missing); model downloads arrive with kiln-jobs (Phase 10) — fetch it first"@,
            RegistryError::RustUnsupported { id, reason } => "model '"@ + id@
                + "': the rust worker cannot serve this model ("@ + reason@
                + "); set worker = \"python\""@,
            RegistryError::Tokenizer { id, source } => "model '"@ + id@
                + "': failed to load tokenizer.json for gateway-side tokenization: "@ + source@,
            RegistryError::Channel { id, source } => "model '"@ + id@
                + "': failed to build worker channel: "@ + source@,
            RegistryError::SocketPathTooLong(path) => "socket path '"@ + path@
                + "' exceeds the macOS UDS path limit (104 bytes); shorten server.runtime_dir"@,
            RegistryError::SpeculativeNeedsRust { id, reason } => "model '"@ + id@
                + "': [model.speculative] requires the rust worker, but this model is served by the python worker ("@
                + reason@
                + "); speculative decoding is a rust-worker capability — remove the speculative block or make the model rust-servable"@,
            RegistryError::DraftNotLocal { id, path } => "model '"@ + id@
                + "': speculative draft '"@ + path@
                + "' is not a local model directory (config.json missing); model downloads arrive with kiln-jobs (Phase 10) — fetch it first"@,
            RegistryError::Duplicate(id) => "a model with id '"@ + id@
                + "' is already registered"@,
        }
    }

    /// The error in words.
    pub fn message(&self) -> (r: String)
        ensures
            r@ == self.spec_message(),
    {
        match self {
            RegistryError::NotLocal { id, path } => {
                let mut m: String = "model '".to_owned();
                m.append(id.as_str());
                m.append("': path '");
                m.append(path.as_str());
                m.append(
                    "' is not a local model directory (config.json missing); model downloads arrive with kiln-jobs (Phase 10) — fetch it first",
                );
                m
            },
            RegistryError::RustUnsupported { id, reason } => {
                let mut m: String = "model '".to_owned();
                m.append(id.as_str());
                m.append("': the rust worker cannot serve this model (");
                m.append(reason.as_str());
                m.append("); set worker = \"python\"");
                m
            },
            RegistryError::Tokenizer { id, source } => {
                let mut m: String = "model '".to_owned();
                m.append(id.as_str());
                m.append("': failed to load tokenizer.json for gateway-side tokenization: ");
                m.append(source.as_str());
                m
            },
            RegistryError::Channel { id, source } => {
                let mut m: String = "model '".to_owned();
                m.append(id.as_str());
                m.append("': failed to build worker channel: ");
                m.append(source.as_str());
                m
            },
            RegistryError::SocketPathTooLong(path) => {
                let mut m: String = "socket path '".to_owned();
                m.append(path.as_str());
                m.append(
                    "' exceeds the macOS UDS path limit (104 bytes); shorten server.runtime_dir",
                );
                m
            },
            RegistryError::SpeculativeNeedsRust { id, reason } => {
                let mut m: String = "model '".to_owned();
                m.append(id.as_str());
                m.append(
                    "': [model.speculative] requires the rust worker, but this model is served by the python worker (",
                );
                m.append(reason.as_str());
                m.append(
                    "); speculative decoding is a rust-worker capability — remove the speculative block or make the model rust-servable",
                );
                m
            },
            RegistryError::DraftNotLocal { id, path } => {
                let mut m: String = "model '".to_owned();
                m.append(id.as_str());
                m.append("': speculative draft '");
                m.append(path.as_str());
                m.append(
                    "' is not a local model directory (config.json missing); model downloads arrive with kiln-jobs (Phase 10) — fetch it first",
                );
                m
            },
            RegistryError::Duplicate(id) => {
                let mut m: String = "a model with id '".to_owned();
                m.append(id.as_str());
                m.append("' is already registered");
                m
            },
        }
    }
}

/// The worker that serves a model, given what is known of its files.
pub open spec fn served_by(worker: WorkerKind, facts: ModelFacts) -> Result<WorkerKind, Problem> {
    match worker {
        WorkerKind::Python => Ok(WorkerKind::Python),
        WorkerKind::Rust => if facts.arch is Err {
            Err(Problem::RustUnsupported)
        } else if facts.tokenizer is Err {
            Err(Problem::Tokenizer)
        } else {
            Ok(WorkerKind::Rust)
        },
        WorkerKind::Auto => if facts.arch is Ok && facts.tokenizer is Ok {
            Ok(WorkerKind::Rust)
        } else {
            Ok(WorkerKind::Python)
        },
    }
}

/// Resolves the configured worker. `auto` is Rust where the Rust worker can
/// serve the checkpoint and the gateway can load its tokenizer, else Python;
/// an explicit `rust` that cannot be served is an error; an explicit `python`
/// skips the checks. The flag says whether the gateway holds the tokenizer.
pub fn resolve_worker(model: &ModelConfig, facts: &ModelFacts) -> (r: Result<
    (WorkerKind, bool),
    RegistryError,
>)
    ensures
        match r {
            Ok((kind, has_tokenizer)) => served_by(model.worker, *facts) == Ok::<
                WorkerKind,
                Problem,
            >(kind) && has_tokenizer == (kind == WorkerKind::Rust) && kind != WorkerKind::Auto,
            Err(RegistryError::RustUnsupported { id, reason }) => served_by(model.worker, *facts)
                == Err::<WorkerKind, Problem>(Problem::RustUnsupported) && id@ == model.id@
                && reason@ == facts.arch->Err_0@,
            Err(RegistryError::Tokenizer { id, source }) => served_by(model.worker, *facts)
                == Err::<WorkerKind, Problem>(Problem::Tokenizer) && id@ == model.id@ && source@
                == facts.tokenizer->Err_0@,
            Err(_) => false,
        },
{
    match model.worker {
        WorkerKind::Python => Ok((WorkerKind::Python, false)),
        WorkerKind::Rust => match &facts.arch {
            Err(reason) => Err(
                RegistryError::RustUnsupported { id: model.id.clone(), reason: reason.clone() },
            ),
            Ok(()) => match &facts.tokenizer {
                Err(source) => Err(
                    RegistryError::Tokenizer { id: model.id.clone(), source: source.clone() },
                ),
                Ok(()) => Ok((WorkerKind::Rust, true)),
            },
        },
        WorkerKind::Auto => if facts.arch.is_ok() && facts.tokenizer.is_ok() {
            Ok((WorkerKind::Rust, true))
        } else {
            Ok((WorkerKind::Python, false))
        },
    }
}

/// What stops the speculative block of a model that `kind` serves.
pub open spec fn draft_problem(model: ModelConfig, kind: WorkerKind, local: bool) -> Option<
    Problem,
> {
    if model.speculative is None {
        None
    } else if kind != WorkerKind::Rust {
        Some(Problem::SpeculativeNeedsRust)
    } else if !local {
        Some(Problem::DraftNotLocal)
    } else {
        None
    }
}

pub open spec fn needs_rust_reason(worker: WorkerKind) -> Seq<char> {
    if worker == WorkerKind::Python {
        "worker = \"python\" is configured"@
    } else {
        "worker = \"auto\" resolved to python"@
    }
}

/// Resolves the speculative block to a local draft directory. Speculation is
/// a capability of the Rust worker, so a block on a model that Python serves
/// is an error, never dropped silently.
pub fn resolve_draft(
    model: &ModelConfig,
    worker_kind: WorkerKind,
    draft_is_local: bool,
    home: Option<&str>,
) -> (r: Result<Option<String>, RegistryError>)
    ensures
        match r {
            Ok(None) => model.speculative is None,
            Ok(Some(path)) => model.speculative is Some && draft_problem(
                *model,
                worker_kind,
                draft_is_local,
            ) is None && path@ == paths::expanded(
                model.speculative->0.draft@,
                paths::opt_str(home),
            ),
            Err(RegistryError::SpeculativeNeedsRust { id, reason }) => draft_problem(
                *model,
                worker_kind,
                draft_is_local,
            ) == Some(Problem::SpeculativeNeedsRust) && id@ == model.id@ && reason@
                == needs_rust_reason(model.worker),
            Err(RegistryError::DraftNotLocal { id, path }) => draft_problem(
                *model,
                worker_kind,
                draft_is_local,
            ) == Some(Problem::DraftNotLocal) && id@ == model.id@ && path@
                == model.speculative->0.draft@,
            Err(_) => false,
        },
{
    match &model.speculative {
        None => Ok(None),
        Some(spec) => {
            if worker_kind != WorkerKind::Rust {
                let reason: String = if model.worker == WorkerKind::Python {
                    "worker = \"python\" is configured".to_owned()
                } else {
                    "worker = \"auto\" resolved to python".to_owned()
                };
                return Err(RegistryError::SpeculativeNeedsRust { id: model.id.clone(), reason });
            }
            if !draft_is_local {
                return Err(
                    RegistryError::DraftNotLocal {
                        id: model.id.clone(),
                        path: spec.draft.clone(),
                    },
                );
            }
            Ok(Some(paths::expand_tilde(spec.draft.as_str(), home)))
        },
    }
}

/// The file name of a model's socket.
pub open spec fn socket_name(model_id: Seq<char>) -> Seq<char> {
    "worker-"@ + paths::hex(
        digest::sha256(vstd::utf8::encode_utf8(model_id)).take(6),
    ) + ".sock"@
}

/// `<runtime_dir>/worker-<model_hash>.sock`. The hash keeps the name safe
/// whatever characters the model id uses.
pub fn socket_path_for(runtime_dir: &str, model_id: &str) -> (r: String)
    ensures
        r@ == paths::joined(runtime_dir@, socket_name(model_id@)),
        socket_name(model_id@).len() == "worker-"@.len() + 12 + ".sock"@.len(),
{
    let d: [u8; 32] = digest::sha256_of(model_id.as_bytes());
    proof {
        paths::lemma_hex_len(d@.take(6));
    }
    let mut name: String = "worker-".to_owned();
    name.append(paths::hex_prefix(&d, 6).as_str());
    name.append(".sock");
    paths::join(runtime_dir, name.as_str())
}

/// Longer socket paths fail at bind time with a confusing error.
pub open spec fn socket_too_long(path: Seq<char>) -> bool {
    vstd::utf8::encode_utf8(path).len() as usize > 100
}

/// What stops a model from being registered under a runtime directory.
pub open spec fn entry_problem(
    model: ModelConfig,
    facts: ModelFacts,
    runtime_dir: Seq<char>,
) -> Option<Problem> {
    if !facts.is_local {
        Some(Problem::NotLocal)
    } else {
        match served_by(model.worker, facts) {
            Err(p) => Some(p),
            Ok(kind) => if draft_problem(model, kind, facts.draft_is_local) is Some {
                draft_problem(model, kind, facts.draft_is_local)
            } else if socket_too_long(paths::joined(runtime_dir, socket_name(model.id@))) {
                Some(Problem::SocketPathTooLong)
            } else if facts.channel is Err {
                Some(Problem::Channel)
            } else {
                None
            },
        }
    }
}

/// What an error says of the model it is about.
pub open spec fn error_ok(
    e: RegistryError,
    model: ModelConfig,
    facts: ModelFacts,
    runtime_dir: Seq<char>,
) -> bool {
    match e {
        RegistryError::NotLocal { id, path } => id@ == model.id@ && path@ == model.path@,
        RegistryError::RustUnsupported { id, reason } => id@ == model.id@ && reason@
            == facts.arch->Err_0@,
        RegistryError::Tokenizer { id, source } => id@ == model.id@ && source@
            == facts.tokenizer->Err_0@,
        RegistryError::Channel { id, source } => id@ == model.id@ && source@
            == facts.channel->Err_0@,
        RegistryError::SocketPathTooLong(path) => path@ == paths::joined(
            runtime_dir,
            socket_name(model.id@),
        ),
        RegistryError::SpeculativeNeedsRust { id, reason } => id@ == model.id@ && reason@
            == needs_rust_reason(model.worker),
        RegistryError::DraftNotLocal { id, path } => id@ == model.id@ && path@
            == model.speculative->0.draft@,
        RegistryError::Duplicate(id) => id@ == model.id@,
    }
}

/// The entry of a model that can be registered.
pub open spec fn entry_ok(
    entry: ModelEntry,
    model: ModelConfig,
    facts: ModelFacts,
    runtime_dir: Seq<char>,
    home: Option<Seq<char>>,
    created_unix: u64,
) -> bool {
    &&& entry.id@ == model.id@
    &&& entry.model_path@ == paths::expanded(model.path@, home)
    &&& text::opt_view(entry.draft_path) == (match model.speculative {
        Some(s) => Some(paths::expanded(s.draft@, home)),
        None => None,
    })
    &&& entry.socket_path@ == paths::joined(runtime_dir, socket_name(model.id@))
    &&& entry.config == model
    &&& Ok::<WorkerKind, Problem>(entry.worker_kind) == served_by(model.worker, facts)
    &&& entry.worker_kind != WorkerKind::Auto
    &&& entry.has_tokenizer == (entry.worker_kind == WorkerKind::Rust)
    &&& entry.has_template == facts.has_template
    &&& entry.created_unix == created_unix
}

/// The entry of one model, or why it cannot be registered.
pub fn build_entry(
    model: &ModelConfig,
    facts: &ModelFacts,
    runtime_dir: &str,
    home: Option<&str>,
    created_unix: u64,
) -> (r: Result<ModelEntry, RegistryError>)
    ensures
        match r {
            Ok(entry) => entry_problem(*model, *facts, runtime_dir@) is None && entry_ok(
                entry,
                *model,
                *facts,
                runtime_dir@,
                paths::opt_str(home),
                created_unix,
            ),
            Err(e) => entry_problem(*model, *facts, runtime_dir@) == Some(e.problem())
                && error_ok(e, *model, *facts, runtime_dir@),
        },
{
    if !facts.is_local {
        return Err(
            RegistryError::NotLocal { id: model.id.clone(), path: model.path.clone() },
        );
    }
    let (worker_kind, has_tokenizer) = match resolve_worker(model, facts) {
        Ok(x) => x,
        Err(e) => return Err(e),
    };
    let draft_path: Option<String> = match resolve_draft(
        model,
        worker_kind,
        facts.draft_is_local,
        home,
    ) {
        Ok(x) => x,
        Err(e) => return Err(e),
    };
    let socket_path: String = socket_path_for(runtime_dir, model.id.as_str());
    if socket_path.as_str().len() > 100 {
        return Err(RegistryError::SocketPathTooLong(socket_path));
    }
    if let Err(source) = &facts.channel {
        return Err(RegistryError::Channel { id: model.id.clone(), source: source.clone() });
    }
    Ok(
        ModelEntry {
            id: model.id.clone(),
            model_path: paths::expand_tilde(model.path.as_str(), home),
            draft_path,
            socket_path,
            config: model.duplicate(),
            worker_kind,
            has_tokenizer,
            has_template: facts.has_template,
            created_unix,
        },
    )
}

impl Registry {
    /// No two entries share an id.
    pub open spec fn wf(self) -> bool {
        forall|i: int, j: int|
            0 <= i < j < self.entries@.len() ==> (#[trigger] self.entries@[i]).id@ != (
            #[trigger] self.entries@[j]).id@
    }

    pub open spec fn has(self, id: Seq<char>) -> bool {
        exists|i: int| 0 <= i < self.entries@.len() && (#[trigger] self.entries@[i]).id@ == id
    }

    /// The entry at `i` is the one that an id names: the last that has it.
    pub open spec fn finds(self, i: int, id: Seq<char>) -> bool {
        &&& 0 <= i < self.entries@.len()
        &&& self.entries@[i].id@ == id
        &&& forall|j: int| i < j < self.entries@.len() ==> (#[trigger] self.entries@[j]).id@ != id
    }

    /// An entry before the one at `i` has its id.
    pub open spec fn repeats(self, i: int) -> bool {
        exists|j: int| 0 <= j < i && (#[trigger] self.entries@[j]).id@ == self.entries@[i].id@
    }

    /// Builds entries for every configured model, in order; the first model
    /// that cannot be registered stops it. Of models with one id, all have
    /// entries.
    pub fn from_config(
        config: &KilnConfig,
        facts: &Vec<ModelFacts>,
        home: Option<&str>,
        created_unix: u64,
    ) -> (r: Result<Self, RegistryError>)
        requires
            facts@.len() == config.models@.len(),
        ensures
            match r {
                Ok(registry) => {
                    let dir = paths::expanded(config.server.runtime_dir@, paths::opt_str(home));
                    &&& registry.entries@.len() == config.models@.len()
                    &&& forall|i: int|
                        0 <= i < config.models@.len() ==> entry_problem(
                            #[trigger] config.models@[i],
                            facts@[i],
                            dir,
                        ) is None
                    &&& forall|i: int|
                        0 <= i < config.models@.len() ==> entry_ok(
                            #[trigger] registry.entries@[i],
                            config.models@[i],
                            facts@[i],
                            dir,
                            paths::opt_str(home),
                            created_unix,
                        )
                },
                Err(e) => {
                    let dir = paths::expanded(config.server.runtime_dir@, paths::opt_str(home));
                    exists|i: int|
                        {
                            &&& 0 <= i < config.models@.len()
                            &&& entry_problem(#[trigger] config.models@[i], facts@[i], dir)
                                == Some(e.problem())
                            &&& error_ok(e, config.models@[i], facts@[i], dir)
                            &&& forall|j: int|
                                0 <= j < i ==> entry_problem(
                                    #[trigger] config.models@[j],
                                    facts@[j],
                                    dir,
                                ) is None
                        }
                },
            },
    {
        let dir: String = paths::expand_tilde(config.server.runtime_dir.as_str(), home);
        let mut registry: Registry = Registry { entries: Vec::new() };
        let mut i: usize = 0;
        while i < config.models.len()
            invariant
                i <= config.models@.len(),
                facts@.len() == config.models@.len(),
                dir@ == paths::expanded(config.server.runtime_dir@, paths::opt_str(home)),
                registry.entries@.len() == i,
                forall|j: int|
                    0 <= j < i ==> entry_problem(
                        #[trigger] config.models@[j],
                        facts@[j],
                        dir@,
                    ) is None,
                forall|j: int|
                    0 <= j < i ==> entry_ok(
                        #[trigger] registry.entries@[j],
                        config.models@[j],
                        facts@[j],
                        dir@,
                        paths::opt_str(home),
                        created_unix,
                    ),
            decreases config.models@.len() - i,
        {
            match build_entry(&config.models[i], &facts[i], dir.as_str(), home, created_unix) {
                Err(e) => {
                    assert(entry_problem(config.models@[i as int], facts@[i as int], dir@) == Some(
                        e.problem(),
                    ));
                    return Err(e);
                },
                Ok(entry) => registry.entries.push(entry),
            }
            i = i + 1;
        }
        Ok(registry)
    }

    /// The first entry whose id an entry before it has.
    pub fn first_repeat(&self) -> (r: Option<usize>)
        ensures
            match r {
                None => self.wf(),
                Some(i) => {
                    &&& i < self.entries@.len()
                    &&& self.repeats(i as int)
                    &&& forall|k: int| 0 <= k < i ==> !#[trigger] self.repeats(k)
                },
            },
    {
        let mut i: usize = 0;
        while i < self.entries.len()
            invariant
                i <= self.entries@.len(),
                forall|k: int| 0 <= k < i ==> !#[trigger] self.repeats(k),
            decreases self.entries@.len() - i,
        {
            let mut j: usize = 0;
            while j < i
                invariant
                    j <= i < self.entries@.len(),
                    forall|k: int| 0 <= k < i ==> !#[trigger] self.repeats(k),
                    forall|k: int|
                        0 <= k < j ==> (#[trigger] self.entries@[k]).id@
                            != self.entries@[i as int].id@,
                decreases i - j,
            {
                if text::same(self.entries[j].id.as_str(), self.entries[i].id.as_str()) {
                    assert(self.entries@[j as int].id@ == self.entries@[i as int].id@);
                    return Some(i);
                }
                j = j + 1;
            }
            i = i + 1;
        }
        assert forall|a: int, b: int| 0 <= a < b < self.entries@.len() implies (
        #[trigger] self.entries@[a]).id@ != (#[trigger] self.entries@[b]).id@ by {
            assert(!self.repeats(b));
        }
        None
    }

    /// Adds an entry; an id that is registered already is refused, never
    /// overwritten.
    pub fn insert(&mut self, entry: ModelEntry) -> (r: Result<(), RegistryError>)
        requires
            old(self).wf(),
        ensures
            final(self).wf(),
            match r {
                Ok(()) => !old(self).has(entry.id@) && final(self).entries@
                    == old(self).entries@.push(entry),
                Err(RegistryError::Duplicate(id)) => old(self).has(entry.id@) && id@ == entry.id@
                    && final(self).entries@ == old(self).entries@,
                Err(_) => false,
            },
    {
        if self.position(entry.id.as_str()).is_some() {
            return Err(RegistryError::Duplicate(entry.id));
        }
        let ghost before = self.entries@;
        self.entries.push(entry);
        assert forall|i: int, j: int| 0 <= i < j < self.entries@.len() implies (
        #[trigger] self.entries@[i]).id@ != (#[trigger] self.entries@[j]).id@ by {
            assert(self.entries@[i] == before[i]);
            if j < before.len() {
                assert(self.entries@[j] == before[j]);
            }
        }
        Ok(())
    }

    /// Where a model's entry stands: the last with that id.
    pub fn position(&self, id: &str) -> (r: Option<usize>)
        ensures
            match r {
                Some(i) => self.finds(i as int, id@) && self.has(id@),
                None => !self.has(id@),
            },
    {
        let mut i: usize = self.entries.len();
        while i > 0
            invariant
                i <= self.entries@.len(),
                forall|j: int|
                    i <= j < self.entries@.len() ==> (#[trigger] self.entries@[j]).id@ != id@,
            decreases i,
        {
            i = i - 1;
            if text::same(self.entries[i].id.as_str(), id) {
                assert(self.entries@[i as int].id@ == id@);
                return Some(i);
            }
        }
        None
    }

    /// The entry of a model: the last with that id.
    pub fn get(&self, id: &str) -> (r: Option<&ModelEntry>)
        ensures
            match r {
                Some(entry) => exists|i: int| #[trigger]
                    self.finds(i, id@) && *entry == self.entries@[i],
                None => !self.has(id@),
            },
    {
        match self.position(id) {
            Some(i) => {
                assert(self.finds(i as int, id@));
                Some(&self.entries[i])
            },
            None => None,
        }
    }

    pub fn is_empty(&self) -> (r: bool)
        ensures
            r == (self.entries@.len() == 0),
    {
        self.entries.len() == 0
    }
}

/// An error says which model or socket it is about, and why.
pub proof fn law_errors_say_what_stopped(
    id: String,
    detail: String,
)
    ensures
        (RegistryError::NotLocal { id, path: detail }).spec_message() == "model '"@ + id@
            + "': path '"@ + detail@
            + "' is not a local model directory (config.json missing); model downloads arrive with kiln-jobs (Phase 10) — fetch it first"@,
        (RegistryError::RustUnsupported { id, reason: detail }).spec_message() == "model '"@ + id@
            + "': the rust worker cannot serve this model ("@ + detail@
            + "); set worker = \"python\""@,
        (RegistryError::Tokenizer { id, source: detail }).spec_message() == "model '"@ + id@
            + "': failed to load tokenizer.json for gateway-side tokenization: "@ + detail@,
        (RegistryError::Channel { id, source: detail }).spec_message() == "model '"@ + id@
            + "': failed to build worker channel: "@ + detail@,
        RegistryError::SocketPathTooLong(detail).spec_message() == "socket path '"@ + detail@
            + "' exceeds the macOS UDS path limit (104 bytes); shorten server.runtime_dir"@,
        (RegistryError::DraftNotLocal { id, path: detail }).spec_message() == "model '"@ + id@
            + "': speculative draft '"@ + detail@
            + "' is not a local model directory (config.json missing); model downloads arrive with kiln-jobs (Phase 10) — fetch it first"@,
        RegistryError::Duplicate(id).spec_message() == "a model with id '"@ + id@
            + "' is already registered"@,
        (RegistryError::SpeculativeNeedsRust { id, reason: detail }).spec_message() == "model '"@
            + id@
            + "': [model.speculative] requires the rust worker, but this model is served by the python worker ("@
            + detail@
            + "); speculative decoding is a rust-worker capability — remove the speculative block or make the model rust-servable"@,
{
}

/// Each kind of error stands for its own problem.
pub proof fn law_errors_stand_for_their_problem(e: RegistryError)
    ensures
        e is NotLocal <==> e.problem() is NotLocal,
        e is RustUnsupported <==> e.problem() is RustUnsupported,
        e is Tokenizer <==> e.problem() is Tokenizer,
        e is Channel <==> e.problem() is Channel,
        e is SocketPathTooLong <==> e.problem() is SocketPathTooLong,
        e is SpeculativeNeedsRust <==> e.problem() is SpeculativeNeedsRust,
        e is DraftNotLocal <==> e.problem() is DraftNotLocal,
        e is Duplicate <==> e.problem() is Duplicate,
{
}

/// The Rust worker serves a model where it can and Python was not asked for; `auto`
/// falls back to Python and never fails; `rust` says what it lacks; and what was
/// resolved is one of the two.
pub proof fn law_workers_are_resolved(worker: WorkerKind, facts: ModelFacts)
    ensures
        served_by(WorkerKind::Python, facts) == Ok::<WorkerKind, Problem>(WorkerKind::Python),
        facts.arch is Ok && facts.tokenizer is Ok && worker != WorkerKind::Python ==> served_by(
            worker,
            facts,
        ) == Ok::<WorkerKind, Problem>(WorkerKind::Rust),
        facts.arch is Err || facts.tokenizer is Err ==> served_by(WorkerKind::Auto, facts) == Ok::<
            WorkerKind,
            Problem,
        >(WorkerKind::Python),
        facts.arch is Err ==> served_by(WorkerKind::Rust, facts) == Err::<WorkerKind, Problem>(
            Problem::RustUnsupported,
        ),
        facts.arch is Ok && facts.tokenizer is Err ==> served_by(WorkerKind::Rust, facts) == Err::<
            WorkerKind,
            Problem,
        >(Problem::Tokenizer),
        served_by(worker, facts) != Ok::<WorkerKind, Problem>(WorkerKind::Auto),
{
}

/// A speculative block needs the Rust worker and a draft on this machine; without a
/// block nothing is needed.
pub proof fn law_drafts_need_the_rust_worker(model: ModelConfig, kind: WorkerKind, local: bool)
    ensures
        model.speculative is None ==> draft_problem(model, kind, local) is None,
        model.speculative is Some && kind != WorkerKind::Rust ==> draft_problem(model, kind, local)
            == Some(Problem::SpeculativeNeedsRust),
        model.speculative is Some && kind == WorkerKind::Rust ==> draft_problem(model, kind, true)
            is None,
        model.speculative is Some && kind == WorkerKind::Rust ==> draft_problem(model, kind, false)
            == Some(Problem::DraftNotLocal),
        needs_rust_reason(WorkerKind::Python) == "worker = \"python\" is configured"@,
        needs_rust_reason(WorkerKind::Auto) == "worker = \"auto\" resolved to python"@,
{
}

/// A socket is named `worker-`, the first six bytes of the digest of the model's id in
/// hexadecimal, and `.sock`.
pub proof fn law_sockets_are_named_by_the_digest(model_id: Seq<char>)
    ensures
        ({
            let name = socket_name(model_id);
            let d = digest::sha256(vstd::utf8::encode_utf8(model_id)).take(6);
            &&& name.take(7) == "worker-"@
            &&& name.skip(7).take(name.len() - 12) == paths::hex(d)
            &&& name.skip(name.len() - 5) == ".sock"@
        }),
{
    reveal_strlit("worker-");
    reveal_strlit(".sock");
    let name = socket_name(model_id);
    let d = digest::sha256(vstd::utf8::encode_utf8(model_id)).take(6);
    assert(name.take(7) =~= "worker-"@);
    assert(name.skip(7).take(name.len() - 12) =~= paths::hex(d));
    assert(name.skip(name.len() - 5) =~= ".sock"@);
}

/// A socket path may have a hundred bytes and no more.
pub proof fn law_socket_paths_have_a_limit(path: Seq<char>)
    requires
        vstd::utf8::encode_utf8(path).len() <= usize::MAX,
    ensures
        socket_too_long(path) <==> vstd::utf8::encode_utf8(path).len() > 100,
{
}

/// A model can be registered where its files are on this machine, a worker can serve it,
/// its draft is in order, its socket path is short enough and its channel can be built.
pub proof fn law_models_in_order_are_registered(
    model: ModelConfig,
    facts: ModelFacts,
    runtime_dir: Seq<char>,
)
    ensures
        entry_problem(model, facts, runtime_dir) is None <==> {
            &&& facts.is_local
            &&& served_by(model.worker, facts) is Ok
            &&& draft_problem(
                model,
                served_by(model.worker, facts)->Ok_0,
                facts.draft_is_local,
            ) is None
            &&& !socket_too_long(paths::joined(runtime_dir, socket_name(model.id@)))
            &&& facts.channel is Ok
        },
{
}

/// The first thing that is wrong with a model is told: its files, then its worker, then
/// its draft, then its socket, then its channel.
pub proof fn law_the_first_problem_is_told(
    model: ModelConfig,
    facts: ModelFacts,
    runtime_dir: Seq<char>,
)
    ensures
        !facts.is_local ==> entry_problem(model, facts, runtime_dir) == Some(Problem::NotLocal),
        facts.is_local && served_by(model.worker, facts) is Err ==> entry_problem(
            model,
            facts,
            runtime_dir,
        ) == Some(served_by(model.worker, facts)->Err_0),
        facts.is_local && served_by(model.worker, facts) is Ok ==> {
            let d = draft_problem(
                model,
                served_by(model.worker, facts)->Ok_0,
                facts.draft_is_local,
            );
            let long = socket_too_long(paths::joined(runtime_dir, socket_name(model.id@)));
            &&& d is Some ==> entry_problem(model, facts, runtime_dir) == d
            &&& d is None && long ==> entry_problem(model, facts, runtime_dir) == Some(
                Problem::SocketPathTooLong,
            )
            &&& d is None && !long && facts.channel is Err ==> entry_problem(
                model,
                facts,
                runtime_dir,
            ) == Some(Problem::Channel)
        },
{
}

/// An entry is its model's: its id, its expanded paths, its own socket under the runtime
/// directory, its settings, and the worker that was resolved, whose tokenizer the gateway
/// holds where it is Rust.
pub proof fn law_entries_are_their_models(
    entry: ModelEntry,
    model: ModelConfig,
    facts: ModelFacts,
    runtime_dir: Seq<char>,
    home: Option<Seq<char>>,
    created_unix: u64,
)
    requires
        entry_ok(entry, model, facts, runtime_dir, home, created_unix),
    ensures
        entry.id@ == model.id@,
        entry.config == model,
        entry.model_path@ == paths::expanded(model.path@, home),
        entry.draft_path is Some <==> model.speculative is Some,
        model.speculative is Some ==> entry.draft_path->0@ == paths::expanded(
            model.speculative->0.draft@,
            home,
        ),
        entry.socket_path@ == paths::joined(runtime_dir, socket_name(model.id@)),
        served_by(model.worker, facts) == Ok::<WorkerKind, Problem>(entry.worker_kind),
        entry.worker_kind == WorkerKind::Rust ==> entry.has_tokenizer,
        entry.worker_kind == WorkerKind::Python ==> !entry.has_tokenizer,
        entry.has_template == facts.has_template,
        entry.created_unix == created_unix,
{
}

/// An error carries the model's own id and the reason that was found.
pub proof fn law_errors_carry_what_was_found(
    e: RegistryError,
    model: ModelConfig,
    facts: ModelFacts,
    runtime_dir: Seq<char>,
)
    requires
        error_ok(e, model, facts, runtime_dir),
    ensures
        match e {
            RegistryError::NotLocal { id, path } => id@ == model.id@ && path@ == model.path@,
            RegistryError::RustUnsupported { id, reason } => id@ == model.id@ && reason@
                == facts.arch->Err_0@,
            RegistryError::Tokenizer { id, source } => id@ == model.id@ && source@
                == facts.tokenizer->Err_0@,
            RegistryError::Channel { id, source } => id@ == model.id@ && source@
                == facts.channel->Err_0@,
            RegistryError::SocketPathTooLong(path) => path@ == paths::joined(
                runtime_dir,
                socket_name(model.id@),
            ),
            RegistryError::SpeculativeNeedsRust { id, reason } => id@ == model.id@ && reason@
                == needs_rust_reason(model.worker),
            RegistryError::DraftNotLocal { id, path } => id@ == model.id@ && path@
                == model.speculative->0.draft@,
            RegistryError::Duplicate(id) => id@ == model.id@,
        },
{
}

/// An id names the last entry that has it, and only an entry that has it; where no two
/// share an id, it names that one.
pub proof fn law_ids_name_their_entries(r: Registry, i: int, j: int, id: Seq<char>)
    requires
        0 <= i < r.entries@.len(),
        0 <= j < r.entries@.len(),
    ensures
        r.finds(i, id) ==> r.entries@[i].id@ == id && r.has(id),
        r.finds(i, id) && r.entries@[j].id@ == id ==> j <= i,
        r.entries@[j].id@ == id ==> r.has(id),
        r.wf() && r.entries@[i].id@ == id ==> r.finds(i, id),
        r.wf() && i != j ==> r.entries@[i].id@ != r.entries@[j].id@,
        j < i && r.entries@[j].id@ == r.entries@[i].id@ ==> r.repeats(i),
        r.wf() ==> !r.repeats(i),
{
}

/// An id that no entry has is not registered.
pub proof fn law_unknown_ids_are_not_registered(r: Registry, id: Seq<char>, i: int)
    requires
        forall|k: int| 0 <= k < r.entries@.len() ==> (#[trigger] r.entries@[k]).id@ != id,
    ensures
        !r.has(id),
        !r.finds(i, id),
{
}

} // verus!
