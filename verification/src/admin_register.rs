//! Runtime model registration and the add-model memory estimate.
//!
//! A registration persists the model's block to the configuration file first
//! and publishes the model second, so that a failed write leaves the gateway
//! as it was. A model that is not on disk is not registered: the answer names
//! what to download and where, and the retried request finds the files there.

use crate::admin_models;
use crate::app;
use crate::config::KilnConfig;
use crate::config::ModelConfig;
use crate::config::WorkerKind;
use crate::config_write;
use crate::config_write::PersistError;
use crate::error;
use crate::error::ApiError;
use crate::error::ApiErrorView;
use crate::json;
use crate::json::JsonView;
use crate::json::NumberView;
use crate::lifecycle;
use crate::lifecycle::Ledger;
use crate::lifecycle::Lifecycle;
use crate::lifecycle::ModelFile;
use crate::paths;
use crate::registry;
use crate::registry::ModelEntry;
use crate::registry::ModelFacts;
use crate::registry::Registry;
use crate::registry::RegistryError;
use crate::scan;
use crate::status::UnloadReason;
use crate::status::WorkerStatus;
use crate::supervisor;
use crate::sysmem::SystemMemory;
use crate::text;
use serde_json::Value;
use vstd::prelude::*;
use vstd::string::*;

verus! {

/// How long a hub request may take: an estimate never hangs the dashboard.
pub const HUB_TIMEOUT_SECS: u64 = 20;

/// Where new models are written and looked for.
#[derive(Debug)]
pub struct Registrar {
    pub config_path: String,
    /// Where the sockets of new entries are bound.
    pub runtime_dir: String,
    /// Where downloads land.
    pub model_dir: String,
}

/// Where a path leads: a servable directory, a repo whose files are not on
/// disk, or nothing usable.
#[derive(Debug)]
pub enum Resolution {
    Local(String),
    NotDownloaded { repo: String, dest: String },
    Invalid(String),
}

/// The mathematical value of a [`Resolution`].
pub enum ResolutionView {
    Local(Seq<char>),
    NotDownloaded { repo: Seq<char>, dest: Seq<char> },
    Invalid(Seq<char>),
}

impl View for Resolution {
    type V = ResolutionView;

    open spec fn view(&self) -> ResolutionView {
        match *self {
            Resolution::Local(dir) => ResolutionView::Local(dir@),
            Resolution::NotDownloaded { repo, dest } => ResolutionView::NotDownloaded {
                repo: repo@,
                dest: dest@,
            },
            Resolution::Invalid(message) => ResolutionView::Invalid(message@),
        }
    }
}

/// Where the slash of a repo id stands.
pub open spec fn slash(path: Seq<char>) -> int {
    scan::find_char(path, '/', 0)
}

/// The shape of a repo id: one slash between two non-empty halves, and nothing
/// path-like in front.
pub open spec fn repo_shaped(path: Seq<char>) -> bool {
    &&& 0 < slash(path) < path.len() - 1
    &&& forall|i: int| slash(path) < i < path.len() ==> path[i] != '/'
    &&& path[0] != '.'
    &&& path[0] != '~'
}

/// The directory name a repo's download gets.
pub open spec fn dest_name(repo: Seq<char>) -> Seq<char> {
    repo.subrange(0, slash(repo)) + "--"@ + repo.subrange(slash(repo) + 1, repo.len() as int)
}

/// The path itself, where it has the `org/name` shape of a Hugging Face repo
/// id.
pub fn hf_repo_shaped(path: &str) -> (r: Option<&str>)
    ensures
        match r {
            Some(repo) => repo_shaped(path@) && repo@ == path@,
            None => !repo_shaped(path@),
        },
{
    let v: Vec<char> = text::chars_of(path);
    let at: usize = scan::position(&v, '/', 0);
    proof {
        scan::lemma_find_char(path@, '/', 0);
    }
    if at >= v.len() {
        return None;
    }
    if at == 0 || at + 1 >= v.len() {
        return None;
    }
    let next: usize = scan::position(&v, '/', at + 1);
    proof {
        scan::lemma_find_char(path@, '/', at + 1);
    }
    if next < v.len() {
        return None;
    }
    if v[0] == '.' || v[0] == '~' {
        return None;
    }
    Some(path)
}

fn dest_name_of(repo: &str) -> (r: String)
    requires
        repo_shaped(repo@),
    ensures
        r@ == dest_name(repo@),
{
    let v: Vec<char> = text::chars_of(repo);
    let at: usize = scan::position(&v, '/', 0);
    let mut name: String = text::string_of_range(&v, 0, at);
    name.append("--");
    let n: usize = v.len();
    assert(at < n);
    name.append(text::string_of_range(&v, at + 1, n).as_str());
    name
}

/// Where the files of a repo are looked for.
pub open spec fn dest_of(model_dir: Seq<char>, repo: Seq<char>) -> Seq<char> {
    paths::joined(model_dir, dest_name(repo))
}

/// Where a path leads, given which of the two candidate directories hold a
/// model configuration.
pub open spec fn resolution(
    path: Seq<char>,
    model_dir: Seq<char>,
    home: Option<Seq<char>>,
    local_has_config: bool,
    dest_has_config: bool,
) -> ResolutionView {
    if local_has_config {
        ResolutionView::Local(paths::expanded(path, home))
    } else if repo_shaped(path) {
        if dest_has_config {
            ResolutionView::Local(dest_of(model_dir, path))
        } else {
            ResolutionView::NotDownloaded { repo: path, dest: dest_of(model_dir, path) }
        }
    } else {
        ResolutionView::Invalid(
            "path '"@ + path
                + "' is neither a local model directory (no config.json there) nor an org/name Hugging Face repo id"@,
        )
    }
}

impl Registrar {
    pub fn new(config: &KilnConfig, config_path: String, home: Option<&str>) -> (r: Self)
        ensures
            r.config_path == config_path,
            r.runtime_dir@ == paths::expanded(config.server.runtime_dir@, paths::opt_str(home)),
            r.model_dir@ == paths::expanded(config.server.model_dir@, paths::opt_str(home)),
    {
        Registrar {
            config_path,
            runtime_dir: paths::expand_tilde(config.server.runtime_dir.as_str(), home),
            model_dir: paths::expand_tilde(config.server.model_dir.as_str(), home),
        }
    }

    /// The files whose presence decides where a path leads: the configuration
    /// in the path itself, and the one in the download directory of a repo.
    pub fn candidates(&self, path: &str, home: Option<&str>) -> (r: (String, Option<String>))
        ensures
            r.0@ == paths::joined(paths::expanded(path@, paths::opt_str(home)), "config.json"@),
            match r.1 {
                Some(p) => repo_shaped(path@) && p@ == paths::joined(
                    dest_of(self.model_dir@, path@),
                    "config.json"@,
                ),
                None => !repo_shaped(path@),
            },
    {
        let dir: String = paths::expand_tilde(path, home);
        let local: String = paths::join(dir.as_str(), "config.json");
        match hf_repo_shaped(path) {
            Some(repo) => {
                let dest: String = paths::join(
                    self.model_dir.as_str(),
                    dest_name_of(repo).as_str(),
                );
                (local, Some(paths::join(dest.as_str(), "config.json")))
            },
            None => (local, None),
        }
    }

    /// Where `path` leads.
    pub fn resolve(
        &self,
        path: &str,
        home: Option<&str>,
        local_has_config: bool,
        dest_has_config: bool,
    ) -> (r: Resolution)
        ensures
            r@ == resolution(
                path@,
                self.model_dir@,
                paths::opt_str(home),
                local_has_config,
                dest_has_config,
            ),
    {
        if local_has_config {
            return Resolution::Local(paths::expand_tilde(path, home));
        }
        if let Some(repo) = hf_repo_shaped(path) {
            let dest: String = paths::join(self.model_dir.as_str(), dest_name_of(repo).as_str());
            if dest_has_config {
                return Resolution::Local(dest);
            }
            return Resolution::NotDownloaded { repo: repo.to_owned(), dest };
        }
        let mut m: String = "path '".to_owned();
        m.append(path);
        m.append(
            "' is neither a local model directory (no config.json there) nor an org/name Hugging Face repo id",
        );
        Resolution::Invalid(m)
    }
}

/// The error of a hub that cannot be used.
pub open spec fn hub_unavailable(message: Seq<char>) -> ApiErrorView {
    error::plain(502, "server_error"@, "hub_unavailable"@, message)
}

/// The error of a hub that cannot be used.
pub fn hub_error(message: String) -> (r: ApiError)
    ensures
        r@ == hub_unavailable(message@),
{
    ApiError {
        status: 502,
        error_type: "server_error",
        code: "hub_unavailable",
        message,
        retry_after: None,
    }
}

/// The hub's address: the configured one, without trailing slashes.
pub fn hub_endpoint(configured: Option<&str>) -> (r: String)
    ensures
        r@ == scan::trim_end_char(
            match configured {
                Some(s) => s@,
                None => "https://huggingface.co"@,
            },
            '/',
        ),
{
    let endpoint: String = match configured {
        Some(s) => s.to_owned(),
        None => "https://huggingface.co".to_owned(),
    };
    let v: Vec<char> = text::chars_of(endpoint.as_str());
    text::string_of(&scan::without_trailing(&v, '/'))
}

/// Where the hub tells a repo's current revision.
pub fn revision_url(endpoint: &str, repo: &str) -> (r: String)
    ensures
        r@ == endpoint@ + "/api/models/"@ + repo@ + "/revision/main"@,
{
    let mut url: String = endpoint.to_owned();
    url.append("/api/models/");
    url.append(repo);
    url.append("/revision/main");
    url
}

/// Where the hub lists a revision's files.
pub fn tree_url(endpoint: &str, repo: &str, sha: &str) -> (r: String)
    ensures
        r@ == endpoint@ + "/api/models/"@ + repo@ + "/tree/"@ + sha@ + "?recursive=true"@,
{
    let mut url: String = endpoint.to_owned();
    url.append("/api/models/");
    url.append(repo);
    url.append("/tree/");
    url.append(sha);
    url.append("?recursive=true");
    url
}

/// What came of a hub request.
#[derive(Debug)]
pub enum HubReply {
    /// It could not be made.
    Failed(String),
    /// Its body could not be read.
    Broken { status: u16, source: String },
    Body { status: u16, bytes: Vec<u8> },
}

/// What is wrong with a hub's HTTP status, if anything.
pub open spec fn status_problem(status: u16, repo: Seq<char>) -> Option<ApiErrorView> {
    if status == 404 {
        Some(
            error::invalid_request(
                "repo '"@ + repo + "' not found on the hub (HTTP 404); check the org/name id"@,
            ),
        )
    } else if !(200 <= status < 300) {
        Some(
            hub_unavailable(
                "hub answered HTTP "@ + text::decimal(status as nat) + " for '"@ + repo + "'"@,
            ),
        )
    } else {
        None
    }
}

fn check_status(status: u16, repo: &str) -> (r: Option<ApiError>)
    ensures
        match r {
            Some(e) => status_problem(status, repo@) == Some(e@),
            None => status_problem(status, repo@) is None,
        },
{
    if status == 404 {
        let mut m: String = "repo '".to_owned();
        m.append(repo);
        m.append("' not found on the hub (HTTP 404); check the org/name id");
        return Some(ApiError::invalid_request(m));
    }
    if status < 200 || status >= 300 {
        let mut m: String = "hub answered HTTP ".to_owned();
        text::push_decimal(&mut m, status as u64);
        m.append(" for '");
        m.append(repo);
        m.append("'");
        return Some(hub_error(m));
    }
    None
}

/// What a hub reply is worth: its JSON, or why it has none.
pub open spec fn reply_value(reply: HubReply, repo: Seq<char>) -> Result<JsonView, ApiErrorView> {
    match reply {
        HubReply::Failed(why) => Err(
            hub_unavailable("hub request for '"@ + repo + "' failed: "@ + why@),
        ),
        HubReply::Broken { status, source } => match status_problem(status, repo) {
            Some(e) => Err(e),
            None => Err(hub_unavailable("bad hub response for '"@ + repo + "': "@ + source@)),
        },
        HubReply::Body { status, bytes } => match status_problem(status, repo) {
            Some(e) => Err(e),
            None => match json::parsed_bytes(bytes@) {
                Ok(value) => Ok(value),
                Err(why) => Err(hub_unavailable("bad hub response for '"@ + repo + "': "@ + why)),
            },
        },
    }
}

fn bad_response(repo: &str, why: &str) -> (r: ApiError)
    ensures
        r@ == hub_unavailable("bad hub response for '"@ + repo@ + "': "@ + why@),
{
    let mut m: String = "bad hub response for '".to_owned();
    m.append(repo);
    m.append("': ");
    m.append(why);
    hub_error(m)
}

/// The JSON of a hub reply.
pub fn hub_json(reply: &HubReply, repo: &str) -> (r: Result<Value, ApiError>)
    ensures
        match r {
            Ok(v) => reply_value(*reply, repo@) == Ok::<JsonView, ApiErrorView>(json::contents(v)),
            Err(e) => reply_value(*reply, repo@) == Err::<JsonView, ApiErrorView>(e@),
        },
{
    match reply {
        HubReply::Failed(why) => {
            let mut m: String = "hub request for '".to_owned();
            m.append(repo);
            m.append("' failed: ");
            m.append(why.as_str());
            Err(hub_error(m))
        },
        HubReply::Broken { status, source } => match check_status(*status, repo) {
            Some(e) => Err(e),
            None => Err(bad_response(repo, source.as_str())),
        },
        HubReply::Body { status, bytes } => match check_status(*status, repo) {
            Some(e) => Err(e),
            None => match json::parse_bytes(bytes) {
                Ok(value) => Ok(value),
                Err(why) => Err(bad_response(repo, why.as_str())),
            },
        },
    }
}

/// The commit that a hub's revision answer names.
pub fn revision_sha(revision: &Value, repo: &str) -> (r: Result<String, ApiError>)
    ensures
        match r {
            Ok(sha) => json::str_field(json::contents(*revision), "sha"@) == Some(sha@),
            Err(e) => json::str_field(json::contents(*revision), "sha"@) is None && e@
                == hub_unavailable("hub revision response for '"@ + repo@ + "' has no sha"@),
        },
{
    match json::get_str(revision, "sha") {
        Some(sha) => Ok(sha.to_owned()),
        None => {
            let mut m: String = "hub revision response for '".to_owned();
            m.append(repo);
            m.append("' has no sha");
            Err(hub_error(m))
        },
    }
}

/// The file that an entry of a hub's listing stands for, if it is one.
pub open spec fn file_of(entry: JsonView) -> Option<(Seq<char>, u64)> {
    if json::str_field(entry, "type"@) == Some("file"@) {
        match json::str_field(entry, "path"@) {
            Some(path) => Some(
                (
                    path,
                    match json::u64_field(entry, "size"@) {
                        Some(n) => n,
                        None => 0,
                    },
                ),
            ),
            None => None,
        }
    } else {
        None
    }
}

/// The files among the entries of a hub's listing, in order.
pub open spec fn files_of(entries: Seq<JsonView>) -> Seq<(Seq<char>, u64)>
    decreases entries.len(),
{
    if entries.len() == 0 {
        Seq::empty()
    } else {
        let before = files_of(entries.drop_last());
        match file_of(entries.last()) {
            Some(f) => before.push(f),
            None => before,
        }
    }
}

/// What a list of files holds.
pub open spec fn files_view(files: Seq<ModelFile>) -> Seq<(Seq<char>, u64)> {
    files.map_values(|f: ModelFile| (f.name@, f.len))
}

fn read_file(entry: &Value) -> (r: Option<ModelFile>)
    ensures
        match r {
            Some(f) => file_of(json::contents(*entry)) == Some((f.name@, f.len)),
            None => file_of(json::contents(*entry)) is None,
        },
{
    let is_file: bool = match json::get_str(entry, "type") {
        Some(kind) => text::same(kind, "file"),
        None => false,
    };
    if !is_file {
        return None;
    }
    match json::get_str(entry, "path") {
        Some(path) => Some(
            ModelFile {
                name: path.to_owned(),
                len: match json::get_u64(entry, "size") {
                    Some(n) => n,
                    None => 0,
                },
            },
        ),
        None => None,
    }
}

/// The files a hub's listing names.
pub fn hub_files(tree: &Value, repo: &str) -> (r: Result<Vec<ModelFile>, ApiError>)
    ensures
        match r {
            Ok(files) => {
                &&& json::contents(*tree) is Array
                &&& files_view(files@) == files_of(json::contents(*tree)->Array_0)
            },
            Err(e) => !(json::contents(*tree) is Array) && e@ == hub_unavailable(
                "hub tree response for '"@ + repo@ + "' is not a list"@,
            ),
        },
{
    let entries: &Vec<Value> = match tree.as_array() {
        Some(entries) => entries,
        None => {
            let mut m: String = "hub tree response for '".to_owned();
            m.append(repo);
            m.append("' is not a list");
            return Err(hub_error(m));
        },
    };
    let mut files: Vec<ModelFile> = Vec::new();
    let ghost all = json::list_contents(entries@);
    let mut i: usize = 0;
    assert(files_view(files@) =~= files_of(all.take(0)));
    while i < entries.len()
        invariant
            i <= entries@.len(),
            all == json::list_contents(entries@),
            files_view(files@) == files_of(all.take(i as int)),
        decreases entries@.len() - i,
    {
        let ghost before = files@;
        proof {
            assert(all.take(i + 1).drop_last() =~= all.take(i as int));
            assert(all.take(i + 1).last() == json::contents(entries@[i as int]));
        }
        if let Some(f) = read_file(&entries[i]) {
            files.push(f);
            assert(files_view(files@) =~= files_view(before).push((f.name@, f.len)));
        }
        i = i + 1;
    }
    assert(all.take(i as int) =~= all);
    Ok(files)
}

/// The body of an add request.
#[derive(Debug)]
pub struct AddModelBody {
    pub id: String,
    /// Repo id or local path; the files must be on disk to register.
    pub path: String,
    pub worker: WorkerKind,
    pub pinned: bool,
    pub ttl_seconds: u64,
}

/// What an add request is refused with before its path is looked at, if it is.
pub open spec fn body_problem(body: AddModelBody, registered: bool) -> Option<ApiErrorView> {
    if scan::trim(body.id@).len() == 0 {
        Some(error::invalid_request("id must be non-empty"@))
    } else if scan::trim(body.path@).len() == 0 {
        Some(error::invalid_request("path must be non-empty"@))
    } else if registered {
        Some(
            error::conflict(
                "model_exists"@,
                "a model with id '"@ + body.id@
                    + "' is already registered; removing or replacing one requires editing kiln.toml and restarting"@,
            ),
        )
    } else {
        None
    }
}

/// Whether an add request can be looked at: it names an id and a path, and the
/// id is free.
pub fn open_add(body: &AddModelBody, registry: &Registry) -> (r: Result<(), ApiError>)
    ensures
        match r {
            Ok(()) => body_problem(*body, registry.has(body.id@)) is None,
            Err(e) => body_problem(*body, registry.has(body.id@)) == Some(e@),
        },
{
    let id: Vec<char> = text::chars_of(body.id.as_str());
    if scan::trimmed(&id).len() == 0 {
        return Err(ApiError::invalid_request("id must be non-empty".to_owned()));
    }
    let path: Vec<char> = text::chars_of(body.path.as_str());
    if scan::trimmed(&path).len() == 0 {
        return Err(ApiError::invalid_request("path must be non-empty".to_owned()));
    }
    if registry.position(body.id.as_str()).is_some() {
        let mut m: String = "a model with id '".to_owned();
        m.append(body.id.as_str());
        m.append(
            "' is already registered; removing or replacing one requires editing kiln.toml and restarting",
        );
        return Err(ApiError::conflict("model_exists", m));
    }
    Ok(())
}

/// A text as `{:?}` writes it.
pub uninterp spec fn debug_text(s: Seq<char>) -> Seq<char>;

/// The `Debug` formatting of a string: the text in double quotes with
/// characters escaped as Rust does, which depends on the text alone.
#[verifier::external_body]
fn quoted(s: &str) -> (r: String)
    ensures
        r@ == debug_text(s@),
{
    format!("{:?}", s)
}

/// The message to an operator whose model is not on disk; `quoted_dest` is the
/// destination in quotes.
pub open spec fn not_downloaded_message(repo: Seq<char>, quoted_dest: Seq<char>) -> Seq<char> {
    "model '"@ + repo + "' is not downloaded; submit POST /admin/jobs/download {\"repo\": \""@
        + repo + "\", \"dest\": "@ + quoted_dest
        + "} and retry this request when the job succeeds"@
}

/// The answer to an operator whose model is not on disk: the error envelope,
/// and the coordinates to download with.
pub open spec fn not_downloaded_body(
    repo: Seq<char>,
    dest: Seq<char>,
    quoted_dest: Seq<char>,
) -> JsonView {
    JsonView::Object(
        map![
            "error"@ => JsonView::Object(
                map![
                    "message"@ => JsonView::Str(not_downloaded_message(repo, quoted_dest)),
                    "type"@ => JsonView::Str("invalid_request_error"@),
                    "param"@ => JsonView::Null,
                    "code"@ => JsonView::Str("model_not_downloaded"@)
                ],
            ),
            "download"@ => JsonView::Object(
                map!["repo"@ => JsonView::Str(repo), "dest"@ => JsonView::Str(dest)],
            )
        ],
    )
}

/// The answer to an operator whose model is not on disk, with the destination
/// in quotes given.
pub fn download_answer(repo: &str, dest: &str, quoted_dest: &str) -> (r: Value)
    ensures
        json::contents(r) == not_downloaded_body(repo@, dest@, quoted_dest@),
{
    let mut m: String = "model '".to_owned();
    m.append(repo);
    m.append("' is not downloaded; submit POST /admin/jobs/download {\"repo\": \"");
    m.append(repo);
    m.append("\", \"dest\": ");
    m.append(quoted_dest);
    m.append("} and retry this request when the job succeeds");
    let e: Value = json::with(json::object(), "message", json::string(m.as_str()));
    let e: Value = json::with(e, "type", json::string("invalid_request_error"));
    let e: Value = json::with(e, "param", json::null());
    let e: Value = json::with(e, "code", json::string("model_not_downloaded"));
    let d: Value = json::with(json::object(), "repo", json::string(repo));
    let d: Value = json::with(d, "dest", json::string(dest));
    let o: Value = json::with(json::object(), "error", e);
    let o: Value = json::with(o, "download", d);
    assert(json::contents(o)->Object_0 =~= not_downloaded_body(
        repo@,
        dest@,
        quoted_dest@,
    )->Object_0);
    o
}

/// How an add request goes on once its path is resolved.
#[derive(Debug)]
pub enum AddStep {
    /// Register this model.
    Register(ModelConfig),
    /// Answer with HTTP 409 and this body: download first.
    Download(Value),
    Refuse(ApiError),
}

/// The model that is registered and persisted: at its resolved path, which the
/// next start can load.
pub open spec fn is_model_of(model: ModelConfig, body: AddModelBody, dir: Seq<char>) -> bool {
    &&& model.id@ == body.id@
    &&& model.path@ == dir
    &&& model.worker == body.worker
    &&& model.pinned == body.pinned
    &&& model.ttl_seconds == body.ttl_seconds
    &&& model.speculative is None
}

/// How an add request goes on once its path is resolved.
pub fn after_resolve(body: &AddModelBody, resolved: Resolution) -> (r: AddStep)
    ensures
        match (resolved@, r) {
            (ResolutionView::Local(dir), AddStep::Register(model)) => is_model_of(
                model,
                *body,
                dir,
            ),
            (ResolutionView::NotDownloaded { repo, dest }, AddStep::Download(answer)) =>
                json::contents(answer) == not_downloaded_body(repo, dest, debug_text(dest)),
            (ResolutionView::Invalid(message), AddStep::Refuse(e)) => e@
                == error::invalid_request(message),
            _ => false,
        },
{
    match resolved {
        Resolution::Local(dir) => AddStep::Register(
            ModelConfig {
                id: body.id.clone(),
                path: dir,
                worker: body.worker,
                pinned: body.pinned,
                ttl_seconds: body.ttl_seconds,
                speculative: None,
            },
        ),
        Resolution::NotDownloaded { repo, dest } => {
            let q: String = quoted(dest.as_str());
            AddStep::Download(download_answer(repo.as_str(), dest.as_str(), q.as_str()))
        },
        Resolution::Invalid(message) => AddStep::Refuse(ApiError::invalid_request(message)),
    }
}

/// What a client is told of a model that cannot be registered.
pub open spec fn registry_refusal(e: RegistryError) -> ApiErrorView {
    match e {
        RegistryError::Duplicate(id) => error::conflict(
            "model_exists"@,
            "a model with id '"@ + id@ + "' is already registered"@,
        ),
        RegistryError::Channel { .. } => error::internal(e.spec_message()),
        _ => error::invalid_request(e.spec_message()),
    }
}

/// What a client is told of a model that cannot be registered.
pub fn registry_error_to_api(e: &RegistryError) -> (r: ApiError)
    ensures
        r@ == registry_refusal(*e),
{
    match e {
        RegistryError::Duplicate(id) => {
            let mut m: String = "a model with id '".to_owned();
            m.append(id.as_str());
            m.append("' is already registered");
            ApiError::conflict("model_exists", m)
        },
        RegistryError::Channel { .. } => ApiError::internal(e.message()),
        _ => ApiError::invalid_request(e.message()),
    }
}

/// What a client is told of a configuration file that was not changed.
pub open spec fn persist_refusal(e: PersistError) -> ApiErrorView {
    match e {
        PersistError::DuplicateInFile(_) => error::conflict("config_conflict"@, e.words()),
        _ => error::internal(e.words()),
    }
}

/// What a client is told of a configuration file that was not changed.
pub fn persist_error_to_api(e: &PersistError) -> (r: ApiError)
    ensures
        r@ == persist_refusal(*e),
{
    match e {
        PersistError::DuplicateInFile(_) => ApiError::conflict("config_conflict", e.message()),
        _ => ApiError::internal(e.message()),
    }
}

/// A registration that is ready to be written and published.
#[derive(Debug)]
pub struct AddPlan {
    pub entry: ModelEntry,
    /// The configuration file's new text.
    pub edited: String,
}

/// What is wrong with persisting the model, given what reading the file gave.
pub open spec fn persist_problem(
    e: PersistError,
    path: Seq<char>,
    file: Result<String, String>,
    model: ModelConfig,
) -> bool {
    match file {
        Err(why) => e is Read && e->Read_path@ == path && e->Read_source@ == why@,
        Ok(content) => config_write::edit_problem(e, path, content@, model),
    }
}

/// Builds the entry of a new model and the configuration file that holds it.
/// Nothing is published or written here: a model that cannot be served, or a
/// file that cannot be edited, leaves no trace.
pub fn prepare_add(
    registrar: &Registrar,
    model: &ModelConfig,
    facts: &ModelFacts,
    file: &Result<String, String>,
    home: Option<&str>,
    created_unix: u64,
) -> (r: Result<AddPlan, ApiError>)
    ensures
        ({
            let problem = registry::entry_problem(*model, *facts, registrar.runtime_dir@);
            match r {
                Ok(plan) => {
                    &&& problem is None
                    &&& file is Ok
                    &&& !config_write::holds_model(file->Ok_0@, model.id@)
                    &&& config_write::toml_problem(file->Ok_0@) is None
                    &&& model.ttl_seconds <= i64::MAX
                    &&& config_write::model_printable(*model)
                    &&& !config_write::blocked(
                        config_write::toml_item(file->Ok_0@, "model"@),
                    )
                    &&& config_write::toml_problem(plan.edited@) is None
                        ==> config_write::appended(file->Ok_0@, plan.edited@, *model)
                    &&& config_write::plainly_written(file->Ok_0@)
                        ==> config_write::keeps_lines(file->Ok_0@, plan.edited@)
                    &&& plan.edited@ == config_write::toml_printed(
                        file->Ok_0@,
                        seq![("model"@, config_write::model_fields(*model))],
                    )
                    &&& registry::entry_ok(
                        plan.entry,
                        *model,
                        *facts,
                        registrar.runtime_dir@,
                        paths::opt_str(home),
                        created_unix,
                    )
                },
                Err(err) => if problem is Some {
                    exists|e: RegistryError|
                        {
                            &&& #[trigger] registry_refusal(e) == err@
                            &&& problem == Some(e.problem())
                            &&& registry::error_ok(e, *model, *facts, registrar.runtime_dir@)
                        }
                } else {
                    exists|e: PersistError|
                        {
                            &&& #[trigger] persist_refusal(e) == err@
                            &&& persist_problem(e, registrar.config_path@, *file, *model)
                        }
                },
            }
        }),
{
    let entry: ModelEntry = match registry::build_entry(
        model,
        facts,
        registrar.runtime_dir.as_str(),
        home,
        created_unix,
    ) {
        Ok(entry) => entry,
        Err(e) => {
            let err: ApiError = registry_error_to_api(&e);
            assert(registry_refusal(e) == err@);
            return Err(err);
        },
    };
    let content: &String = match file {
        Ok(content) => content,
        Err(why) => {
            let e: PersistError = PersistError::Read {
                path: registrar.config_path.clone(),
                source: why.clone(),
            };
            let err: ApiError = persist_error_to_api(&e);
            assert(persist_refusal(e) == err@);
            return Err(err);
        },
    };
    match config_write::append_model(registrar.config_path.as_str(), content.as_str(), model) {
        Ok(edited) => Ok(AddPlan { entry, edited }),
        Err(e) => {
            let err: ApiError = persist_error_to_api(&e);
            assert(persist_refusal(e) == err@);
            Err(err)
        },
    }
}

/// The answer to a registration.
pub open spec fn added_body(entry: ModelEntry, l: Ledger, config_path: Seq<char>) -> JsonView {
    JsonView::Object(
        map![
            "model"@ => JsonView::Object(admin_models::model_row(entry, l)),
            "persisted_to"@ => JsonView::Str(config_path)
        ],
    )
}

/// Publishes a model whose block is on disk: it gets its registry entry and
/// its lifecycle slot, in which nothing runs until a load is asked for. An id
/// that is taken is refused, and what is there stays.
pub fn publish(
    registrar: &Registrar,
    registry: &mut Registry,
    ledger: &mut Lifecycle,
    entry: ModelEntry,
) -> (r: Result<Value, ApiError>)
    requires
        old(registry).wf(),
        old(ledger).wf(),
    ensures
        final(registry).wf(),
        final(ledger).wf(),
        match r {
            Ok(body) => {
                &&& !old(registry).has(entry.id@)
                &&& !old(ledger)@.has(entry.id@)
                &&& final(registry).entries@ == old(registry).entries@.push(entry)
                &&& final(ledger)@.slots.drop_last() == old(ledger)@.slots
                &&& final(ledger)@.has(entry.id@)
                &&& final(ledger)@.slot(entry.id@) == final(ledger)@.slots.last()
                &&& final(ledger)@ == (Ledger { slots: final(ledger)@.slots, ..old(ledger)@ })
                &&& lifecycle::is_fresh_slot(
                    final(ledger)@.slots.last(),
                    entry.id@,
                    WorkerStatus::Unloaded { reason: UnloadReason::Registered },
                    entry.config.pinned,
                    entry.config.ttl_seconds,
                )
                &&& json::contents(body) == added_body(
                    entry,
                    final(ledger)@,
                    registrar.config_path@,
                )
            },
            Err(e) => {
                &&& final(ledger)@ == old(ledger)@
                &&& if old(registry).has(entry.id@) {
                    &&& final(registry).entries@ == old(registry).entries@
                    &&& e@ == error::conflict(
                        "model_exists"@,
                        "a model with id '"@ + entry.id@ + "' is already registered"@,
                    )
                } else {
                    &&& old(ledger)@.has(entry.id@)
                    &&& final(registry).entries@ == old(registry).entries@.push(entry)
                    &&& e@ == error::internal(
                        "lifecycle slot for '"@ + entry.id@ + "' already exists"@,
                    )
                }
            },
        },
{
    let id: String = entry.id.clone();
    let pinned: bool = entry.config.pinned;
    let ttl_seconds: u64 = entry.config.ttl_seconds;
    let at: usize = registry.entries.len();
    match registry.insert(entry) {
        Ok(()) => {},
        Err(e) => return Err(registry_error_to_api(&e)),
    }
    let ghost before = ledger@;
    let added: bool = ledger.add_slot(
        id.as_str(),
        WorkerStatus::Unloaded { reason: UnloadReason::Registered },
        pinned,
        ttl_seconds,
    );
    if !added {
        let mut m: String = "lifecycle slot for '".to_owned();
        m.append(id.as_str());
        m.append("' already exists");
        return Err(ApiError::internal(m));
    }
    proof {
        let l = ledger@;
        let n = l.slots.len() - 1;
        assert(l.slots[n].id@ == entry.id@);
        assert(l.has(entry.id@));
        assert(l.at(entry.id@) == n) by {
            let k = l.at(entry.id@);
            assert(0 <= k < l.slots.len() && l.slots[k].id@ == entry.id@);
            if k < n {
                assert(before.slots[k] == l.slots.drop_last()[k]);
                assert(before.has(entry.id@));
            }
        }
    }
    let row: Value = admin_models::model_json(&registry.entries[at], ledger);
    let o: Value = json::with(json::object(), "model", row);
    Ok(json::with(o, "persisted_to", json::string(registrar.config_path.as_str())))
}

/// The query of an estimate.
#[derive(Debug)]
pub struct EstimateQuery {
    pub path: String,
}

/// What loading a model of the given weight wants: its bytes and the load
/// overhead, or nothing where there is nothing to load.
pub open spec fn estimated(weights: u64) -> int {
    if weights == 0 {
        0
    } else {
        weights + supervisor::LOAD_OVERHEAD_MARGIN_BYTES
    }
}

/// The room the ledger's charges leave in the budget.
pub open spec fn free_budget(l: Ledger) -> int {
    if l.budget_bytes >= l.charged() {
        l.budget_bytes - l.charged()
    } else {
        0
    }
}

/// Whether the system gate lets the load through: it fails open when it is
/// off or without a reading.
pub open spec fn fits_system(l: Ledger, needed: u64, probe: Option<SystemMemory>) -> bool {
    l.min_available_bytes == 0 || probe is None || l.system_denial(probe->0, needed) is None
}

/// The memory answer before a download or a load: what the model wants against
/// the budget's headroom and the system gate that the load will face.
pub open spec fn estimate_body(
    path: Seq<char>,
    source: Seq<char>,
    weights: u64,
    l: Ledger,
    after: Ledger,
    probe: Option<SystemMemory>,
) -> JsonView {
    let needed = estimated(weights) as u64;
    let charged = if l.charged() <= u64::MAX {
        l.charged() as u64
    } else {
        u64::MAX
    };
    let fits_budget = needed <= free_budget(l);
    JsonView::Object(
        map![
            "path"@ => JsonView::Str(path),
            "source"@ => JsonView::Str(source),
            "weights_bytes"@ => JsonView::Number(NumberView::Unsigned(weights)),
            "estimated_bytes"@ => JsonView::Number(NumberView::Unsigned(needed)),
            "budget_bytes"@ => JsonView::Number(NumberView::Unsigned(l.budget_bytes)),
            "charged_bytes"@ => JsonView::Number(NumberView::Unsigned(charged)),
            "headroom_bytes"@ => JsonView::Number(NumberView::Unsigned(free_budget(l) as u64)),
            "system_available_bytes"@ => json::opt_num(
                match after.system {
                    Some(m) => Some(m.available_bytes),
                    None => None,
                },
            ),
            "pressure_level"@ => json::opt_num(
                match after.system {
                    Some(m) => Some(m.pressure_level as u64),
                    None => None,
                },
            ),
            "min_available_bytes"@ => JsonView::Number(
                NumberView::Unsigned(l.min_available_bytes),
            ),
            "fits_budget"@ => JsonView::Bool(fits_budget),
            "fits_system"@ => JsonView::Bool(fits_system(l, needed, probe)),
            "fits"@ => JsonView::Bool(fits_budget && fits_system(l, needed, probe))
        ],
    )
}

/// Prices a model of the given weight against the live ledger and a fresh
/// system reading, which the ledger keeps.
pub fn estimate_model(
    query: &EstimateQuery,
    source: &'static str,
    weights: u64,
    ledger: &mut Lifecycle,
    probe: Option<SystemMemory>,
    now_ms: u64,
) -> (r: Value)
    requires
        estimated(weights) <= u64::MAX,
        old(ledger)@.sums_fit(),
    ensures
        final(ledger)@ == (if old(ledger)@.min_available_bytes > 0 && probe is Some {
            Ledger { system: probe, probed_at_ms: now_ms, ..old(ledger)@ }
        } else {
            old(ledger)@
        }),
        json::contents(r) == estimate_body(
            query.path@,
            source@,
            weights,
            old(ledger)@,
            final(ledger)@,
            probe,
        ),
{
    let needed: u64 = if weights == 0 {
        0
    } else {
        weights + supervisor::LOAD_OVERHEAD_MARGIN_BYTES
    };
    let budget: u64 = ledger.budget_bytes;
    let charged: u64 = ledger.charged_bytes();
    let headroom: u64 = budget.saturating_sub(charged);
    let floor: u64 = ledger.min_available_bytes;
    let fits_system: bool = ledger.admit_load_system(needed, probe, now_ms).is_ok();
    let (available, pressure) = match ledger.system {
        Some(m) => (Some(m.available_bytes), Some(m.pressure_level as u64)),
        None => (None, None),
    };
    let fits_budget: bool = needed <= headroom;
    let o: Value = json::with(json::object(), "path", json::string(query.path.as_str()));
    let o: Value = json::with(o, "source", json::string(source));
    let o: Value = json::with(o, "weights_bytes", json::unsigned(weights));
    let o: Value = json::with(o, "estimated_bytes", json::unsigned(needed));
    let o: Value = json::with(o, "budget_bytes", json::unsigned(budget));
    let o: Value = json::with(o, "charged_bytes", json::unsigned(charged));
    let o: Value = json::with(o, "headroom_bytes", json::unsigned(headroom));
    let o: Value = json::with(o, "system_available_bytes", json::opt_unsigned(available));
    let o: Value = json::with(o, "pressure_level", json::opt_unsigned(pressure));
    let o: Value = json::with(o, "min_available_bytes", json::unsigned(floor));
    let o: Value = json::with(o, "fits_budget", json::boolean(fits_budget));
    let o: Value = json::with(o, "fits_system", json::boolean(fits_system));
    json::with(o, "fits", json::boolean(fits_budget && fits_system))
}

/// A repo that was not downloaded names the directory it is looked for in:
/// once the files are there, the same path leads to exactly that directory.
pub proof fn law_download_then_add(
    path: Seq<char>,
    model_dir: Seq<char>,
    home: Option<Seq<char>>,
)
    requires
        resolution(path, model_dir, home, false, false) is NotDownloaded,
    ensures
        resolution(path, model_dir, home, false, false)->repo == path,
        resolution(path, model_dir, home, false, true) == ResolutionView::Local(
            resolution(path, model_dir, home, false, false)->dest,
        ),
{
}

/// A model that was just registered can be loaded, and does not unsettle the
/// fleet: its status is one that a load is accepted in and that readiness
/// counts as settled.
pub proof fn law_registered_model_is_loadable(l: Ledger, id: Seq<char>)
    requires
        l.has(id),
        l.slot(id).status == (WorkerStatus::Unloaded { reason: UnloadReason::Registered }),
    ensures
        admin_models::load_refusal(id, app::shown(l, id)) is None,
        app::settled(app::shown(l, id)),
{
}

/// The keys are told apart.
proof fn lemma_estimate_keys()
    ensures
        "path"@ != "source"@,
        "path"@ != "weights_bytes"@,
        "path"@ != "estimated_bytes"@,
        "path"@ != "budget_bytes"@,
        "path"@ != "charged_bytes"@,
        "path"@ != "headroom_bytes"@,
        "path"@ != "system_available_bytes"@,
        "path"@ != "pressure_level"@,
        "path"@ != "min_available_bytes"@,
        "path"@ != "fits_budget"@,
        "path"@ != "fits_system"@,
        "path"@ != "fits"@,
        "source"@ != "weights_bytes"@,
        "source"@ != "estimated_bytes"@,
        "source"@ != "budget_bytes"@,
        "source"@ != "charged_bytes"@,
        "source"@ != "headroom_bytes"@,
        "source"@ != "system_available_bytes"@,
        "source"@ != "pressure_level"@,
        "source"@ != "min_available_bytes"@,
        "source"@ != "fits_budget"@,
        "source"@ != "fits_system"@,
        "source"@ != "fits"@,
        "weights_bytes"@ != "estimated_bytes"@,
        "weights_bytes"@ != "budget_bytes"@,
        "weights_bytes"@ != "charged_bytes"@,
        "weights_bytes"@ != "headroom_bytes"@,
        "weights_bytes"@ != "system_available_bytes"@,
        "weights_bytes"@ != "pressure_level"@,
        "weights_bytes"@ != "min_available_bytes"@,
        "weights_bytes"@ != "fits_budget"@,
        "weights_bytes"@ != "fits_system"@,
        "weights_bytes"@ != "fits"@,
        "estimated_bytes"@ != "budget_bytes"@,
        "estimated_bytes"@ != "charged_bytes"@,
        "estimated_bytes"@ != "headroom_bytes"@,
        "estimated_bytes"@ != "system_available_bytes"@,
        "estimated_bytes"@ != "pressure_level"@,
        "estimated_bytes"@ != "min_available_bytes"@,
        "estimated_bytes"@ != "fits_budget"@,
        "estimated_bytes"@ != "fits_system"@,
        "estimated_bytes"@ != "fits"@,
        "budget_bytes"@ != "charged_bytes"@,
        "budget_bytes"@ != "headroom_bytes"@,
        "budget_bytes"@ != "system_available_bytes"@,
        "budget_bytes"@ != "pressure_level"@,
        "budget_bytes"@ != "min_available_bytes"@,
        "budget_bytes"@ != "fits_budget"@,
        "budget_bytes"@ != "fits_system"@,
        "budget_bytes"@ != "fits"@,
        "charged_bytes"@ != "headroom_bytes"@,
        "charged_bytes"@ != "system_available_bytes"@,
        "charged_bytes"@ != "pressure_level"@,
        "charged_bytes"@ != "min_available_bytes"@,
        "charged_bytes"@ != "fits_budget"@,
        "charged_bytes"@ != "fits_system"@,
        "charged_bytes"@ != "fits"@,
        "headroom_bytes"@ != "system_available_bytes"@,
        "headroom_bytes"@ != "pressure_level"@,
        "headroom_bytes"@ != "min_available_bytes"@,
        "headroom_bytes"@ != "fits_budget"@,
        "headroom_bytes"@ != "fits_system"@,
        "headroom_bytes"@ != "fits"@,
        "system_available_bytes"@ != "pressure_level"@,
        "system_available_bytes"@ != "min_available_bytes"@,
        "system_available_bytes"@ != "fits_budget"@,
        "system_available_bytes"@ != "fits_system"@,
        "system_available_bytes"@ != "fits"@,
        "pressure_level"@ != "min_available_bytes"@,
        "pressure_level"@ != "fits_budget"@,
        "pressure_level"@ != "fits_system"@,
        "pressure_level"@ != "fits"@,
        "min_available_bytes"@ != "fits_budget"@,
        "min_available_bytes"@ != "fits_system"@,
        "min_available_bytes"@ != "fits"@,
        "fits_budget"@ != "fits_system"@,
        "fits_budget"@ != "fits"@,
        "fits_system"@ != "fits"@,
{
    reveal_strlit("path");
    reveal_strlit("source");
    reveal_strlit("weights_bytes");
    reveal_strlit("estimated_bytes");
    reveal_strlit("budget_bytes");
    reveal_strlit("charged_bytes");
    reveal_strlit("headroom_bytes");
    reveal_strlit("system_available_bytes");
    reveal_strlit("pressure_level");
    reveal_strlit("min_available_bytes");
    reveal_strlit("fits_budget");
    reveal_strlit("fits_system");
    reveal_strlit("fits");
    assert("path"@.len() != "source"@.len());
    assert("path"@.len() != "weights_bytes"@.len());
    assert("path"@.len() != "estimated_bytes"@.len());
    assert("path"@.len() != "budget_bytes"@.len());
    assert("path"@.len() != "charged_bytes"@.len());
    assert("path"@.len() != "headroom_bytes"@.len());
    assert("path"@.len() != "system_available_bytes"@.len());
    assert("path"@.len() != "pressure_level"@.len());
    assert("path"@.len() != "min_available_bytes"@.len());
    assert("path"@.len() != "fits_budget"@.len());
    assert("path"@.len() != "fits_system"@.len());
    assert("path"@[0] != "fits"@[0]);
    assert("source"@.len() != "weights_bytes"@.len());
    assert("source"@.len() != "estimated_bytes"@.len());
    assert("source"@.len() != "budget_bytes"@.len());
    assert("source"@.len() != "charged_bytes"@.len());
    assert("source"@.len() != "headroom_bytes"@.len());
    assert("source"@.len() != "system_available_bytes"@.len());
    assert("source"@.len() != "pressure_level"@.len());
    assert("source"@.len() != "min_available_bytes"@.len());
    assert("source"@.len() != "fits_budget"@.len());
    assert("source"@.len() != "fits_system"@.len());
    assert("source"@.len() != "fits"@.len());
    assert("weights_bytes"@.len() != "estimated_bytes"@.len());
    assert("weights_bytes"@.len() != "budget_bytes"@.len());
    assert("weights_bytes"@[0] != "charged_bytes"@[0]);
    assert("weights_bytes"@.len() != "headroom_bytes"@.len());
    assert("weights_bytes"@.len() != "system_available_bytes"@.len());
    assert("weights_bytes"@.len() != "pressure_level"@.len());
    assert("weights_bytes"@.len() != "min_available_bytes"@.len());
    assert("weights_bytes"@.len() != "fits_budget"@.len());
    assert("weights_bytes"@.len() != "fits_system"@.len());
    assert("weights_bytes"@.len() != "fits"@.len());
    assert("estimated_bytes"@.len() != "budget_bytes"@.len());
    assert("estimated_bytes"@.len() != "charged_bytes"@.len());
    assert("estimated_bytes"@.len() != "headroom_bytes"@.len());
    assert("estimated_bytes"@.len() != "system_available_bytes"@.len());
    assert("estimated_bytes"@.len() != "pressure_level"@.len());
    assert("estimated_bytes"@.len() != "min_available_bytes"@.len());
    assert("estimated_bytes"@.len() != "fits_budget"@.len());
    assert("estimated_bytes"@.len() != "fits_system"@.len());
    assert("estimated_bytes"@.len() != "fits"@.len());
    assert("budget_bytes"@.len() != "charged_bytes"@.len());
    assert("budget_bytes"@.len() != "headroom_bytes"@.len());
    assert("budget_bytes"@.len() != "system_available_bytes"@.len());
    assert("budget_bytes"@.len() != "pressure_level"@.len());
    assert("budget_bytes"@.len() != "min_available_bytes"@.len());
    assert("budget_bytes"@.len() != "fits_budget"@.len());
    assert("budget_bytes"@.len() != "fits_system"@.len());
    assert("budget_bytes"@.len() != "fits"@.len());
    assert("charged_bytes"@.len() != "headroom_bytes"@.len());
    assert("charged_bytes"@.len() != "system_available_bytes"@.len());
    assert("charged_bytes"@.len() != "pressure_level"@.len());
    assert("charged_bytes"@.len() != "min_available_bytes"@.len());
    assert("charged_bytes"@.len() != "fits_budget"@.len());
    assert("charged_bytes"@.len() != "fits_system"@.len());
    assert("charged_bytes"@.len() != "fits"@.len());
    assert("headroom_bytes"@.len() != "system_available_bytes"@.len());
    assert("headroom_bytes"@[0] != "pressure_level"@[0]);
    assert("headroom_bytes"@.len() != "min_available_bytes"@.len());
    assert("headroom_bytes"@.len() != "fits_budget"@.len());
    assert("headroom_bytes"@.len() != "fits_system"@.len());
    assert("headroom_bytes"@.len() != "fits"@.len());
    assert("system_available_bytes"@.len() != "pressure_level"@.len());
    assert("system_available_bytes"@.len() != "min_available_bytes"@.len());
    assert("system_available_bytes"@.len() != "fits_budget"@.len());
    assert("system_available_bytes"@.len() != "fits_system"@.len());
    assert("system_available_bytes"@.len() != "fits"@.len());
    assert("pressure_level"@.len() != "min_available_bytes"@.len());
    assert("pressure_level"@.len() != "fits_budget"@.len());
    assert("pressure_level"@.len() != "fits_system"@.len());
    assert("pressure_level"@.len() != "fits"@.len());
    assert("min_available_bytes"@.len() != "fits_budget"@.len());
    assert("min_available_bytes"@.len() != "fits_system"@.len());
    assert("min_available_bytes"@.len() != "fits"@.len());
    assert("fits_budget"@[5] != "fits_system"@[5]);
    assert("fits_budget"@.len() != "fits"@.len());
    assert("fits_system"@.len() != "fits"@.len());
}

/// The keys are told apart.
proof fn lemma_download_keys()
    ensures
        "error"@ != "download"@,
        "error"@ != "message"@,
        "error"@ != "type"@,
        "error"@ != "param"@,
        "error"@ != "code"@,
        "error"@ != "repo"@,
        "error"@ != "dest"@,
        "download"@ != "message"@,
        "download"@ != "type"@,
        "download"@ != "param"@,
        "download"@ != "code"@,
        "download"@ != "repo"@,
        "download"@ != "dest"@,
        "message"@ != "type"@,
        "message"@ != "param"@,
        "message"@ != "code"@,
        "message"@ != "repo"@,
        "message"@ != "dest"@,
        "type"@ != "param"@,
        "type"@ != "code"@,
        "type"@ != "repo"@,
        "type"@ != "dest"@,
        "param"@ != "code"@,
        "param"@ != "repo"@,
        "param"@ != "dest"@,
        "code"@ != "repo"@,
        "code"@ != "dest"@,
        "repo"@ != "dest"@,
{
    reveal_strlit("error");
    reveal_strlit("download");
    reveal_strlit("message");
    reveal_strlit("type");
    reveal_strlit("param");
    reveal_strlit("code");
    reveal_strlit("repo");
    reveal_strlit("dest");
    assert("error"@.len() != "download"@.len());
    assert("error"@.len() != "message"@.len());
    assert("error"@.len() != "type"@.len());
    assert("error"@[0] != "param"@[0]);
    assert("error"@.len() != "code"@.len());
    assert("error"@.len() != "repo"@.len());
    assert("error"@.len() != "dest"@.len());
    assert("download"@.len() != "message"@.len());
    assert("download"@.len() != "type"@.len());
    assert("download"@.len() != "param"@.len());
    assert("download"@.len() != "code"@.len());
    assert("download"@.len() != "repo"@.len());
    assert("download"@.len() != "dest"@.len());
    assert("message"@.len() != "type"@.len());
    assert("message"@.len() != "param"@.len());
    assert("message"@.len() != "code"@.len());
    assert("message"@.len() != "repo"@.len());
    assert("message"@.len() != "dest"@.len());
    assert("type"@.len() != "param"@.len());
    assert("type"@[0] != "code"@[0]);
    assert("type"@[0] != "repo"@[0]);
    assert("type"@[0] != "dest"@[0]);
    assert("param"@.len() != "code"@.len());
    assert("param"@.len() != "repo"@.len());
    assert("param"@.len() != "dest"@.len());
    assert("code"@[0] != "repo"@[0]);
    assert("code"@[0] != "dest"@[0]);
    assert("repo"@[0] != "dest"@[0]);
}

/// The keys are told apart.
proof fn lemma_added_keys()
    ensures
        "model"@ != "persisted_to"@,
{
    reveal_strlit("model");
    reveal_strlit("persisted_to");
    assert("model"@.len() != "persisted_to"@.len());
}


/// An organisation and a name with one slash between them have the shape of a repo id, unless
/// they begin like a path; a text without a slash, with a second one, or with one at an end
/// has not.
pub proof fn law_repo_ids_have_one_slash(org: Seq<char>, name: Seq<char>, path: Seq<char>)
    ensures
        ({
            let plain = org.len() > 0 && name.len() > 0 && !org.contains('/') && !name.contains(
                '/',
            ) && org[0] != '.' && org[0] != '~';
            let repo = org + seq!['/'] + name;
            &&& plain ==> repo_shaped(repo)
            &&& plain ==> dest_name(repo) == org + "--"@ + name
        }),
        !path.contains('/') ==> !repo_shaped(path),
        path.len() > 0 && (path[0] == '/' || path[0] == '.' || path[0] == '~') ==> !repo_shaped(
            path,
        ),
        path.len() > 0 && path.last() == '/' ==> !repo_shaped(path),
        forall|i: int, j: int|
            0 <= i < j < path.len() && path[i] == '/' && path[j] == '/' ==> !repo_shaped(path),
{
    let repo = org + seq!['/'] + name;
    scan::lemma_find_char(path, '/', 0);
    scan::lemma_find_char(repo, '/', 0);
    if org.len() > 0 && name.len() > 0 && !org.contains('/') && !name.contains('/') {
        let at = slash(repo);
        assert(repo[org.len() as int] == '/');
        if at < org.len() {
            assert(repo[at] == org[at]);
        }
        assert(at == org.len());
        assert forall|i: int| at < i < repo.len() implies repo[i] != '/' by {
            assert(repo[i] == name[i - org.len() - 1]);
        }
        assert(repo.subrange(0, at) =~= org);
        assert(repo.subrange(at + 1, repo.len() as int) =~= name);
    }
    if slash(path) < path.len() {
        assert(path.contains('/'));
    }
    assert forall|i: int, j: int|
        0 <= i < j < path.len() && path[i] == '/' && path[j] == '/' implies !repo_shaped(path) by {
        if repo_shaped(path) {
            assert(slash(path) <= i);
            assert(path[j] != '/');
        }
    }
}

/// A path that is a model directory leads there, its tilde expanded, whatever its shape; a repo
/// id leads to its download directory under the directory of models, where it may still have
/// to be downloaded; any other path leads nowhere.
pub proof fn law_paths_lead_to_models(
    path: Seq<char>,
    model_dir: Seq<char>,
    home: Option<Seq<char>>,
    downloaded: bool,
)
    ensures
        resolution(path, model_dir, home, true, downloaded) == ResolutionView::Local(
            paths::expanded(path, home),
        ),
        repo_shaped(path) ==> resolution(path, model_dir, home, false, true)
            == ResolutionView::Local(paths::joined(model_dir, dest_name(path))),
        repo_shaped(path) ==> resolution(path, model_dir, home, false, false) == (
        ResolutionView::NotDownloaded {
            repo: path,
            dest: paths::joined(model_dir, dest_name(path)),
        }),
        !repo_shaped(path) ==> resolution(path, model_dir, home, false, downloaded)
            == ResolutionView::Invalid(
            "path '"@ + path
                + "' is neither a local model directory (no config.json there) nor an org/name Hugging Face repo id"@,
        ),
{
}

/// A repo that the hub does not know is the client's own fault, any other status that is no
/// success is the hub's, and a success is neither.
pub proof fn law_hub_faults_are_told_apart(status: u16, repo: Seq<char>, message: Seq<char>)
    ensures
        status_problem(404, repo) == Some(
            error::invalid_request(
                "repo '"@ + repo + "' not found on the hub (HTTP 404); check the org/name id"@,
            ),
        ),
        status_problem(status, repo) is None <==> 200 <= status <= 299,
        status != 404 && (status < 200 || status > 299) ==> status_problem(status, repo) == Some(
            hub_unavailable(
                "hub answered HTTP "@ + text::decimal(status as nat) + " for '"@ + repo + "'"@,
            ),
        ),
        hub_unavailable(message).status == 502,
        hub_unavailable(message).error_type == "server_error"@,
        hub_unavailable(message).code == "hub_unavailable"@,
        hub_unavailable(message).message == message,
        hub_unavailable(message).retry_after is None,
{
}

/// A hub reply is worth the JSON of its body where its status is a success; a bad status goes
/// before a bad body, and what failed is told with its reason.
pub proof fn law_hub_replies_are_read(
    status: u16,
    bytes: Vec<u8>,
    why: String,
    repo: Seq<char>,
)
    ensures
        reply_value(HubReply::Failed(why), repo) == Err::<JsonView, ApiErrorView>(
            hub_unavailable("hub request for '"@ + repo + "' failed: "@ + why@),
        ),
        status_problem(status, repo) is Some ==> reply_value(
            HubReply::Body { status, bytes },
            repo,
        ) == Err::<JsonView, ApiErrorView>(status_problem(status, repo)->0),
        status_problem(status, repo) is Some ==> reply_value(
            HubReply::Broken { status, source: why },
            repo,
        ) == Err::<JsonView, ApiErrorView>(status_problem(status, repo)->0),
        status_problem(status, repo) is None ==> reply_value(
            HubReply::Broken { status, source: why },
            repo,
        ) == Err::<JsonView, ApiErrorView>(
            hub_unavailable("bad hub response for '"@ + repo + "': "@ + why@),
        ),
        status_problem(status, repo) is None && json::parsed_bytes(bytes@) is Ok ==> reply_value(
            HubReply::Body { status, bytes },
            repo,
        ) == Ok::<JsonView, ApiErrorView>(json::parsed_bytes(bytes@)->Ok_0),
        status_problem(status, repo) is None && json::parsed_bytes(bytes@) is Err ==> reply_value(
            HubReply::Body { status, bytes },
            repo,
        ) == Err::<JsonView, ApiErrorView>(
            hub_unavailable(
                "bad hub response for '"@ + repo + "': "@ + json::parsed_bytes(bytes@)->Err_0,
            ),
        ),
{
}

/// The files of a listing are its entries of that type that have a path, in order; a size that
/// is missing counts as nothing.
pub proof fn law_listings_are_read_file_by_file(entries: Seq<JsonView>, entry: JsonView)
    ensures
        files_of(Seq::empty()).len() == 0,
        ({
            let path = json::str_field(entry, "path"@);
            let size = json::u64_field(entry, "size"@);
            let file = json::str_field(entry, "type"@) == Some("file"@) && path is Some;
            &&& !file ==> files_of(entries.push(entry)) == files_of(entries)
            &&& file && size is Some ==> files_of(entries.push(entry)) == files_of(entries).push(
                (path->0, size->0),
            )
            &&& file && size is None ==> files_of(entries.push(entry)) == files_of(entries).push(
                (path->0, 0u64),
            )
        }),
{
    assert(entries.push(entry).drop_last() =~= entries);
}

/// A request needs an id and a path that are not blank, and an id that is free.
pub proof fn law_requests_need_a_free_id_and_a_path(body: AddModelBody, registered: bool)
    ensures
        body_problem(body, registered) is None <==> scan::trim(body.id@).len() > 0 && scan::trim(
            body.path@,
        ).len() > 0 && !registered,
        scan::trim(body.id@).len() == 0 ==> body_problem(body, registered) == Some(
            error::invalid_request("id must be non-empty"@),
        ),
        scan::trim(body.id@).len() > 0 && scan::trim(body.path@).len() == 0 ==> body_problem(
            body,
            registered,
        ) == Some(error::invalid_request("path must be non-empty"@)),
        scan::trim(body.id@).len() > 0 && scan::trim(body.path@).len() > 0 ==> body_problem(
            body,
            true,
        ) == Some(
            error::conflict(
                "model_exists"@,
                "a model with id '"@ + body.id@
                    + "' is already registered; removing or replacing one requires editing kiln.toml and restarting"@,
            ),
        ),
{
}

/// The answer to an operator whose model is not on disk names the repo and the destination to
/// download with, beside an error in the envelope of every other.
pub proof fn law_downloads_are_named_whole(repo: Seq<char>, dest: Seq<char>, quoted_dest: Seq<char>)
    ensures
        ({
            let body = not_downloaded_body(repo, dest, quoted_dest);
            let e = json::field(body, "error"@)->0;
            let d = json::field(body, "download"@)->0;
            &&& json::field(body, "error"@) is Some
            &&& json::field(body, "download"@) is Some
            &&& json::str_field(d, "repo"@) == Some(repo)
            &&& json::str_field(d, "dest"@) == Some(dest)
            &&& json::str_field(e, "type"@) == Some("invalid_request_error"@)
            &&& json::str_field(e, "code"@) == Some("model_not_downloaded"@)
            &&& json::field(e, "param"@) == Some(JsonView::Null)
            &&& json::str_field(e, "message"@) == Some(
                "model '"@ + repo
                    + "' is not downloaded; submit POST /admin/jobs/download {\"repo\": \""@ + repo
                    + "\", \"dest\": "@ + quoted_dest
                    + "} and retry this request when the job succeeds"@,
            )
        }),
{
    lemma_download_keys();
}

/// The model that is registered has the settings of the request at the directory that was
/// found, and no draft.
pub proof fn law_models_are_registered_as_asked(
    model: ModelConfig,
    body: AddModelBody,
    dir: Seq<char>,
)
    requires
        is_model_of(model, body, dir),
    ensures
        model.id@ == body.id@,
        model.path@ == dir,
        model.worker == body.worker,
        model.pinned == body.pinned,
        model.ttl_seconds == body.ttl_seconds,
        model.speculative is None,
{
}

/// An id that is taken is a conflict, a channel that cannot be built is an internal fault, and
/// whatever else stops a model is the request's own; a block that the file holds already is a
/// conflict, and any other trouble with the file is internal. All are told in their own words.
pub proof fn law_registration_faults_are_told_apart(e: RegistryError, p: PersistError)
    ensures
        e is Duplicate ==> registry_refusal(e) == error::conflict("model_exists"@, e.spec_message()),
        e is Channel ==> registry_refusal(e) == error::internal(e.spec_message()),
        e !is Duplicate && e !is Channel ==> registry_refusal(e) == error::invalid_request(
            e.spec_message(),
        ),
        p is DuplicateInFile ==> persist_refusal(p) == error::conflict(
            "config_conflict"@,
            p.words(),
        ),
        p !is DuplicateInFile ==> persist_refusal(p) == error::internal(p.words()),
{
}

/// A file that could not be read is told by its path and why; one that was read is judged by
/// its text.
pub proof fn law_unreadable_files_are_told(
    e: PersistError,
    path: Seq<char>,
    file: Result<String, String>,
    model: ModelConfig,
)
    requires
        persist_problem(e, path, file, model),
    ensures
        file is Err ==> e is Read && e->Read_path@ == path && e->Read_source@ == file->Err_0@,
        file is Ok ==> config_write::edit_problem(e, path, file->Ok_0@, model),
{
}

/// The answer to a registration is the model's row and the file that holds its block.
pub proof fn law_registrations_are_answered(entry: ModelEntry, l: Ledger, config_path: Seq<char>)
    ensures
        json::field(added_body(entry, l, config_path), "model"@) == Some(
            JsonView::Object(admin_models::model_row(entry, l)),
        ),
        json::str_field(added_body(entry, l, config_path), "persisted_to"@) == Some(config_path),
{
    lemma_added_keys();
}

/// A load wants its weights and 64 MiB more, and nothing where there is nothing to load; the
/// budget has room for what its charges leave.
pub proof fn law_loads_are_priced(weights: u64, l: Ledger)
    ensures
        weights > 0 ==> estimated(weights) == weights + 64 * 1024 * 1024,
        estimated(0) == 0,
        l.charged() <= l.budget_bytes ==> free_budget(l) + l.charged() == l.budget_bytes,
        l.charged() > l.budget_bytes ==> free_budget(l) == 0,
{
}

/// The system gate is open when it is off or without a reading, and otherwise as the ledger
/// judges the reading.
pub proof fn law_the_system_gate_fails_open(l: Ledger, needed: u64, probe: Option<SystemMemory>)
    ensures
        l.min_available_bytes == 0 ==> fits_system(l, needed, probe),
        fits_system(l, needed, None),
        l.min_available_bytes > 0 && probe is Some ==> (fits_system(l, needed, probe)
            <==> l.system_denial(probe->0, needed) is None),
{
}

/// An estimate tells every number under its own name, and a model fits where both the budget
/// and the system have room for it.
pub proof fn law_estimates_are_told_whole(
    path: Seq<char>,
    source: Seq<char>,
    weights: u64,
    l: Ledger,
    after: Ledger,
    probe: Option<SystemMemory>,
)
    requires
        estimated(weights) <= u64::MAX,
        l.sums_fit(),
    ensures
        ({
            let body = estimate_body(path, source, weights, l, after, probe);
            let needed = estimated(weights) as u64;
            &&& json::str_field(body, "path"@) == Some(path)
            &&& json::str_field(body, "source"@) == Some(source)
            &&& json::u64_field(body, "weights_bytes"@) == Some(weights)
            &&& json::u64_field(body, "estimated_bytes"@) == Some(needed)
            &&& json::u64_field(body, "budget_bytes"@) == Some(l.budget_bytes)
            &&& l.charged() <= u64::MAX ==> json::u64_field(body, "charged_bytes"@) == Some(
                l.charged() as u64,
            )
            &&& l.charged() > u64::MAX ==> json::u64_field(body, "charged_bytes"@) == Some(u64::MAX)
            &&& json::u64_field(body, "headroom_bytes"@) == Some(free_budget(l) as u64)
            &&& json::u64_field(body, "min_available_bytes"@) == Some(l.min_available_bytes)
            &&& after.system is Some ==> json::u64_field(body, "system_available_bytes"@) == Some(
                after.system->0.available_bytes,
            ) && json::u64_field(body, "pressure_level"@) == Some(
                after.system->0.pressure_level as u64,
            )
            &&& after.system is None ==> json::field(body, "system_available_bytes"@) == Some(
                JsonView::Null,
            ) && json::field(body, "pressure_level"@) == Some(JsonView::Null)
            &&& json::field(body, "fits_budget"@) == Some(
                JsonView::Bool(needed + l.charged() <= l.budget_bytes || needed == 0),
            )
            &&& json::field(body, "fits_system"@) == Some(
                JsonView::Bool(fits_system(l, needed, probe)),
            )
            &&& json::field(body, "fits"@) == Some(
                JsonView::Bool(
                    (needed + l.charged() <= l.budget_bytes || needed == 0) && fits_system(
                        l,
                        needed,
                        probe,
                    ),
                ),
            )
        }),
{
    lemma_estimate_keys();
}

} // verus!
