//! The admin jobs API: submissions and status are translated to the job
//! runner's service and back, and the runner is started on demand.

use crate::config::KilnConfig;
use crate::error;
use crate::error::ApiError;
use crate::error::ApiErrorView;
use crate::json;
use crate::json::JsonView;
use crate::json::NumberView;
use crate::paths;
use crate::text;
use crate::worker;
use crate::worker::RpcStatus;
use serde_json::Value;
use vstd::prelude::*;
use vstd::string::*;

verus! {

/// How long a freshly started runner gets to accept connections.
pub const SPAWN_READY_MS: u64 = 10_000;

/// How often its socket is tried meanwhile.
pub const SPAWN_POLL_MS: u64 = 100;

/// Where the job runner is found and how it is started.
#[derive(Debug)]
pub struct JobsProxy {
    pub argv: Vec<String>,
    pub socket: String,
    pub db: String,
    pub dest_root: String,
    /// Whether this proxy starts a runner; otherwise it talks to one that is
    /// there.
    pub spawn: bool,
}

/// The command line that starts the runner.
pub open spec fn runner_argv(proxy: JobsProxy) -> Seq<Seq<char>> {
    text::list_view(proxy.argv@) + seq![
        "serve"@,
        "--socket"@,
        proxy.socket@,
        "--db"@,
        proxy.db@,
        "--dest-root"@,
        proxy.dest_root@,
    ]
}

/// How the runner's process stands.
#[derive(Debug, Clone, Copy, PartialEq, Eq, Structural)]
pub enum ChildState {
    /// None was started.
    Absent,
    Alive,
    /// It exited, or its state is unknown.
    Gone,
}

/// What a call to the runner has to do first.
#[derive(Debug, Clone, Copy, PartialEq, Eq, Structural)]
pub enum RunnerStep {
    Call,
    /// Start one, and wait for it.
    Start,
}

/// How the wait for a fresh runner stands.
#[derive(Debug)]
pub enum StartStep {
    /// It accepts connections.
    Ready,
    /// Try again after a while.
    Wait { delay_ms: u64 },
    Failed(ApiError),
}

impl JobsProxy {
    pub fn from_config(config: &KilnConfig, home: Option<&str>) -> (r: Self)
        ensures
            text::list_view(r.argv@) == text::list_view(config.server.jobs_argv@),
            r.socket@ == paths::joined(
                paths::expanded(config.server.runtime_dir@, paths::opt_str(home)),
                "jobs.sock"@,
            ),
            r.db@ == paths::expanded(config.server.jobs_db@, paths::opt_str(home)),
            r.dest_root@ == paths::expanded(config.server.model_dir@, paths::opt_str(home)),
            r.spawn,
    {
        let dir: String = paths::expand_tilde(config.server.runtime_dir.as_str(), home);
        JobsProxy {
            argv: text::clone_list(&config.server.jobs_argv),
            socket: paths::join(dir.as_str(), "jobs.sock"),
            db: paths::expand_tilde(config.server.jobs_db.as_str(), home),
            dest_root: paths::expand_tilde(config.server.model_dir.as_str(), home),
            spawn: true,
        }
    }

    /// A proxy to a runner that is there.
    pub fn external(socket: String) -> (r: Self)
        ensures
            r.argv@.len() == 0,
            r.socket == socket,
            r.db@ == Seq::<char>::empty(),
            r.dest_root@ == Seq::<char>::empty(),
            !r.spawn,
    {
        JobsProxy {
            argv: Vec::new(),
            socket,
            db: String::new(),
            dest_root: String::new(),
            spawn: false,
        }
    }

    /// What a call has to do first: a runner that is alive is used, one that is
    /// gone is replaced.
    pub fn ensure_running(&self, child: ChildState) -> (r: RunnerStep)
        ensures
            r == (if !self.spawn || child == ChildState::Alive {
                RunnerStep::Call
            } else {
                RunnerStep::Start
            }),
    {
        if !self.spawn {
            return RunnerStep::Call;
        }
        match child {
            ChildState::Alive => RunnerStep::Call,
            ChildState::Absent | ChildState::Gone => RunnerStep::Start,
        }
    }

    /// The command line that starts the runner.
    pub fn start_argv(&self) -> (r: Vec<String>)
        ensures
            text::list_view(r@) == runner_argv(*self),
    {
        let mut argv: Vec<String> = text::clone_list(&self.argv);
        argv.push("serve".to_owned());
        argv.push("--socket".to_owned());
        argv.push(self.socket.clone());
        argv.push("--db".to_owned());
        argv.push(self.db.clone());
        argv.push("--dest-root".to_owned());
        argv.push(self.dest_root.clone());
        assert(text::list_view(argv@) =~= runner_argv(*self));
        argv
    }

    /// The error of a runner that could not be started.
    pub fn start_error(&self, why: &str) -> (r: ApiError)
        ensures
            r@ == error::jobs_unavailable(
                "failed to spawn kiln-jobs ("@ + text::joined(
                    text::list_view(self.argv@),
                    " "@,
                ) + "): "@ + why@,
            ),
    {
        let mut m: String = "failed to spawn kiln-jobs (".to_owned();
        m.append(text::join(&self.argv, " ").as_str());
        m.append("): ");
        m.append(why);
        ApiError::jobs_unavailable(m)
    }
}

/// How the wait for a fresh runner goes on: an accepted connection means that
/// it serves; an exit or the deadline ends the wait.
pub fn on_probe(connected: bool, exited: Option<&str>, now_ms: u64, deadline_ms: u64) -> (r:
    StartStep)
    ensures
        if connected {
            r is Ready
        } else if exited is Some {
            r is Failed && r->Failed_0@ == error::jobs_unavailable(
                "kiln-jobs exited during startup ("@ + (exited->0)@ + "); check gateway logs"@,
            )
        } else if now_ms >= deadline_ms {
            r is Failed && r->Failed_0@ == error::jobs_unavailable(
                "kiln-jobs did not bind its socket in time"@,
            )
        } else {
            r == StartStep::Wait { delay_ms: SPAWN_POLL_MS }
        },
{
    if connected {
        return StartStep::Ready;
    }
    if let Some(status) = exited {
        let mut m: String = "kiln-jobs exited during startup (".to_owned();
        m.append(status);
        m.append("); check gateway logs");
        return StartStep::Failed(ApiError::jobs_unavailable(m));
    }
    if now_ms >= deadline_ms {
        return StartStep::Failed(
            ApiError::jobs_unavailable("kiln-jobs did not bind its socket in time".to_owned()),
        );
    }
    StartStep::Wait { delay_ms: SPAWN_POLL_MS }
}

/// What the client is told of a failed call to the runner.
pub open spec fn runner_error(code: i32, message: Seq<char>) -> ApiErrorView {
    if code == worker::RPC_INVALID_ARGUMENT {
        error::invalid_request(message)
    } else if code == worker::RPC_NOT_FOUND {
        error::not_found(message)
    } else {
        error::jobs_unavailable(
            "job runner error ("@ + worker::rpc_code_name(code) + "): "@ + message,
        )
    }
}

/// What the client is told of a failed call to the runner.
pub fn status_to_api_error(status: &RpcStatus) -> (r: ApiError)
    ensures
        r@ == runner_error(status.code, status.message@),
{
    if status.code == worker::RPC_INVALID_ARGUMENT {
        ApiError::invalid_request(status.message.clone())
    } else if status.code == worker::RPC_NOT_FOUND {
        ApiError::not_found(status.message.clone())
    } else {
        let mut m: String = "job runner error (".to_owned();
        m.append(worker::code_name(status.code).as_str());
        m.append("): ");
        m.append(status.message.as_str());
        ApiError::jobs_unavailable(m)
    }
}

#[derive(Debug, Clone, Copy, PartialEq, Eq, Structural)]
pub enum JobKind {
    Unspecified,
    Download,
    Quantize,
}

impl JobKind {
    pub open spec fn spec_label(self) -> Seq<char> {
        match self {
            JobKind::Download => "download"@,
            JobKind::Quantize => "quantize"@,
            JobKind::Unspecified => "unspecified"@,
        }
    }

    pub fn label(self) -> (r: &'static str)
        ensures
            r@ == self.spec_label(),
    {
        match self {
            JobKind::Download => "download",
            JobKind::Quantize => "quantize",
            JobKind::Unspecified => "unspecified",
        }
    }
}

#[derive(Debug, Clone, Copy, PartialEq, Eq, Structural)]
pub enum JobState {
    Unspecified,
    Queued,
    Running,
    Succeeded,
    Failed,
}

impl JobState {
    pub open spec fn spec_label(self) -> Seq<char> {
        match self {
            JobState::Queued => "queued"@,
            JobState::Running => "running"@,
            JobState::Succeeded => "succeeded"@,
            JobState::Failed => "failed"@,
            JobState::Unspecified => "unspecified"@,
        }
    }

    pub fn label(self) -> (r: &'static str)
        ensures
            r@ == self.spec_label(),
    {
        match self {
            JobState::Queued => "queued",
            JobState::Running => "running",
            JobState::Succeeded => "succeeded",
            JobState::Failed => "failed",
            JobState::Unspecified => "unspecified",
        }
    }
}

/// A job, as the runner reports it.
#[derive(Debug)]
pub struct JobStatus {
    pub id: String,
    pub kind: JobKind,
    pub state: JobState,
    pub spec_json: String,
    pub detail_json: String,
    pub created_unix: u64,
    pub updated_unix: u64,
}

/// A stored text inlined: null where it is empty, its value where it is JSON,
/// else itself.
pub open spec fn inlined(s: Seq<char>) -> JsonView {
    if s.len() == 0 {
        JsonView::Null
    } else {
        match json::parsed(s) {
            Ok(value) => value,
            Err(_) => JsonView::Str(s),
        }
    }
}

fn inline(s: &str) -> (r: Value)
    ensures
        json::contents(r) == inlined(s@),
{
    if s.is_empty() {
        return json::null();
    }
    match json::parse(s) {
        Ok(value) => value,
        Err(_) => json::string(s),
    }
}

impl JobStatus {
    pub open spec fn spec_json_value(self) -> JsonView {
        JsonView::Object(
            map![
                "id"@ => JsonView::Str(self.id@),
                "kind"@ => JsonView::Str(self.kind.spec_label()),
                "state"@ => JsonView::Str(self.state.spec_label()),
                "spec"@ => inlined(self.spec_json@),
                "detail"@ => inlined(self.detail_json@),
                "created_unix"@ => JsonView::Number(NumberView::Unsigned(self.created_unix)),
                "updated_unix"@ => JsonView::Number(NumberView::Unsigned(self.updated_unix))
            ],
        )
    }
}

/// A job as operators see it: enums as words, and the stored texts inlined.
pub fn job_json(status: &JobStatus) -> (r: Value)
    ensures
        json::contents(r) == status.spec_json_value(),
{
    let o: Value = json::with(json::object(), "id", json::string(status.id.as_str()));
    let o: Value = json::with(o, "kind", json::string(status.kind.label()));
    let o: Value = json::with(o, "state", json::string(status.state.label()));
    let o: Value = json::with(o, "spec", inline(status.spec_json.as_str()));
    let o: Value = json::with(o, "detail", inline(status.detail_json.as_str()));
    let o: Value = json::with(o, "created_unix", json::unsigned(status.created_unix));
    json::with(o, "updated_unix", json::unsigned(status.updated_unix))
}

/// The list of jobs.
pub fn jobs_json(jobs: &Vec<JobStatus>) -> (r: Value)
    ensures
        json::contents(r) == JsonView::Object(
            map![
                "jobs"@ => JsonView::Array(
                    Seq::new(jobs@.len(), |i: int| jobs@[i].spec_json_value()),
                )
            ],
        ),
{
    let mut rows: Vec<Value> = Vec::new();
    let mut i: usize = 0;
    while i < jobs.len()
        invariant
            i <= jobs@.len(),
            rows@.len() == i,
            forall|j: int|
                0 <= j < i ==> json::contents(#[trigger] rows@[j]) == jobs@[j].spec_json_value(),
        decreases jobs@.len() - i,
    {
        rows.push(job_json(&jobs[i]));
        i = i + 1;
    }
    assert(json::list_contents(rows@) =~= Seq::new(
        jobs@.len(),
        |i: int| jobs@[i].spec_json_value(),
    ));
    json::with(json::object(), "jobs", json::array(rows))
}

/// The body of a download submission.
#[derive(Debug)]
pub struct DownloadBody {
    pub repo: String,
    pub revision: Option<String>,
    pub dest: Option<String>,
}

/// The body of a quantization submission.
#[derive(Debug)]
pub struct QuantizeBody {
    pub path: String,
    pub bits: Option<u32>,
    pub group_size: Option<u32>,
    pub out: Option<String>,
}

/// A download as the runner takes it: empty texts stand for its defaults.
#[derive(Debug)]
pub struct DownloadSpec {
    pub repo: String,
    pub revision: String,
    pub dest: String,
}

/// A quantization as the runner takes it: zeros and empty texts stand for its
/// defaults.
#[derive(Debug)]
pub struct QuantizeSpec {
    pub src: String,
    pub bits: u32,
    pub group_size: u32,
    pub out: String,
}

fn or_empty(s: Option<String>) -> (r: String)
    ensures
        r@ == crate::openai::or_empty(s),
{
    match s {
        Some(s) => s,
        None => {
            let empty: String = String::new();
            assert(empty@ =~= Seq::<char>::empty());
            empty
        },
    }
}

impl DownloadBody {
    pub fn into_spec(self) -> (r: DownloadSpec)
        ensures
            r.repo == self.repo,
            r.revision@ == crate::openai::or_empty(self.revision),
            r.dest@ == crate::openai::or_empty(self.dest),
    {
        DownloadSpec {
            repo: self.repo,
            revision: or_empty(self.revision),
            dest: or_empty(self.dest),
        }
    }
}

impl QuantizeBody {
    pub fn into_spec(self) -> (r: QuantizeSpec)
        ensures
            r.src == self.path,
            r.bits == (match self.bits {
                Some(n) => n,
                None => 0,
            }),
            r.group_size == (match self.group_size {
                Some(n) => n,
                None => 0,
            }),
            r.out@ == crate::openai::or_empty(self.out),
    {
        QuantizeSpec {
            src: self.path,
            bits: match self.bits {
                Some(n) => n,
                None => 0,
            },
            group_size: match self.group_size {
                Some(n) => n,
                None => 0,
            },
            out: or_empty(self.out),
        }
    }
}

/// The keys are told apart.
proof fn lemma_job_keys()
    ensures
        "id"@ != "kind"@,
        "id"@ != "state"@,
        "id"@ != "spec"@,
        "id"@ != "detail"@,
        "id"@ != "created_unix"@,
        "id"@ != "updated_unix"@,
        "kind"@ != "state"@,
        "kind"@ != "spec"@,
        "kind"@ != "detail"@,
        "kind"@ != "created_unix"@,
        "kind"@ != "updated_unix"@,
        "state"@ != "spec"@,
        "state"@ != "detail"@,
        "state"@ != "created_unix"@,
        "state"@ != "updated_unix"@,
        "spec"@ != "detail"@,
        "spec"@ != "created_unix"@,
        "spec"@ != "updated_unix"@,
        "detail"@ != "created_unix"@,
        "detail"@ != "updated_unix"@,
        "created_unix"@ != "updated_unix"@,
{
    reveal_strlit("id");
    reveal_strlit("kind");
    reveal_strlit("state");
    reveal_strlit("spec");
    reveal_strlit("detail");
    reveal_strlit("created_unix");
    reveal_strlit("updated_unix");
    assert("id"@.len() != "kind"@.len());
    assert("id"@.len() != "state"@.len());
    assert("id"@.len() != "spec"@.len());
    assert("id"@.len() != "detail"@.len());
    assert("id"@.len() != "created_unix"@.len());
    assert("id"@.len() != "updated_unix"@.len());
    assert("kind"@.len() != "state"@.len());
    assert("kind"@[0] != "spec"@[0]);
    assert("kind"@.len() != "detail"@.len());
    assert("kind"@.len() != "created_unix"@.len());
    assert("kind"@.len() != "updated_unix"@.len());
    assert("state"@.len() != "spec"@.len());
    assert("state"@.len() != "detail"@.len());
    assert("state"@.len() != "created_unix"@.len());
    assert("state"@.len() != "updated_unix"@.len());
    assert("spec"@.len() != "detail"@.len());
    assert("spec"@.len() != "created_unix"@.len());
    assert("spec"@.len() != "updated_unix"@.len());
    assert("detail"@.len() != "created_unix"@.len());
    assert("detail"@.len() != "updated_unix"@.len());
    assert("created_unix"@[0] != "updated_unix"@[0]);
}


/// The runner is started with its own command, and told to serve on its socket with its
/// database and its directory of models.
pub proof fn law_runners_are_told_where_they_serve(proxy: JobsProxy, i: int)
    ensures
        ({
            let argv = runner_argv(proxy);
            let n = proxy.argv@.len() as int;
            &&& argv.len() == n + 7
            &&& 0 <= i < n ==> argv[i] == proxy.argv@[i]@
            &&& argv[n] == "serve"@
            &&& argv[n + 1] == "--socket"@
            &&& argv[n + 2] == proxy.socket@
            &&& argv[n + 3] == "--db"@
            &&& argv[n + 4] == proxy.db@
            &&& argv[n + 5] == "--dest-root"@
            &&& argv[n + 6] == proxy.dest_root@
        }),
{
}

/// A fresh runner gets ten seconds, and its socket is tried ten times a second.
pub proof fn law_runners_get_ten_seconds()
    ensures
        SPAWN_READY_MS == 10 * 1000,
        10 * SPAWN_POLL_MS == 1000,
{
}

/// What the runner refuses as a bad argument or as missing is the client's own fault and is
/// told in the runner's words; any other failure is the runner's.
pub proof fn law_refusals_of_the_runner_are_told(code: i32, message: Seq<char>)
    ensures
        runner_error(3, message) == error::invalid_request(message),
        runner_error(5, message) == error::not_found(message),
        code != 3 && code != 5 ==> runner_error(code, message) == error::jobs_unavailable(
            "job runner error ("@ + worker::rpc_code_name(code) + "): "@ + message,
        ),
{
}

/// The kinds and the states of jobs have words of their own.
pub proof fn law_jobs_have_their_words()
    ensures
        JobKind::Download.spec_label() == "download"@,
        JobKind::Quantize.spec_label() == "quantize"@,
        JobKind::Unspecified.spec_label() == "unspecified"@,
        JobState::Queued.spec_label() == "queued"@,
        JobState::Running.spec_label() == "running"@,
        JobState::Succeeded.spec_label() == "succeeded"@,
        JobState::Failed.spec_label() == "failed"@,
        JobState::Unspecified.spec_label() == "unspecified"@,
{
}

/// A stored text is inlined as the JSON it is: an empty one is null, and one that is no JSON
/// stands as a string.
pub proof fn law_stored_texts_are_inlined(s: Seq<char>)
    ensures
        s.len() == 0 ==> inlined(s) == JsonView::Null,
        s.len() > 0 && json::parsed(s) is Ok ==> inlined(s) == json::parsed(s)->Ok_0,
        s.len() > 0 && json::parsed(s) is Err ==> inlined(s) == JsonView::Str(s),
{
}

/// A job is told whole, each part under its own name.
pub proof fn law_jobs_are_told_whole(job: JobStatus)
    ensures
        json::str_field(job.spec_json_value(), "id"@) == Some(job.id@),
        json::str_field(job.spec_json_value(), "kind"@) == Some(job.kind.spec_label()),
        json::str_field(job.spec_json_value(), "state"@) == Some(job.state.spec_label()),
        json::field(job.spec_json_value(), "spec"@) == Some(inlined(job.spec_json@)),
        json::field(job.spec_json_value(), "detail"@) == Some(inlined(job.detail_json@)),
        json::u64_field(job.spec_json_value(), "created_unix"@) == Some(job.created_unix),
        json::u64_field(job.spec_json_value(), "updated_unix"@) == Some(job.updated_unix),
{
    lemma_job_keys();
}

} // verus!
