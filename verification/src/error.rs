//! Error responses. Every error leaving the gateway has the
//! `{"error": {message, type, param, code}}` shape client SDKs parse, or the
//! Anthropic envelope on `/v1/messages`.

use crate::json;
use crate::json::JsonView;
use crate::lifecycle::MemoryDenial;
use crate::text;
use crate::worker;
use crate::worker::Finished;
use crate::worker::RpcStatus;
use crate::worker::WorkerErrorCode;
use serde_json::Value;
use vstd::prelude::*;
use vstd::string::*;

verus! {

/// An error on its way to a client.
#[derive(Debug)]
pub struct ApiError {
    /// HTTP status.
    pub status: u16,
    pub error_type: &'static str,
    pub code: &'static str,
    pub message: String,
    /// Seconds for the `Retry-After` header, where there is one.
    pub retry_after: Option<u64>,
}

/// The mathematical value of an [`ApiError`].
#[verifier::ext_equal]
pub struct ApiErrorView {
    pub status: u16,
    pub error_type: Seq<char>,
    pub code: Seq<char>,
    pub message: Seq<char>,
    pub retry_after: Option<u64>,
}

impl View for ApiError {
    type V = ApiErrorView;

    open spec fn view(&self) -> ApiErrorView {
        ApiErrorView {
            status: self.status,
            error_type: self.error_type@,
            code: self.code@,
            message: self.message@,
            retry_after: self.retry_after,
        }
    }
}

/// An error without `Retry-After`.
pub open spec fn plain(
    status: u16,
    error_type: Seq<char>,
    code: Seq<char>,
    message: Seq<char>,
) -> ApiErrorView {
    ApiErrorView { status, error_type, code, message, retry_after: None }
}

pub open spec fn invalid_request(message: Seq<char>) -> ApiErrorView {
    plain(400, "invalid_request_error"@, "invalid_request"@, message)
}

pub open spec fn context_length_exceeded(message: Seq<char>) -> ApiErrorView {
    plain(400, "invalid_request_error"@, "context_length_exceeded"@, message)
}

pub open spec fn worker_crashed(message: Seq<char>) -> ApiErrorView {
    plain(502, "server_error"@, "worker_crashed"@, message)
}

pub open spec fn internal(message: Seq<char>) -> ApiErrorView {
    plain(500, "server_error"@, "internal_error"@, message)
}

pub open spec fn not_found(message: Seq<char>) -> ApiErrorView {
    plain(404, "invalid_request_error"@, "not_found"@, message)
}

pub open spec fn jobs_unavailable(message: Seq<char>) -> ApiErrorView {
    plain(503, "server_error"@, "jobs_unavailable"@, message)
}

pub open spec fn conflict(code: Seq<char>, message: Seq<char>) -> ApiErrorView {
    plain(409, "invalid_request_error"@, code, message)
}

pub open spec fn invalid_api_key() -> ApiErrorView {
    plain(401, "invalid_request_error"@, "invalid_api_key"@, "Incorrect or missing API key."@)
}

pub open spec fn admin_disabled() -> ApiErrorView {
    plain(
        403,
        "invalid_request_error"@,
        "admin_disabled"@,
        "The admin API is disabled: no admin token is configured."@,
    )
}

pub open spec fn model_not_found(model: Seq<char>) -> ApiErrorView {
    plain(
        404,
        "invalid_request_error"@,
        "model_not_found"@,
        "The model '"@ + model + "' does not exist or is not configured."@,
    )
}

pub open spec fn model_loading(model: Seq<char>) -> ApiErrorView {
    plain(
        503,
        "server_error"@,
        "model_loading"@,
        "The model '"@ + model + "' is still loading; retry shortly."@,
    )
}

pub open spec fn model_unloading(model: Seq<char>) -> ApiErrorView {
    plain(
        503,
        "server_error"@,
        "model_unloading"@,
        "The model '"@ + model + "' is unloading; retry shortly."@,
    )
}

pub open spec fn worker_failed(model: Seq<char>) -> ApiErrorView {
    plain(
        502,
        "server_error"@,
        "worker_failed"@,
        "The worker for model '"@ + model
            + "' crashed repeatedly and requires manual reset."@,
    )
}

pub open spec fn insufficient_memory(model: Seq<char>, denial: MemoryDenial) -> ApiErrorView {
    plain(
        503,
        "server_error"@,
        "insufficient_memory"@,
        "Serving model '"@ + model + "' could need "@ + text::decimal(denial.needed_bytes as nat)
            + " more bytes, but only "@ + text::decimal(denial.headroom_bytes as nat)
            + " are left (constraint: "@ + denial.constraint.spec_label() + "); retry shortly."@,
    )
}

pub open spec fn rate_limited_requests(
    key: Seq<char>,
    limit: u32,
    retry_after: u64,
) -> ApiErrorView {
    ApiErrorView {
        status: 429,
        error_type: "requests"@,
        code: "rate_limit_exceeded"@,
        message: "Rate limit reached for API key '"@ + key + "': "@ + text::decimal(limit as nat)
            + " requests per minute. Retry in "@ + text::decimal(retry_after as nat)
            + " seconds."@,
        retry_after: Some(retry_after),
    }
}

pub open spec fn rate_limited_tokens(
    key: Seq<char>,
    limit: u32,
    prompt_tokens: u32,
    max_tokens: u32,
    retry_after: Option<u64>,
) -> ApiErrorView {
    let asked = "Token limit reached for API key '"@ + key + "': "@ + text::decimal(limit as nat)
        + " tokens per minute, requested "@ + text::decimal(prompt_tokens as nat)
        + " prompt tokens and up to "@ + text::decimal(max_tokens as nat)
        + " completion tokens. "@;
    ApiErrorView {
        status: 429,
        error_type: "tokens"@,
        code: "rate_limit_exceeded"@,
        message: match retry_after {
            Some(secs) => asked + "Retry in "@ + text::decimal(secs as nat) + " seconds."@,
            None => asked + "This can never fit the limit; lower max_tokens."@,
        },
        retry_after,
    }
}

pub open spec fn timeout(code: Seq<char>, message: Seq<char>) -> ApiErrorView {
    plain(504, "timeout_error"@, code, message)
}

/// The error for a worker that finished with an error.
pub open spec fn of_worker_finished(error_code: WorkerErrorCode, detail: Seq<char>) -> ApiErrorView {
    match error_code {
        WorkerErrorCode::InvalidRequest => invalid_request("worker rejected request: "@ + detail),
        WorkerErrorCode::CtxOverflow => context_length_exceeded(detail),
        WorkerErrorCode::GrammarUnsupported | WorkerErrorCode::GrammarCompile => plain(
            400,
            "invalid_request_error"@,
            "grammar_unsupported"@,
            detail,
        ),
        WorkerErrorCode::OomRejected => plain(
            503,
            "server_error"@,
            "overloaded"@,
            "worker rejected request for memory headroom: "@ + detail,
        ),
        WorkerErrorCode::Draining => plain(
            503,
            "server_error"@,
            "worker_draining"@,
            "the worker is draining; retry shortly"@,
        ),
        WorkerErrorCode::Internal | WorkerErrorCode::Unspecified => internal(
            "worker error: "@ + detail,
        ),
    }
}

/// The error for a failed worker call.
pub open spec fn of_worker_status(code: i32, message: Seq<char>) -> ApiErrorView {
    if code == worker::RPC_UNAVAILABLE {
        worker_crashed(
            "the model worker is unavailable (crashed or restarting); retry shortly"@,
        )
    } else if code == worker::RPC_INVALID_ARGUMENT {
        invalid_request(message)
    } else {
        worker_crashed("worker RPC failed: "@ + worker::rpc_code_words(code))
    }
}

impl ApiErrorView {
    /// Outcome label for the completion counters.
    pub open spec fn outcome(self) -> Seq<char> {
        if self.code == "worker_crashed"@ || self.code == "worker_failed"@ {
            "worker_crashed"@
        } else if 400 <= self.status < 500 {
            "client_error"@
        } else if self.status == 503 {
            "unavailable"@
        } else {
            "worker_error"@
        }
    }

    /// The Anthropic error type of the status.
    pub open spec fn anthropic_type(self) -> Seq<char> {
        if self.status == 400 {
            "invalid_request_error"@
        } else if self.status == 401 {
            "authentication_error"@
        } else if self.status == 403 {
            "permission_error"@
        } else if self.status == 404 {
            "not_found_error"@
        } else if self.status == 413 {
            "request_too_large"@
        } else if self.status == 429 {
            "rate_limit_error"@
        } else if self.status == 503 || self.status == 529 {
            "overloaded_error"@
        } else {
            "api_error"@
        }
    }

    /// The OpenAI envelope.
    pub open spec fn body(self) -> JsonView {
        JsonView::Object(
            map![
                "error"@ => JsonView::Object(map![
                    "message"@ => JsonView::Str(self.message),
                    "type"@ => JsonView::Str(self.error_type),
                    "param"@ => JsonView::Null,
                    "code"@ => JsonView::Str(self.code)
                ])
            ],
        )
    }

    /// The Anthropic envelope.
    pub open spec fn anthropic_body(self) -> JsonView {
        JsonView::Object(
            map![
                "type"@ => JsonView::Str("error"@),
                "error"@ => JsonView::Object(map![
                    "type"@ => JsonView::Str(self.anthropic_type()),
                    "message"@ => JsonView::Str(self.message)
                ])
            ],
        )
    }
}

fn make(status: u16, error_type: &'static str, code: &'static str, message: String) -> (r: ApiError)
    ensures
        r@ == plain(status, error_type@, code@, message@),
{
    ApiError { status, error_type, code, message, retry_after: None }
}

fn about(before: &str, model: &str, after: &str) -> (r: String)
    ensures
        r@ == before@ + model@ + after@,
{
    let mut s: String = before.to_owned();
    s.append(model);
    s.append(after);
    s
}

impl ApiError {
    pub fn invalid_request(message: String) -> (r: Self)
        ensures
            r@ == invalid_request(message@),
    {
        make(400, "invalid_request_error", "invalid_request", message)
    }

    pub fn invalid_api_key() -> (r: Self)
        ensures
            r@ == invalid_api_key(),
    {
        make(
            401,
            "invalid_request_error",
            "invalid_api_key",
            "Incorrect or missing API key.".to_owned(),
        )
    }

    /// The admin API is closed because no operator token is configured.
    pub fn admin_disabled() -> (r: Self)
        ensures
            r@ == admin_disabled(),
    {
        make(
            403,
            "invalid_request_error",
            "admin_disabled",
            "The admin API is disabled: no admin token is configured.".to_owned(),
        )
    }

    pub fn model_not_found(model: &str) -> (r: Self)
        ensures
            r@ == model_not_found(model@),
    {
        make(
            404,
            "invalid_request_error",
            "model_not_found",
            about("The model '", model, "' does not exist or is not configured."),
        )
    }

    pub fn not_found(message: String) -> (r: Self)
        ensures
            r@ == not_found(message@),
    {
        make(404, "invalid_request_error", "not_found", message)
    }

    pub fn conflict(code: &'static str, message: String) -> (r: Self)
        ensures
            r@ == conflict(code@, message@),
    {
        make(409, "invalid_request_error", code, message)
    }

    pub fn context_length_exceeded(message: String) -> (r: Self)
        ensures
            r@ == context_length_exceeded(message@),
    {
        make(400, "invalid_request_error", "context_length_exceeded", message)
    }

    /// Worker still loading the model: retriable, distinct from a crash.
    pub fn model_loading(model: &str) -> (r: Self)
        ensures
            r@ == model_loading(model@),
    {
        make(
            503,
            "server_error",
            "model_loading",
            about("The model '", model, "' is still loading; retry shortly."),
        )
    }

    /// Worker being unloaded: retriable, the next request reloads it.
    pub fn model_unloading(model: &str) -> (r: Self)
        ensures
            r@ == model_unloading(model@),
    {
        make(
            503,
            "server_error",
            "model_unloading",
            about("The model '", model, "' is unloading; retry shortly."),
        )
    }

    /// Worker died, mid-request or before it: retriable.
    pub fn worker_crashed(message: String) -> (r: Self)
        ensures
            r@ == worker_crashed(message@),
    {
        make(502, "server_error", "worker_crashed", message)
    }

    /// Worker exceeded its restart budget; not retriable without operator
    /// action.
    pub fn worker_failed(model: &str) -> (r: Self)
        ensures
            r@ == worker_failed(model@),
    {
        make(
            502,
            "server_error",
            "worker_failed",
            about(
                "The worker for model '",
                model,
                "' crashed repeatedly and requires manual reset.",
            ),
        )
    }

    pub fn internal(message: String) -> (r: Self)
        ensures
            r@ == internal(message@),
    {
        make(500, "server_error", "internal_error", message)
    }

    /// The job runner cannot be reached or started.
    pub fn jobs_unavailable(message: String) -> (r: Self)
        ensures
            r@ == jobs_unavailable(message@),
    {
        make(503, "server_error", "jobs_unavailable", message)
    }

    /// Serving the request could grow the worker past what is left.
    pub fn insufficient_memory(model: &str, denial: MemoryDenial) -> (r: Self)
        ensures
            r@ == insufficient_memory(model@, denial),
    {
        let mut m: String = about("Serving model '", model, "' could need ");
        text::push_decimal(&mut m, denial.needed_bytes);
        m.append(" more bytes, but only ");
        text::push_decimal(&mut m, denial.headroom_bytes);
        m.append(" are left (constraint: ");
        m.append(denial.constraint.label());
        m.append("); retry shortly.");
        make(503, "server_error", "insufficient_memory", m)
    }

    /// The key's requests-per-minute limit is used up.
    pub fn rate_limited_requests(key: &str, limit: u32, retry_after: u64) -> (r: Self)
        ensures
            r@ == rate_limited_requests(key@, limit, retry_after),
    {
        let mut m: String = about("Rate limit reached for API key '", key, "': ");
        text::push_decimal(&mut m, limit as u64);
        m.append(" requests per minute. Retry in ");
        text::push_decimal(&mut m, retry_after);
        m.append(" seconds.");
        ApiError {
            status: 429,
            error_type: "requests",
            code: "rate_limit_exceeded",
            message: m,
            retry_after: Some(retry_after),
        }
    }

    /// The key's tokens-per-minute limit does not cover the request;
    /// without `retry_after` it never will.
    pub fn rate_limited_tokens(
        key: &str,
        limit: u32,
        prompt_tokens: u32,
        max_tokens: u32,
        retry_after: Option<u64>,
    ) -> (r: Self)
        ensures
            r@ == rate_limited_tokens(key@, limit, prompt_tokens, max_tokens, retry_after),
    {
        let mut m: String = about("Token limit reached for API key '", key, "': ");
        text::push_decimal(&mut m, limit as u64);
        m.append(" tokens per minute, requested ");
        text::push_decimal(&mut m, prompt_tokens as u64);
        m.append(" prompt tokens and up to ");
        text::push_decimal(&mut m, max_tokens as u64);
        m.append(" completion tokens. ");
        match retry_after {
            Some(secs) => {
                m.append("Retry in ");
                text::push_decimal(&mut m, secs);
                m.append(" seconds.");
            },
            None => {
                m.append("This can never fit the limit; lower max_tokens.");
            },
        }
        ApiError {
            status: 429,
            error_type: "tokens",
            code: "rate_limit_exceeded",
            message: m,
            retry_after,
        }
    }

    /// A request budget expired.
    pub fn timeout(code: &'static str, message: String) -> (r: Self)
        ensures
            r@ == timeout(code@, message@),
    {
        make(504, "timeout_error", code, message)
    }

    /// Maps a worker's terminal event that carries an error.
    pub fn from_worker_finished(finished: &Finished) -> (r: Self)
        ensures
            r@ == of_worker_finished(finished.error_code, finished.error_detail@),
    {
        let detail: &str = finished.error_detail.as_str();
        match finished.error_code {
            WorkerErrorCode::InvalidRequest => {
                let mut m: String = "worker rejected request: ".to_owned();
                m.append(detail);
                Self::invalid_request(m)
            },
            WorkerErrorCode::CtxOverflow => Self::context_length_exceeded(detail.to_owned()),
            WorkerErrorCode::GrammarUnsupported | WorkerErrorCode::GrammarCompile => make(
                400,
                "invalid_request_error",
                "grammar_unsupported",
                detail.to_owned(),
            ),
            WorkerErrorCode::OomRejected => {
                let mut m: String = "worker rejected request for memory headroom: ".to_owned();
                m.append(detail);
                make(503, "server_error", "overloaded", m)
            },
            WorkerErrorCode::Draining => make(
                503,
                "server_error",
                "worker_draining",
                "the worker is draining; retry shortly".to_owned(),
            ),
            WorkerErrorCode::Internal | WorkerErrorCode::Unspecified => {
                let mut m: String = "worker error: ".to_owned();
                m.append(detail);
                Self::internal(m)
            },
        }
    }

    /// Maps a failed worker call. During a crash or restart window the
    /// connection fails as unavailable.
    pub fn from_worker_status(status: &RpcStatus) -> (r: Self)
        ensures
            r@ == of_worker_status(status.code, status.message@),
    {
        if status.code == worker::RPC_UNAVAILABLE {
            Self::worker_crashed(
                "the model worker is unavailable (crashed or restarting); retry shortly".to_owned(),
            )
        } else if status.code == worker::RPC_INVALID_ARGUMENT {
            Self::invalid_request(status.message.clone())
        } else {
            let mut m: String = "worker RPC failed: ".to_owned();
            m.append(worker::code_words(status.code).as_str());
            Self::worker_crashed(m)
        }
    }

    /// Outcome label for the completion counters.
    pub fn outcome(&self) -> (r: &'static str)
        ensures
            r@ == self@.outcome(),
    {
        if text::same(self.code, "worker_crashed") || text::same(self.code, "worker_failed") {
            "worker_crashed"
        } else if 400 <= self.status && self.status < 500 {
            "client_error"
        } else if self.status == 503 {
            "unavailable"
        } else {
            "worker_error"
        }
    }

    /// The `{"error": ...}` object, also used for stream error events.
    pub fn body(&self) -> (r: Value)
        ensures
            json::contents(r) == self@.body(),
    {
        let o: Value = json::with(json::object(), "message", json::string(self.message.as_str()));
        let o: Value = json::with(o, "type", json::string(self.error_type));
        let o: Value = json::with(o, "param", json::null());
        let o: Value = json::with(o, "code", json::string(self.code));
        json::with(json::object(), "error", o)
    }

    /// The Anthropic error type for this error's status.
    pub fn anthropic_error_type(&self) -> (r: &'static str)
        ensures
            r@ == self@.anthropic_type(),
    {
        if self.status == 400 {
            "invalid_request_error"
        } else if self.status == 401 {
            "authentication_error"
        } else if self.status == 403 {
            "permission_error"
        } else if self.status == 404 {
            "not_found_error"
        } else if self.status == 413 {
            "request_too_large"
        } else if self.status == 429 {
            "rate_limit_error"
        } else if self.status == 503 || self.status == 529 {
            "overloaded_error"
        } else {
            "api_error"
        }
    }

    /// The Anthropic `{"type": "error", "error": {...}}` envelope.
    pub fn anthropic_body(&self) -> (r: Value)
        ensures
            json::contents(r) == self@.anthropic_body(),
    {
        let e: Value = json::with(
            json::object(),
            "type",
            json::string(self.anthropic_error_type()),
        );
        let e: Value = json::with(e, "message", json::string(self.message.as_str()));
        let o: Value = json::with(json::object(), "type", json::string("error"));
        json::with(o, "error", e)
    }
}

/// The keys of an envelope are told apart.
proof fn lemma_envelope_keys()
    ensures
        "error"@ != "message"@,
        "error"@ != "type"@,
        "error"@ != "param"@,
        "error"@ != "code"@,
        "message"@ != "type"@,
        "message"@ != "param"@,
        "message"@ != "code"@,
        "type"@ != "param"@,
        "type"@ != "code"@,
        "param"@ != "code"@,
{
    reveal_strlit("error");
    reveal_strlit("message");
    reveal_strlit("type");
    reveal_strlit("param");
    reveal_strlit("code");
    assert("error"@.len() != "message"@.len());
    assert("error"@.len() != "type"@.len());
    assert("error"@[0] != "param"@[0]);
    assert("error"@.len() != "code"@.len());
    assert("message"@.len() != "type"@.len());
    assert("message"@.len() != "param"@.len());
    assert("message"@.len() != "code"@.len());
    assert("type"@.len() != "param"@.len());
    assert("type"@[0] != "code"@[0]);
    assert("param"@.len() != "code"@.len());
}

/// The codes are told apart.
proof fn lemma_codes()
    ensures
        "worker_crashed"@ != "worker_failed"@,
        "worker_crashed"@ != "invalid_request"@,
        "worker_crashed"@ != "internal_error"@,
        "worker_crashed"@ != "model_loading"@,
        "worker_crashed"@ != "insufficient_memory"@,
        "worker_failed"@ != "invalid_request"@,
        "worker_failed"@ != "internal_error"@,
        "worker_failed"@ != "model_loading"@,
        "worker_failed"@ != "insufficient_memory"@,
        "invalid_request"@ != "internal_error"@,
        "invalid_request"@ != "model_loading"@,
        "invalid_request"@ != "insufficient_memory"@,
        "internal_error"@ != "model_loading"@,
        "internal_error"@ != "insufficient_memory"@,
        "model_loading"@ != "insufficient_memory"@,
{
    reveal_strlit("worker_crashed");
    reveal_strlit("worker_failed");
    reveal_strlit("invalid_request");
    reveal_strlit("internal_error");
    reveal_strlit("model_loading");
    reveal_strlit("insufficient_memory");
    assert("worker_crashed"@.len() != "worker_failed"@.len());
    assert("worker_crashed"@.len() != "invalid_request"@.len());
    assert("worker_crashed"@[0] != "internal_error"@[0]);
    assert("worker_crashed"@.len() != "model_loading"@.len());
    assert("worker_crashed"@.len() != "insufficient_memory"@.len());
    assert("worker_failed"@.len() != "invalid_request"@.len());
    assert("worker_failed"@.len() != "internal_error"@.len());
    assert("worker_failed"@[0] != "model_loading"@[0]);
    assert("worker_failed"@.len() != "insufficient_memory"@.len());
    assert("invalid_request"@.len() != "internal_error"@.len());
    assert("invalid_request"@.len() != "model_loading"@.len());
    assert("invalid_request"@.len() != "insufficient_memory"@.len());
    assert("internal_error"@.len() != "model_loading"@.len());
    assert("internal_error"@.len() != "insufficient_memory"@.len());
    assert("model_loading"@.len() != "insufficient_memory"@.len());
}


/// Every kind of error has its own status and code, and carries what it is about in
/// its words.
pub proof fn law_errors_have_their_status(message: Seq<char>, code: Seq<char>, model: Seq<char>)
    ensures
        invalid_request(message).status == 400 && invalid_request(message).code
            == "invalid_request"@ && invalid_request(message).message == message,
        context_length_exceeded(message).status == 400 && context_length_exceeded(message).code
            == "context_length_exceeded"@ && context_length_exceeded(message).message == message,
        invalid_api_key().status == 401 && invalid_api_key().code == "invalid_api_key"@,
        admin_disabled().status == 403 && admin_disabled().code == "admin_disabled"@,
        not_found(message).status == 404 && not_found(message).code == "not_found"@ && not_found(
            message,
        ).message == message,
        model_not_found(model).status == 404 && model_not_found(model).code
            == "model_not_found"@,
        conflict(code, message).status == 409 && conflict(code, message).code == code && conflict(
            code,
            message,
        ).message == message,
        internal(message).status == 500 && internal(message).code == "internal_error"@
            && internal(message).message == message,
        worker_crashed(message).status == 502 && worker_crashed(message).code
            == "worker_crashed"@ && worker_crashed(message).message == message,
        worker_failed(model).status == 502 && worker_failed(model).code == "worker_failed"@,
        model_loading(model).status == 503 && model_loading(model).code == "model_loading"@,
        model_unloading(model).status == 503 && model_unloading(model).code
            == "model_unloading"@,
        jobs_unavailable(message).status == 503 && jobs_unavailable(message).code
            == "jobs_unavailable"@ && jobs_unavailable(message).message == message,
        timeout(code, message).status == 504 && timeout(code, message).code == code && timeout(
            code,
            message,
        ).message == message,
{
}

/// An error about a model names it.
pub proof fn law_errors_name_the_model(model: Seq<char>, denial: MemoryDenial)
    ensures
        model_not_found(model).message == "The model '"@ + model
            + "' does not exist or is not configured."@,
        model_loading(model).message == "The model '"@ + model
            + "' is still loading; retry shortly."@,
        model_unloading(model).message == "The model '"@ + model
            + "' is unloading; retry shortly."@,
        worker_failed(model).message == "The worker for model '"@ + model
            + "' crashed repeatedly and requires manual reset."@,
        insufficient_memory(model, denial).status == 503,
        insufficient_memory(model, denial).code == "insufficient_memory"@,
        insufficient_memory(model, denial).message == "Serving model '"@ + model
            + "' could need "@ + text::decimal(denial.needed_bytes as nat)
            + " more bytes, but only "@ + text::decimal(denial.headroom_bytes as nat)
            + " are left (constraint: "@ + denial.constraint.spec_label()
            + "); retry shortly."@,
{
}

/// What the client did wrong is answered in the four hundreds, what the gateway or a
/// worker cannot do in the five hundreds.
pub proof fn law_faults_are_told_apart(message: Seq<char>, code: Seq<char>, model: Seq<char>)
    ensures
        400 <= invalid_request(message).status < 500,
        400 <= context_length_exceeded(message).status < 500,
        400 <= invalid_api_key().status < 500,
        400 <= model_not_found(model).status < 500,
        400 <= conflict(code, message).status < 500,
        500 <= internal(message).status < 600,
        500 <= worker_crashed(message).status < 600,
        500 <= worker_failed(model).status < 600,
        500 <= model_loading(model).status < 600,
        500 <= timeout(code, message).status < 600,
{
}

/// A limit that is used up is answered with the seconds to wait, where waiting helps.
pub proof fn law_limits_say_when_to_retry(
    key: Seq<char>,
    limit: u32,
    seconds: u64,
    prompt_tokens: u32,
    max_tokens: u32,
    retry_after: Option<u64>,
)
    ensures
        rate_limited_requests(key, limit, seconds).status == 429,
        rate_limited_requests(key, limit, seconds).code == "rate_limit_exceeded"@,
        rate_limited_requests(key, limit, seconds).error_type == "requests"@,
        rate_limited_requests(key, limit, seconds).retry_after == Some(seconds),
        rate_limited_tokens(key, limit, prompt_tokens, max_tokens, retry_after).status == 429,
        rate_limited_tokens(key, limit, prompt_tokens, max_tokens, retry_after).code
            == "rate_limit_exceeded"@,
        rate_limited_tokens(key, limit, prompt_tokens, max_tokens, retry_after).error_type
            == "tokens"@,
        rate_limited_tokens(key, limit, prompt_tokens, max_tokens, retry_after).retry_after
            == retry_after,
        invalid_api_key().retry_after is None,
        model_loading(key).retry_after is None,
{
}

/// Both envelopes carry the error's words; the one for OpenAI clients its own type and
/// code, the one for Anthropic clients the type of its status.
pub proof fn law_envelopes_carry_the_error(e: ApiErrorView)
    ensures
        json::field(e.body(), "error"@) is Some,
        json::str_field(json::field(e.body(), "error"@)->0, "message"@) == Some(e.message),
        json::str_field(json::field(e.body(), "error"@)->0, "type"@) == Some(e.error_type),
        json::str_field(json::field(e.body(), "error"@)->0, "code"@) == Some(e.code),
        json::field(json::field(e.body(), "error"@)->0, "param"@) == Some(JsonView::Null),
        json::str_field(e.anthropic_body(), "type"@) == Some("error"@),
        json::field(e.anthropic_body(), "error"@) is Some,
        json::str_field(json::field(e.anthropic_body(), "error"@)->0, "message"@) == Some(
            e.message,
        ),
        json::str_field(json::field(e.anthropic_body(), "error"@)->0, "type"@) == Some(
            e.anthropic_type(),
        ),
{
    lemma_envelope_keys();
}

/// The types that Anthropic clients know, by status.
pub proof fn law_anthropic_types_follow_the_status(e: ApiErrorView)
    ensures
        e.status == 400 ==> e.anthropic_type() == "invalid_request_error"@,
        e.status == 401 ==> e.anthropic_type() == "authentication_error"@,
        e.status == 403 ==> e.anthropic_type() == "permission_error"@,
        e.status == 404 ==> e.anthropic_type() == "not_found_error"@,
        e.status == 413 ==> e.anthropic_type() == "request_too_large"@,
        e.status == 429 ==> e.anthropic_type() == "rate_limit_error"@,
        e.status == 503 || e.status == 529 ==> e.anthropic_type() == "overloaded_error"@,
        e.status == 500 || e.status == 502 || e.status == 504 || e.status == 409
            ==> e.anthropic_type() == "api_error"@,
{
}

/// A worker's fault is the client's only where the worker says so.
pub proof fn law_worker_faults_are_told_apart(detail: Seq<char>)
    ensures
        of_worker_finished(WorkerErrorCode::InvalidRequest, detail).status == 400,
        of_worker_finished(WorkerErrorCode::InvalidRequest, detail).message
            == "worker rejected request: "@ + detail,
        of_worker_finished(WorkerErrorCode::CtxOverflow, detail) == context_length_exceeded(detail),
        of_worker_finished(WorkerErrorCode::GrammarUnsupported, detail).status == 400,
        of_worker_finished(WorkerErrorCode::GrammarUnsupported, detail).message == detail,
        of_worker_finished(WorkerErrorCode::GrammarCompile, detail).status == 400,
        of_worker_finished(WorkerErrorCode::OomRejected, detail).status == 503,
        of_worker_finished(WorkerErrorCode::OomRejected, detail).code == "overloaded"@,
        of_worker_finished(WorkerErrorCode::Draining, detail).status == 503,
        of_worker_finished(WorkerErrorCode::Draining, detail).code == "worker_draining"@,
        of_worker_finished(WorkerErrorCode::Internal, detail).status == 500,
        of_worker_finished(WorkerErrorCode::Internal, detail).message == "worker error: "@ + detail,
        of_worker_finished(WorkerErrorCode::Unspecified, detail).status == 500,
{
}

/// A call that a worker refuses as invalid is the client's fault, with the worker's
/// words; any other failed call is the worker's.
pub proof fn law_failed_calls_are_told_apart(code: i32, message: Seq<char>)
    ensures
        code == 3 ==> of_worker_status(code, message).status == 400 && of_worker_status(
            code,
            message,
        ).message == message,
        code != 3 ==> of_worker_status(code, message).status == 502 && of_worker_status(
            code,
            message,
        ).code == "worker_crashed"@,
        worker::RPC_NOT_FOUND == 5,
        worker::RPC_UNAVAILABLE == 14,
{
}

/// Requests are counted by whose fault it was: a worker that crashed, the client, a
/// gateway that cannot serve now, or a worker that failed otherwise.
pub proof fn law_outcomes_are_counted_by_fault(
    message: Seq<char>,
    model: Seq<char>,
    denial: MemoryDenial,
)
    ensures
        worker_crashed(message).outcome() == "worker_crashed"@,
        worker_failed(model).outcome() == "worker_crashed"@,
        invalid_request(message).outcome() == "client_error"@,
        model_loading(model).outcome() == "unavailable"@,
        insufficient_memory(model, denial).outcome() == "unavailable"@,
        internal(message).outcome() == "worker_error"@,
{
    lemma_codes();
}

/// The client's own faults are of the type of an invalid request, those of the gateway and of
/// its workers are of the type of a server error, and running out of time has a type of its own.
/// Only a used-up limit says when to retry.
pub proof fn law_errors_have_their_type(
    message: Seq<char>,
    code: Seq<char>,
    model: Seq<char>,
    denial: MemoryDenial,
)
    ensures
        invalid_request(message).error_type == "invalid_request_error"@,
        context_length_exceeded(message).error_type == "invalid_request_error"@,
        invalid_api_key().error_type == "invalid_request_error"@,
        admin_disabled().error_type == "invalid_request_error"@,
        not_found(message).error_type == "invalid_request_error"@,
        model_not_found(model).error_type == "invalid_request_error"@,
        conflict(code, message).error_type == "invalid_request_error"@,
        internal(message).error_type == "server_error"@,
        worker_crashed(message).error_type == "server_error"@,
        worker_failed(model).error_type == "server_error"@,
        model_loading(model).error_type == "server_error"@,
        model_unloading(model).error_type == "server_error"@,
        jobs_unavailable(message).error_type == "server_error"@,
        insufficient_memory(model, denial).error_type == "server_error"@,
        timeout(code, message).error_type == "timeout_error"@,
        invalid_request(message).retry_after is None,
        internal(message).retry_after is None,
        worker_failed(model).retry_after is None,
        timeout(code, message).retry_after is None,
        insufficient_memory(model, denial).retry_after is None,
{
}

/// A key that is wrong or missing, and an admin surface that is off, are told in fixed words.
pub proof fn law_refused_callers_are_told_why()
    ensures
        invalid_api_key().message == "Incorrect or missing API key."@,
        admin_disabled().message == "The admin API is disabled: no admin token is configured."@,
{
}

/// A used-up limit names the key, the limit and the time to wait; tokens that can never fit are
/// told so instead.
pub proof fn law_limits_name_the_key(
    key: Seq<char>,
    limit: u32,
    seconds: u64,
    prompt_tokens: u32,
    max_tokens: u32,
)
    ensures
        rate_limited_requests(key, limit, seconds).message == "Rate limit reached for API key '"@
            + key + "': "@ + text::decimal(limit as nat) + " requests per minute. Retry in "@
            + text::decimal(seconds as nat) + " seconds."@,
        rate_limited_tokens(key, limit, prompt_tokens, max_tokens, Some(seconds)).message
            == "Token limit reached for API key '"@ + key + "': "@ + text::decimal(limit as nat)
            + " tokens per minute, requested "@ + text::decimal(prompt_tokens as nat)
            + " prompt tokens and up to "@ + text::decimal(max_tokens as nat)
            + " completion tokens. "@ + "Retry in "@ + text::decimal(seconds as nat)
            + " seconds."@,
        rate_limited_tokens(key, limit, prompt_tokens, max_tokens, None).message
            == "Token limit reached for API key '"@ + key + "': "@ + text::decimal(limit as nat)
            + " tokens per minute, requested "@ + text::decimal(prompt_tokens as nat)
            + " prompt tokens and up to "@ + text::decimal(max_tokens as nat)
            + " completion tokens. "@ + "This can never fit the limit; lower max_tokens."@,
{
}

/// A worker's fault is told whole: its code, its type and the worker's words.
pub proof fn law_worker_faults_are_told_whole(detail: Seq<char>)
    ensures
        of_worker_finished(WorkerErrorCode::InvalidRequest, detail) == invalid_request(
            "worker rejected request: "@ + detail,
        ),
        ({
            let e = of_worker_finished(WorkerErrorCode::GrammarUnsupported, detail);
            &&& e.code == "grammar_unsupported"@
            &&& e.error_type == "invalid_request_error"@
            &&& e.message == detail
            &&& e == of_worker_finished(WorkerErrorCode::GrammarCompile, detail)
        }),
        ({
            let e = of_worker_finished(WorkerErrorCode::OomRejected, detail);
            &&& e.error_type == "server_error"@
            &&& e.message == "worker rejected request for memory headroom: "@ + detail
        }),
        ({
            let e = of_worker_finished(WorkerErrorCode::Draining, detail);
            &&& e.error_type == "server_error"@
            &&& e.message == "the worker is draining; retry shortly"@
        }),
        of_worker_finished(WorkerErrorCode::Internal, detail) == internal(
            "worker error: "@ + detail,
        ),
        of_worker_finished(WorkerErrorCode::Unspecified, detail) == internal(
            "worker error: "@ + detail,
        ),
{
}

/// A failed call to a worker is told in fixed words where the worker is unavailable, and by the
/// words of its code otherwise.
pub proof fn law_failed_calls_are_told(code: i32, message: Seq<char>)
    ensures
        of_worker_status(14, message) == worker_crashed(
            "the model worker is unavailable (crashed or restarting); retry shortly"@,
        ),
        of_worker_status(3, message) == invalid_request(message),
        code != 14 && code != 3 ==> of_worker_status(code, message) == worker_crashed(
            "worker RPC failed: "@ + worker::rpc_code_words(code),
        ),
{
}

} // verus!
