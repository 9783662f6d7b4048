//! What every completion endpoint shares: the readiness gate, memory
//! admission, the text pipeline, tool-call assembly and the outcome of a
//! worker's stream; and the OpenAI chat responses made of them.
//!
//! A gateway-side stop-string match always wins: the response reports a
//! `stop` no matter how the worker's stream terminates afterwards, because
//! the client-visible completion was truncated at the match. Usage follows
//! the same boundary: it counts the tokens up to and including the one whose
//! text completed the stop string, never the worker's overshoot.

use crate::error;
use crate::error::ApiError;
use crate::error::ApiErrorView;
use crate::json;
use crate::lifecycle;
use crate::lifecycle::Command;
use crate::lifecycle::Lifecycle;
use crate::openai::AssistantMessage;
use crate::openai::ChatCompletion;
use crate::openai::ChatCompletionChunk;
use crate::openai::ChatCompletionRequest;
use crate::openai::Choice;
use crate::openai::ChunkChoice;
use crate::openai::Delta;
use crate::openai::DeltaToolCall;
use crate::openai::ResponseToolCall;
use crate::openai::Usage;
use crate::openai::ValidatedChat;
use crate::prompt;
use crate::prompt::SamplingParams;
use crate::registry::ModelEntry;
use crate::registry::Registry;
use crate::scan;
use crate::status::WorkerStatus;
use crate::text;
use crate::timeout;
use crate::timeout::TimeoutScope;
use crate::worker::FinishReason;
use crate::worker::Finished;
use crate::worker::RpcStatus;
use vstd::prelude::*;
use vstd::string::*;

verus! {

/// Request body cap; completion requests are text, not uploads.
pub const MAX_BODY_BYTES: usize = 2_097_152;

/// What a request for a model in the given state is answered; nothing when it
/// is served.
pub open spec fn refusal(model: Seq<char>, status: Option<WorkerStatus>) -> Option<ApiErrorView> {
    match status {
        Some(WorkerStatus::Ready) => None,
        None | Some(WorkerStatus::Starting) | Some(WorkerStatus::Stopped) => Some(
            error::model_loading(model),
        ),
        Some(WorkerStatus::Unloaded { .. }) => Some(error::model_loading(model)),
        Some(WorkerStatus::Draining) => Some(error::model_unloading(model)),
        Some(WorkerStatus::Restarting { .. }) => Some(
            error::worker_crashed(
                "the worker for model '"@ + model
                    + "' crashed and is restarting; retry shortly"@,
            ),
        ),
        Some(WorkerStatus::Failed) => Some(error::worker_failed(model)),
    }
}

/// The status a model last published, if it has a slot.
pub open spec fn status_of(l: lifecycle::Ledger, id: Seq<char>) -> Option<WorkerStatus> {
    if l.has(id) {
        Some(l.slot(id).status)
    } else {
        None
    }
}

/// Lookup and worker-status gate shared by every completion endpoint: only a
/// ready worker receives requests. Routing a request counts as use, and a
/// request for an unloaded model is the trigger that reloads it: the order to
/// send, if any, is returned beside the decision.
pub fn ready_entry(registry: &Registry, ledger: &mut Lifecycle, model: &str, now_ms: u64) -> (r: (
    Result<usize, ApiError>,
    Option<Command>,
))
    requires
        old(ledger).wf(),
    ensures
        final(ledger).wf(),
        final(ledger)@.sums_fit() == old(ledger)@.sums_fit(),
        ({
            let status = status_of(old(ledger)@, model@);
            match r.0 {
                Ok(i) => {
                    &&& registry.finds(i as int, model@)
                    &&& refusal(model@, status) is None
                    &&& final(ledger)@ == old(ledger)@.after_touch(model@, now_ms)
                },
                Err(e) => {
                    &&& final(ledger)@ == old(ledger)@
                    &&& if registry.has(model@) {
                        refusal(model@, status) == Some(e@)
                    } else {
                        e@ == error::model_not_found(model@)
                    }
                },
            }
        }),
        r.1 == entry_command(*registry, old(ledger)@, model@),
{
    let i: usize = match registry.position(model) {
        Some(i) => i,
        None => return (Err(ApiError::model_not_found(model)), None),
    };
    match ledger.status(model) {
        None => (Err(ApiError::model_loading(model)), None),
        Some(status) => match status {
            WorkerStatus::Ready => {
                ledger.touch(model, now_ms);
                (Ok(i), None)
            },
            WorkerStatus::Starting | WorkerStatus::Stopped => (
                Err(ApiError::model_loading(model)),
                None,
            ),
            WorkerStatus::Unloaded { .. } => (
                Err(ApiError::model_loading(model)),
                ledger.request_load(model),
            ),
            WorkerStatus::Draining => (Err(ApiError::model_unloading(model)), None),
            WorkerStatus::Restarting { .. } => {
                let mut m: String = "the worker for model '".to_owned();
                m.append(model);
                m.append("' crashed and is restarting; retry shortly");
                (Err(ApiError::worker_crashed(m)), None)
            },
            WorkerStatus::Failed => (Err(ApiError::worker_failed(model)), None),
        },
    }
}

/// Per-request memory admission, as the client sees it: refuses the request
/// when serving it could need bytes the machine no longer has room for.
pub fn admit_memory(ledger: &mut Lifecycle, model: &str) -> (r: Result<(), ApiError>)
    requires
        old(ledger).wf(),
        old(ledger)@.sums_fit(),
    ensures
        final(ledger).wf(),
        final(ledger)@.sums_fit(),
        final(ledger)@ == old(ledger)@.after_admit(model@),
        match r {
            Ok(()) => old(ledger)@.decision(model@) is Ok,
            Err(e) => old(ledger)@.decision(model@) is Err && e@ == error::insufficient_memory(
                model@,
                old(ledger)@.decision(model@)->Err_0,
            ),
        },
{
    match ledger.admit_request(model) {
        Ok(()) => Ok(()),
        Err(denial) => Err(ApiError::insufficient_memory(model, denial)),
    }
}

/// What a request for the model is refused with, if it is: it is looked up,
/// then the state of its worker counts, then memory.
pub open spec fn entry_refusal(
    registry: Registry,
    l: lifecycle::Ledger,
    model: Seq<char>,
    now_ms: u64,
) -> Option<ApiErrorView> {
    let touched = l.after_touch(model, now_ms);
    if !registry.has(model) {
        Some(error::model_not_found(model))
    } else if refusal(model, status_of(l, model)) is Some {
        refusal(model, status_of(l, model))
    } else if touched.decision(model) is Err {
        Some(error::insufficient_memory(model, touched.decision(model)->Err_0))
    } else {
        None
    }
}

/// The ledger once the request has been looked at.
pub open spec fn after_entry(
    registry: Registry,
    l: lifecycle::Ledger,
    model: Seq<char>,
    now_ms: u64,
) -> lifecycle::Ledger {
    if !registry.has(model) || refusal(model, status_of(l, model)) is Some {
        l
    } else {
        l.after_touch(model, now_ms).after_admit(model)
    }
}

/// The order a request sends to the model's supervisor: a request for an
/// unloaded model loads it.
pub open spec fn entry_command(
    registry: Registry,
    l: lifecycle::Ledger,
    model: Seq<char>,
) -> Option<Command> {
    if registry.has(model) && status_of(l, model) is Some && status_of(l, model)->0 is Unloaded {
        Some(Command::Load)
    } else {
        None
    }
}

/// What every completion endpoint does first: the readiness gate, then memory
/// admission.
pub fn open_request(registry: &Registry, ledger: &mut Lifecycle, model: &str, now_ms: u64) -> (r: (
    Result<usize, ApiError>,
    Option<Command>,
))
    requires
        old(ledger).wf(),
        old(ledger)@.sums_fit(),
    ensures
        final(ledger).wf(),
        final(ledger)@.sums_fit(),
        final(ledger)@ == after_entry(*registry, old(ledger)@, model@, now_ms),
        r.1 == entry_command(*registry, old(ledger)@, model@),
        match r.0 {
            Ok(i) => entry_refusal(*registry, old(ledger)@, model@, now_ms) is None
                && registry.finds(i as int, model@),
            Err(e) => entry_refusal(*registry, old(ledger)@, model@, now_ms) == Some(e@),
        },
{
    let (found, command) = ready_entry(registry, ledger, model, now_ms);
    match found {
        Err(e) => (Err(e), command),
        Ok(i) => {
            assert(registry.has(model@));
            match admit_memory(ledger, model) {
                Err(e) => (Err(e), command),
                Ok(()) => (Ok(i), command),
            }
        },
    }
}

/// Opens a chat completion: the gates, then the checks on the request.
pub fn open_chat(
    registry: &Registry,
    ledger: &mut Lifecycle,
    request: &ChatCompletionRequest,
    now_ms: u64,
) -> (r: (Result<(usize, ValidatedChat), ApiError>, Option<Command>))
    requires
        old(ledger).wf(),
        old(ledger)@.sums_fit(),
    ensures
        final(ledger).wf(),
        final(ledger)@.sums_fit(),
        final(ledger)@ == after_entry(*registry, old(ledger)@, request.model@, now_ms),
        r.1 == entry_command(*registry, old(ledger)@, request.model@),
        match r.0 {
            Ok((i, v)) => {
                &&& entry_refusal(*registry, old(ledger)@, request.model@, now_ms) is None
                &&& registry.finds(i as int, request.model@)
                &&& request.accepts(v)
            },
            Err(e) => match entry_refusal(*registry, old(ledger)@, request.model@, now_ms) {
                Some(refused) => e@ == refused,
                None => request.problem() is Some && e@ == error::invalid_request(
                    request.problem()->0,
                ),
            },
        },
{
    let (found, command) = open_request(registry, ledger, request.model.as_str(), now_ms);
    match found {
        Err(e) => (Err(e), command),
        Ok(i) => match request.validate() {
            Err(e) => (Err(e), command),
            Ok(v) => (Ok((i, v)), command),
        },
    }
}

/// What a client is told whose conversation a template refuses.
pub open spec fn template_error(why: Seq<char>) -> ApiErrorView {
    error::invalid_request("chat template rejected messages: "@ + why)
}

/// The prompt a template made of the conversation, or its refusal.
pub fn rendered_prompt(rendered: Result<String, String>) -> (r: Result<String, ApiError>)
    ensures
        match r {
            Ok(p) => rendered == Ok::<String, String>(p),
            Err(e) => rendered is Err && e@ == template_error(rendered->Err_0@),
        },
{
    match rendered {
        Ok(prompt) => Ok(prompt),
        Err(why) => {
            let mut m: String = "chat template rejected messages: ".to_owned();
            m.append(why.as_str());
            Err(ApiError::invalid_request(m))
        },
    }
}

/// How a prompt did not become tokens: here, or in the worker that owns the
/// tokenizer.
#[derive(Debug)]
pub enum EncodeFailure {
    Local(String),
    Worker(RpcStatus),
}

/// What a client is told whose prompt did not become tokens.
pub open spec fn encode_error(failure: EncodeFailure) -> ApiErrorView {
    match failure {
        EncodeFailure::Local(m) => error::internal("prompt tokenization failed: "@ + m@),
        EncodeFailure::Worker(status) => error::of_worker_status(status.code, status.message@),
    }
}

/// The tokens of a prompt, or the error of their encoding.
pub fn encoded_prompt(encoded: Result<Vec<u32>, EncodeFailure>) -> (r: Result<Vec<u32>, ApiError>)
    ensures
        match r {
            Ok(v) => encoded == Ok::<Vec<u32>, EncodeFailure>(v),
            Err(e) => encoded is Err && e@ == encode_error(encoded->Err_0),
        },
{
    match encoded {
        Ok(ids) => Ok(ids),
        Err(EncodeFailure::Local(why)) => {
            let mut m: String = "prompt tokenization failed: ".to_owned();
            m.append(why.as_str());
            Err(ApiError::internal(m))
        },
        Err(EncodeFailure::Worker(status)) => Err(ApiError::from_worker_status(&status)),
    }
}

/// What to submit to a worker.
#[derive(Debug)]
pub struct SubmitPlan {
    pub request_id: String,
    pub token_ids: Vec<u32>,
    pub sampling: SamplingParams,
    pub max_tokens: u32,
    /// Stop strings the worker matches: none where the gateway matches them.
    pub stop_strings: Vec<String>,
}

/// The stop strings that the worker of a model matches itself.
pub open spec fn matched_by_worker(entry: ModelEntry, stops: Seq<Seq<char>>) -> Seq<Seq<char>> {
    if entry.has_tokenizer {
        Seq::empty()
    } else {
        stops
    }
}

/// A submission carries a request: its tokens and parameters, up to so many tokens.
pub open spec fn carries(
    plan: SubmitPlan,
    request_id: Seq<char>,
    token_ids: Seq<u32>,
    sampling: SamplingParams,
    max_tokens: int,
    stops: Seq<Seq<char>>,
) -> bool {
    &&& plan.request_id@ == request_id
    &&& plan.token_ids@ == token_ids
    &&& plan.sampling == sampling
    &&& plan.max_tokens == max_tokens
    &&& text::list_view(plan.stop_strings@) == stops
}

/// The stop strings that the worker matches itself: those of a worker that
/// owns its tokenizer. The other kind rejects stop strings, and the gateway
/// matches them.
pub fn worker_stop_strings(entry: &ModelEntry, stop_strings: &Vec<String>) -> (r: Vec<String>)
    ensures
        text::list_view(r@) == matched_by_worker(*entry, text::list_view(stop_strings@)),
{
    if entry.has_tokenizer {
        let r: Vec<String> = Vec::new();
        assert(text::list_view(r@) =~= Seq::empty());
        r
    } else {
        text::clone_list(stop_strings)
    }
}

/// What a request that needs a chat template is answered.
pub open spec fn template_refusal(entry: ModelEntry, endpoint: Seq<char>) -> Option<ApiErrorView> {
    if entry.has_template {
        None
    } else {
        Some(
            error::invalid_request(
                "model '"@ + entry.id@ + "' has no chat template; "@ + endpoint
                    + " are unavailable for it"@,
            ),
        )
    }
}

/// A request that needs a chat template, for a model without one.
pub fn require_template(entry: &ModelEntry, endpoint: &str) -> (r: Result<(), ApiError>)
    ensures
        match r {
            Ok(()) => template_refusal(*entry, endpoint@) is None,
            Err(e) => template_refusal(*entry, endpoint@) == Some(e@),
        },
{
    if entry.has_template {
        return Ok(());
    }
    let mut m: String = "model '".to_owned();
    m.append(entry.id.as_str());
    m.append("' has no chat template; ");
    m.append(endpoint);
    m.append(" are unavailable for it");
    Err(ApiError::invalid_request(m))
}

/// What a request is answered whose model has no way to call its tools.
pub open spec fn format_refusal(model: Seq<char>, has_tools: bool, has_format: bool) -> Option<
    ApiErrorView,
> {
    if !has_tools || has_format {
        None
    } else {
        Some(
            error::invalid_request(
                "model '"@ + model
                    + "' has no known tool-call format; 'tools' is not supported for it"@,
            ),
        )
    }
}

/// A request with tools, for a model whose template names no known tool-call
/// format: rejected up front rather than streaming raw markers.
pub fn require_tool_format(model: &str, has_tools: bool, has_format: bool) -> (r: Result<
    (),
    ApiError,
>)
    ensures
        match r {
            Ok(()) => format_refusal(model@, has_tools, has_format) is None,
            Err(e) => format_refusal(model@, has_tools, has_format) == Some(e@),
        },
{
    if !has_tools || has_format {
        return Ok(());
    }
    let mut m: String = "model '".to_owned();
    m.append(model);
    m.append("' has no known tool-call format; 'tools' is not supported for it");
    Err(ApiError::invalid_request(m))
}

/// What a request for structured output is answered without such a worker.
pub open spec fn grammar_refusal() -> ApiErrorView {
    error::invalid_request(
        "this model's worker does not support structured output (response_format); serve the model with the rust worker to enable it"@,
    )
}

/// Structured output needs a worker that advertises it.
pub fn require_grammar(wants_grammar: bool, worker_capable: bool) -> (r: Result<(), ApiError>)
    ensures
        match r {
            Ok(()) => !wants_grammar || worker_capable,
            Err(e) => wants_grammar && !worker_capable && e@ == grammar_refusal(),
        },
{
    if wants_grammar && !worker_capable {
        Err(
            ApiError::invalid_request(
                "this model's worker does not support structured output (response_format); serve the model with the rust worker to enable it".to_owned(),
            ),
        )
    } else {
        Ok(())
    }
}

/// The submission of a validated chat request, once its prompt is tokenized.
pub fn plan_chat(
    validated: &ValidatedChat,
    entry: &ModelEntry,
    request_id: &str,
    token_ids: Vec<u32>,
    max_context_len: u32,
    wants_grammar: bool,
    worker_capable: bool,
) -> (r: Result<SubmitPlan, ApiError>)
    requires
        token_ids@.len() <= u32::MAX,
    ensures
        match r {
            Ok(plan) => {
                let n = token_ids@.len() as u32;
                &&& n > 0
                &&& !wants_grammar || worker_capable
                &&& !prompt::overflows(n, max_context_len)
                &&& carries(
                    plan,
                    request_id@,
                    token_ids@,
                    validated.sampling,
                    crate::openai::chat_cap(validated.max_tokens, n, max_context_len),
                    matched_by_worker(*entry, text::list_view(validated.stop_strings@)),
                )
            },
            Err(e) => if token_ids@.len() == 0 {
                e@ == error::invalid_request("rendered prompt is empty"@)
            } else if prompt::overflows(token_ids@.len() as u32, max_context_len) {
                e@ == error::context_length_exceeded(
                    prompt::overflow_message(token_ids@.len() as u32, max_context_len),
                )
            } else {
                wants_grammar && !worker_capable && e@ == grammar_refusal()
            },
        },
{
    if token_ids.len() == 0 {
        return Err(ApiError::invalid_request("rendered prompt is empty".to_owned()));
    }
    let prompt_tokens: u32 = token_ids.len() as u32;
    let max_tokens: u32 = match validated.effective_max_tokens(prompt_tokens, max_context_len) {
        Ok(n) => n,
        Err(e) => return Err(e),
    };
    if let Err(e) = require_grammar(wants_grammar, worker_capable) {
        return Err(e);
    }
    Ok(
        SubmitPlan {
            request_id: request_id.to_owned(),
            token_ids,
            sampling: validated.sampling,
            max_tokens,
            stop_strings: worker_stop_strings(entry, &validated.stop_strings),
        },
    )
}

/// The id of a response to a request.
pub open spec fn named_after(prefix: Seq<char>, request_id: Seq<char>) -> Seq<char> {
    prefix + scan::without(request_id, '-')
}

/// The id of a response: the endpoint's prefix and the request id without its
/// dashes.
pub fn response_id(prefix: &str, request_id: &str) -> (r: String)
    ensures
        r@ == named_after(prefix@, request_id@),
{
    let v: Vec<char> = scan::strip_char(&text::chars_of(request_id), '-');
    let mut out: String = prefix.to_owned();
    out.append(text::string_of(&v).as_str());
    out
}

/// What the stop-string matcher let through, and the string it fired on.
#[derive(Debug)]
pub struct Released {
    pub text: String,
    pub hit: Option<String>,
}

/// What the matcher let through of the decoder's tail, the string it fired
/// on, and what it had held back.
#[derive(Debug)]
pub struct TailRelease {
    pub text: String,
    pub hit: Option<String>,
    pub held: String,
}

/// Turns a worker's chunks into client-visible text.
#[derive(Debug)]
pub enum TextPipeline {
    /// The worker owns its tokenizer: chunks carry final text.
    Passthrough,
    /// Chunks carry bare token ids; the gateway detokenizes and matches stop
    /// strings.
    Decode {
        /// Tokens consumed from the worker so far.
        tokens_seen: u32,
        /// Frozen at the chunk whose text completed a stop string.
        tokens_at_match: Option<u32>,
        /// The stop string that fired.
        stop_hit: Option<String>,
    },
}

/// The mathematical value of a [`TextPipeline`].
#[verifier::ext_equal]
pub struct PipelineView {
    /// The gateway detokenizes.
    pub decode: bool,
    pub seen: u32,
    pub at_match: Option<u32>,
    pub hit: Option<Seq<char>>,
}

/// What a chunk's tokens decoded to: the text let through and the stop string
/// that fired, or why they did not decode.
pub type DecodedView = Result<(Seq<char>, Option<Seq<char>>), Seq<char>>;

impl PipelineView {
    /// A stop string has fired.
    pub open spec fn matched(self) -> bool {
        self.decode && self.at_match is Some
    }

    /// The next chunk's tokens are to be decoded.
    pub open spec fn wants(self) -> bool {
        self.decode && self.at_match is None
    }

    /// The pipeline after a chunk of `count` tokens.
    pub open spec fn after_push(self, count: u32, decoded: DecodedView) -> PipelineView {
        if !self.wants() {
            self
        } else {
            let seen = (self.seen + count) as u32;
            match decoded {
                Ok((_, Some(hit))) => PipelineView {
                    seen,
                    at_match: Some(seen),
                    hit: Some(hit),
                    ..self
                },
                _ => PipelineView { seen, ..self },
            }
        }
    }

    /// The text that chunk adds to the completion.
    pub open spec fn text_of(self, chunk: Seq<char>, decoded: DecodedView) -> Result<
        Seq<char>,
        ApiErrorView,
    > {
        if !self.decode {
            Ok(chunk)
        } else if self.at_match is Some {
            Ok(Seq::empty())
        } else {
            match decoded {
                Ok((text, _)) => Ok(text),
                Err(m) => Err(error::internal("detokenization failed: "@ + m)),
            }
        }
    }
}

impl View for TextPipeline {
    type V = PipelineView;

    open spec fn view(&self) -> PipelineView {
        match self {
            TextPipeline::Passthrough => PipelineView {
                decode: false,
                seen: 0,
                at_match: None,
                hit: None,
            },
            TextPipeline::Decode { tokens_seen, tokens_at_match, stop_hit } => PipelineView {
                decode: true,
                seen: *tokens_seen,
                at_match: *tokens_at_match,
                hit: text::opt_view(*stop_hit),
            },
        }
    }
}

/// What a decoding step gave, as a value.
pub open spec fn decoded_view(d: Result<Released, String>) -> DecodedView {
    match d {
        Ok(r) => Ok((r.text@, text::opt_view(r.hit))),
        Err(m) => Err(m@),
    }
}

/// What the decoder's tail gave, as a value: without a hit, what was held
/// back follows.
pub open spec fn tail_view(d: Result<TailRelease, String>) -> DecodedView {
    match d {
        Ok(r) => Ok(
            (
                if r.hit is Some {
                    r.text@
                } else {
                    r.text@ + r.held@
                },
                text::opt_view(r.hit),
            ),
        ),
        Err(m) => Err(m@),
    }
}

fn detok_error(message: &str) -> (r: ApiError)
    ensures
        r@ == error::internal("detokenization failed: "@ + message@),
{
    let mut m: String = "detokenization failed: ".to_owned();
    m.append(message);
    ApiError::internal(m)
}

/// The pipeline of a model before the first chunk.
pub open spec fn fresh_pipeline(entry: ModelEntry) -> PipelineView {
    PipelineView { decode: entry.has_tokenizer, seen: 0, at_match: None, hit: None }
}

impl TextPipeline {
    /// The pipeline of a model: the gateway detokenizes where it holds the
    /// tokenizer.
    pub fn for_entry(entry: &ModelEntry) -> (r: Self)
        ensures
            r@ == fresh_pipeline(*entry),
    {
        if entry.has_tokenizer {
            TextPipeline::Decode { tokens_seen: 0, tokens_at_match: None, stop_hit: None }
        } else {
            TextPipeline::Passthrough
        }
    }

    /// Whether the next chunk's tokens are to be decoded. After a match they
    /// are not: they are the worker's overshoot.
    pub fn wants_decoding(&self) -> (r: bool)
        ensures
            r == self@.wants(),
    {
        match self {
            TextPipeline::Passthrough => false,
            TextPipeline::Decode { tokens_at_match, .. } => tokens_at_match.is_none(),
        }
    }

    /// Text safe to emit for a chunk of `count` tokens. `chunk` is the text a
    /// tokenizer-owning worker sent; `decoded` what the tokens decoded to,
    /// where decoding was wanted. Everything after a match is dropped.
    pub fn push(&mut self, chunk: String, count: u32, decoded: Option<Result<Released, String>>)
        -> (r: Result<String, ApiError>)
        requires
            old(self)@.wants() ==> decoded is Some && old(self)@.seen + count <= u32::MAX,
        ensures
            old(self)@.wants() ==> final(self)@ == old(self)@.after_push(
                count,
                decoded_view(decoded->0),
            ),
            !old(self)@.wants() ==> final(self)@ == old(self)@,
            ({
                let expected = old(self)@.text_of(chunk@, decoded_view(decoded->0));
                match r {
                    Ok(s) => expected == Ok::<Seq<char>, ApiErrorView>(s@),
                    Err(e) => expected == Err::<Seq<char>, ApiErrorView>(e@),
                }
            }),
    {
        match self {
            TextPipeline::Passthrough => Ok(chunk),
            TextPipeline::Decode { tokens_seen, tokens_at_match, stop_hit } => {
                if tokens_at_match.is_some() {
                    let s: String = String::new();
                    assert(s@ =~= Seq::<char>::empty());
                    return Ok(s);
                }
                let seen: u32 = *tokens_seen + count;
                *tokens_seen = seen;
                match decoded {
                    None => Ok(String::new()),
                    Some(Err(m)) => Err(detok_error(m.as_str())),
                    Some(Ok(released)) => {
                        if released.hit.is_some() {
                            *tokens_at_match = Some(seen);
                            *stop_hit = released.hit;
                        }
                        Ok(released.text)
                    },
                }
            },
        }
    }

    /// Final text at the end of the stream: the decoder's tail and what the
    /// matcher held back, unless a stop string had fired.
    pub fn finish(&mut self, tail: Option<Result<TailRelease, String>>) -> (r: Result<
        String,
        ApiError,
    >)
        requires
            old(self)@.wants() ==> tail is Some,
        ensures
            old(self)@.wants() ==> final(self)@ == old(self)@.after_push(0, tail_view(tail->0)),
            !old(self)@.wants() ==> final(self)@ == old(self)@,
            ({
                let expected = old(self)@.text_of(Seq::empty(), tail_view(tail->0));
                match r {
                    Ok(s) => expected == Ok::<Seq<char>, ApiErrorView>(s@),
                    Err(e) => expected == Err::<Seq<char>, ApiErrorView>(e@),
                }
            }),
    {
        match self {
            TextPipeline::Passthrough => {
                let s: String = String::new();
                assert(s@ =~= Seq::<char>::empty());
                Ok(s)
            },
            TextPipeline::Decode { tokens_seen, tokens_at_match, stop_hit } => {
                if tokens_at_match.is_some() {
                    let s: String = String::new();
                    assert(s@ =~= Seq::<char>::empty());
                    return Ok(s);
                }
                match tail {
                    None => Ok(String::new()),
                    Some(Err(m)) => Err(detok_error(m.as_str())),
                    Some(Ok(released)) => {
                        let mut text: String = released.text;
                        if released.hit.is_some() {
                            *tokens_at_match = Some(*tokens_seen);
                            *stop_hit = released.hit;
                        } else {
                            text.append(released.held.as_str());
                        }
                        Ok(text)
                    },
                }
            },
        }
    }

    /// One chunk of the stream. The worker is to be cancelled at the chunk
    /// that completes a stop string: what it would still generate is wasted.
    pub fn step(&mut self, chunk: String, count: u32, decoded: Option<Result<Released, String>>)
        -> (r: Result<(String, bool), ApiError>)
        requires
            old(self)@.wants() ==> decoded is Some && old(self)@.seen + count <= u32::MAX,
        ensures
            old(self)@.wants() ==> final(self)@ == old(self)@.after_push(
                count,
                decoded_view(decoded->0),
            ),
            !old(self)@.wants() ==> final(self)@ == old(self)@,
            ({
                let expected = old(self)@.text_of(chunk@, decoded_view(decoded->0));
                match r {
                    Ok((s, cancel)) => expected == Ok::<Seq<char>, ApiErrorView>(s@) && cancel == (
                    !old(self)@.matched() && final(self)@.matched()),
                    Err(e) => expected == Err::<Seq<char>, ApiErrorView>(e@),
                }
            }),
    {
        let was_matched: bool = self.stop_matched();
        match self.push(chunk, count, decoded) {
            Ok(text) => {
                let cancel: bool = !was_matched && self.stop_matched();
                Ok((text, cancel))
            },
            Err(e) => Err(e),
        }
    }

    pub fn stop_matched(&self) -> (r: bool)
        ensures
            r == self@.matched(),
    {
        match self {
            TextPipeline::Passthrough => false,
            TextPipeline::Decode { tokens_at_match, .. } => tokens_at_match.is_some(),
        }
    }

    /// The stop string a gateway-side match fired on.
    pub fn matched_stop(&self) -> (r: Option<String>)
        ensures
            text::opt_view(r) == self@.hit,
    {
        match self {
            TextPipeline::Passthrough => None,
            TextPipeline::Decode { stop_hit, .. } => text::clone_opt(stop_hit),
        }
    }

    /// On a gateway-side match, replaces the worker's completion count with
    /// the client-visible one.
    pub fn apply_usage(&self, finished: &mut Finished)
        ensures
            *final(finished) == counted(self@, *old(finished)),
    {
        match self {
            TextPipeline::Passthrough => {},
            TextPipeline::Decode { tokens_at_match, .. } => {
                if let Some(count) = tokens_at_match {
                    finished.completion_tokens = *count;
                }
            },
        }
    }
}

/// Once a stop string has fired, no chunk adds text, and neither the count of
/// the completion nor the string it fired on changes again.
pub proof fn law_nothing_follows_a_stop_match(
    p: PipelineView,
    chunk: Seq<char>,
    count: u32,
    decoded: DecodedView,
)
    requires
        p.matched(),
    ensures
        p.after_push(count, decoded) == p,
        p.text_of(chunk, decoded) == Ok::<Seq<char>, ApiErrorView>(Seq::empty()),
{
}

/// The chunk that completes a stop string counts: the completion's tokens are
/// those seen up to and including it.
pub proof fn law_usage_counts_up_to_the_match(
    p: PipelineView,
    count: u32,
    text: Seq<char>,
    hit: Seq<char>,
)
    requires
        p.wants(),
        p.seen + count <= u32::MAX,
    ensures
        p.after_push(count, Ok((text, Some(hit)))).matched(),
        p.after_push(count, Ok((text, Some(hit)))).at_match == Some((p.seen + count) as u32),
        p.after_push(count, Ok((text, Some(hit)))).hit == Some(hit),
{
}

/// An increment of parsed output.
#[derive(Debug)]
pub enum ToolEvent {
    Content(String),
    CallStart { index: usize, name: String },
    CallArgs { index: usize, delta: String },
    CallEnd { index: usize },
}

/// The mathematical value of a [`ToolEvent`].
#[verifier::ext_equal]
pub enum ToolEventView {
    Content(Seq<char>),
    CallStart { index: usize, name: Seq<char> },
    CallArgs { index: usize, delta: Seq<char> },
    CallEnd { index: usize },
}

impl View for ToolEvent {
    type V = ToolEventView;

    open spec fn view(&self) -> ToolEventView {
        match self {
            ToolEvent::Content(t) => ToolEventView::Content(t@),
            ToolEvent::CallStart { index, name } => ToolEventView::CallStart {
                index: *index,
                name: name@,
            },
            ToolEvent::CallArgs { index, delta } => ToolEventView::CallArgs {
                index: *index,
                delta: delta@,
            },
            ToolEvent::CallEnd { index } => ToolEventView::CallEnd { index: *index },
        }
    }
}

pub open spec fn events_view(events: Seq<ToolEvent>) -> Seq<ToolEventView> {
    Seq::new(events.len(), |i: int| events[i]@)
}

/// How many calls end among the events.
pub open spec fn ends(events: Seq<ToolEventView>) -> nat
    decreases events.len(),
{
    if events.len() == 0 {
        0
    } else {
        ends(events.drop_last()) + (if events.last() is CallEnd {
            1nat
        } else {
            0
        })
    }
}

/// Routes the pipeline's output through the tool-call parser when the request
/// has tools, or passes it on as plain content.
#[derive(Debug, Clone, Copy, PartialEq, Eq, Structural)]
pub struct ToolRoute {
    pub parses: bool,
    /// Calls whose arguments finished cleanly.
    pub calls_completed: usize,
}

/// What becomes of a text: what the parser made of it, or plain content.
pub open spec fn routed(
    parses: bool,
    text: Seq<char>,
    parsed: Seq<ToolEventView>,
) -> Seq<ToolEventView> {
    if parses {
        parsed
    } else if text.len() == 0 {
        Seq::empty()
    } else {
        seq![ToolEventView::Content(text)]
    }
}

/// Why a completion ended, as it is reported: one that ended by calling tools says so.
pub open spec fn reported_reason(calls_completed: usize, reason: Seq<char>) -> Seq<char> {
    if calls_completed > 0 && reason == "stop"@ {
        "tool_calls"@
    } else {
        reason
    }
}

impl ToolRoute {
    /// The route after what the parser made of a text.
    pub open spec fn after(self, parsed: Seq<ToolEventView>) -> ToolRoute {
        ToolRoute {
            calls_completed: (self.calls_completed + (if self.parses {
                ends(parsed)
            } else {
                0
            })) as usize,
            ..self
        }
    }

    pub fn new(parses: bool) -> (r: Self)
        ensures
            r == (ToolRoute { parses, calls_completed: 0 }),
    {
        ToolRoute { parses, calls_completed: 0 }
    }

    /// Passes on one text. `parsed` is what the parser made of it, where
    /// there is one; at the end of the stream that includes what it flushed.
    pub fn push(&mut self, text: String, parsed: Vec<ToolEvent>) -> (r: Vec<ToolEvent>)
        requires
            old(self).parses ==> old(self).calls_completed + ends(events_view(parsed@))
                <= usize::MAX,
        ensures
            events_view(r@) == routed(old(self).parses, text@, events_view(parsed@)),
            *final(self) == old(self).after(events_view(parsed@)),
    {
        if !self.parses {
            let mut out: Vec<ToolEvent> = Vec::new();
            if !text.as_str().is_empty() {
                out.push(ToolEvent::Content(text));
            }
            assert(events_view(out@) =~= routed(false, text@, events_view(parsed@)));
            return out;
        }
        let ghost all = events_view(parsed@);
        let mut count: usize = 0;
        let mut i: usize = 0;
        assert(all.take(0) =~= Seq::empty());
        while i < parsed.len()
            invariant
                i <= parsed@.len(),
                all == events_view(parsed@),
                count == ends(all.take(i as int)),
                count <= i,
            decreases parsed@.len() - i,
        {
            assert(all.take(i + 1).drop_last() =~= all.take(i as int));
            assert(all.take(i + 1).last() == parsed@[i as int]@);
            if let ToolEvent::CallEnd { .. } = &parsed[i] {
                count = count + 1;
            }
            i = i + 1;
        }
        assert(all.take(i as int) =~= all);
        self.calls_completed = self.calls_completed + count;
        parsed
    }

    /// A completion that ended by emitting tool calls reports `tool_calls`; a
    /// truncated one stays `length`.
    pub fn adjust_reason(&self, reason: &'static str) -> (r: &'static str)
        ensures
            r@ == reported_reason(self.calls_completed, reason@),
    {
        if self.calls_completed > 0 && text::same(reason, "stop") {
            "tool_calls"
        } else {
            reason
        }
    }
}

/// A lower-case hexadecimal digit.
pub open spec fn hex_digit(c: char) -> bool {
    ('0' <= c && c <= '9') || ('a' <= c && c <= 'f')
}

/// A text of hexadecimal digits behind a prefix.
pub open spec fn is_tagged_id(id: Seq<char>, prefix: Seq<char>) -> bool {
    &&& id.len() == prefix.len() + 32
    &&& id.subrange(0, prefix.len() as int) == prefix
    &&& forall|i: int| prefix.len() <= i < id.len() ==> hex_digit(#[trigger] id[i])
}

/// `uuid::Uuid::now_v7`, in its simple form. It depends on the time and on
/// chance; every outcome is 32 lower-case hexadecimal digits.
#[verifier::external_body]
pub(crate) fn fresh_uuid() -> (r: String)
    ensures
        r@.len() == 32,
        forall|i: int| 0 <= i < 32 ==> hex_digit(#[trigger] r@[i]),
{
    uuid::Uuid::now_v7().simple().to_string()
}

/// A fresh tool-call id.
pub fn new_call_id() -> (r: String)
    ensures
        is_tagged_id(r@, "call_"@),
{
    let mut id: String = "call_".to_owned();
    id.append(fresh_uuid().as_str());
    assert(id@.subrange(0, "call_"@.len() as int) =~= "call_"@);
    id
}

/// Every id is fresh behind the prefix.
pub open spec fn all_tagged(ids: Seq<Seq<char>>, prefix: Seq<char>) -> bool {
    forall|i: int| 0 <= i < ids.len() ==> is_tagged_id(#[trigger] ids[i], prefix)
}

/// The delta of an event; a call that starts has a fresh id.
pub open spec fn fresh_delta(d: Delta, e: ToolEventView) -> bool {
    exists|id: Seq<char>| #[trigger]
        delta_ok(d, e, id) && (e is CallStart ==> is_tagged_id(id, "call_"@))
}

/// What one tool event adds to a stream: the pieces of its delta.
pub open spec fn delta_ok(d: Delta, e: ToolEventView, id: Seq<char>) -> bool {
    match e {
        ToolEventView::Content(t) => d.role is None && text::opt_view(d.content) == Some(t)
            && d.tool_calls is None,
        ToolEventView::CallStart { index, name } => {
            &&& d.role is None
            &&& d.content is None
            &&& d.tool_calls is Some
            &&& d.tool_calls->0@.len() == 1
            &&& ({
                let c = d.tool_calls->0@[0];
                c.index == index && text::opt_view(c.id) == Some(id) && c.call_type is Some
                    && c.call_type->0@ == "function"@ && text::opt_view(c.name) == Some(name)
                    && c.arguments@ == Seq::<char>::empty()
            })
        },
        ToolEventView::CallArgs { index, delta } => {
            &&& d.role is None
            &&& d.content is None
            &&& d.tool_calls is Some
            &&& d.tool_calls->0@.len() == 1
            &&& ({
                let c = d.tool_calls->0@[0];
                c.index == index && c.id is None && c.call_type is None && c.name is None
                    && c.arguments@ == delta
            })
        },
        ToolEventView::CallEnd { .. } => false,
    }
}

/// One tool event as one stream delta; the end of a call has none. `id` names
/// the call that starts.
pub fn tool_event_delta(event: ToolEvent, id: String) -> (r: Option<Delta>)
    ensures
        match r {
            None => event@ is CallEnd,
            Some(d) => delta_ok(d, event@, id@),
        },
{
    match event {
        ToolEvent::Content(t) => Some(Delta { role: None, content: Some(t), tool_calls: None }),
        ToolEvent::CallStart { index, name } => {
            let mut calls: Vec<DeltaToolCall> = Vec::new();
            calls.push(
                DeltaToolCall {
                    index: index as u64,
                    id: Some(id),
                    call_type: Some("function"),
                    name: Some(name),
                    arguments: String::new(),
                },
            );
            Some(Delta { role: None, content: None, tool_calls: Some(calls) })
        },
        ToolEvent::CallArgs { index, delta } => {
            let mut calls: Vec<DeltaToolCall> = Vec::new();
            calls.push(
                DeltaToolCall {
                    index: index as u64,
                    id: None,
                    call_type: None,
                    name: None,
                    arguments: delta,
                },
            );
            Some(Delta { role: None, content: None, tool_calls: Some(calls) })
        },
        ToolEvent::CallEnd { .. } => None,
    }
}

/// How a worker's stream failed.
#[derive(Debug)]
pub enum StreamFailure {
    /// It ended without a result.
    Closed,
    Rpc(RpcStatus),
    /// A budget of that many seconds expired.
    TimedOut { scope: TimeoutScope, secs: u64 },
}

pub open spec fn failure_view(f: StreamFailure) -> ApiErrorView {
    match f {
        StreamFailure::Closed => error::worker_crashed(
            "the worker stream ended without a result (worker crashed mid-request)"@,
        ),
        StreamFailure::Rpc(status) => error::of_worker_status(status.code, status.message@),
        StreamFailure::TimedOut { scope, secs } => timeout::timeout_error(scope, secs),
    }
}

impl StreamFailure {
    /// What the client is told.
    pub fn error(&self) -> (r: ApiError)
        ensures
            r@ == failure_view(*self),
    {
        match self {
            StreamFailure::Closed => ApiError::worker_crashed(
                "the worker stream ended without a result (worker crashed mid-request)".to_owned(),
            ),
            StreamFailure::Rpc(status) => ApiError::from_worker_status(status),
            StreamFailure::TimedOut { scope, secs } => timeout::expired(*scope, *secs),
        }
    }
}

/// Terminal outcome of a worker's stream.
#[derive(Debug)]
pub enum StreamEnd {
    Done { finished: Finished, finish_reason: &'static str },
    Failed(ApiError),
}

/// The finish reason of a stream that completed, or the error of one that did
/// not.
pub open spec fn outcome(finished: Finished, stop_matched: bool) -> Result<
    Seq<char>,
    ApiErrorView,
> {
    if stop_matched {
        Ok("stop"@)
    } else {
        match finished.finish_reason {
            FinishReason::Stop => Ok("stop"@),
            FinishReason::Length => Ok("length"@),
            FinishReason::Error => Err(
                error::of_worker_finished(finished.error_code, finished.error_detail@),
            ),
            FinishReason::Cancelled => Err(error::worker_crashed("request was cancelled"@)),
            FinishReason::PreemptedFatal | FinishReason::Unspecified => Err(
                error::worker_crashed("request could not be completed (preempted); retry"@),
            ),
        }
    }
}

/// Classifies the terminal event. A gateway-side stop match ends the request
/// as a normal stop however the worker's stream terminated.
pub fn classify_finished(finished: Finished, stop_matched: bool) -> (r: StreamEnd)
    ensures
        match r {
            StreamEnd::Done { finished: f, finish_reason } => f == finished && outcome(
                finished,
                stop_matched,
            ) == Ok::<Seq<char>, ApiErrorView>(finish_reason@),
            StreamEnd::Failed(e) => outcome(finished, stop_matched) == Err::<
                Seq<char>,
                ApiErrorView,
            >(e@),
        },
{
    if stop_matched {
        return StreamEnd::Done { finish_reason: "stop", finished };
    }
    match finished.finish_reason {
        FinishReason::Stop => StreamEnd::Done { finish_reason: "stop", finished },
        FinishReason::Length => StreamEnd::Done { finish_reason: "length", finished },
        FinishReason::Error => StreamEnd::Failed(ApiError::from_worker_finished(&finished)),
        FinishReason::Cancelled => StreamEnd::Failed(
            ApiError::worker_crashed("request was cancelled".to_owned()),
        ),
        FinishReason::PreemptedFatal | FinishReason::Unspecified => StreamEnd::Failed(
            ApiError::worker_crashed(
                "request could not be completed (preempted); retry".to_owned(),
            ),
        ),
    }
}

/// A gateway-side stop match always wins, whatever the worker reports.
pub proof fn law_stop_match_always_wins(finished: Finished)
    ensures
        outcome(finished, true) == Ok::<Seq<char>, ApiErrorView>("stop"@),
{
}

/// The usage a finished request reports.
pub open spec fn reported_usage(finished: Finished) -> Usage {
    Usage {
        prompt_tokens: finished.prompt_tokens,
        completion_tokens: finished.completion_tokens,
        total_tokens: (finished.prompt_tokens + finished.completion_tokens) as u32,
    }
}

/// The usage a finished request reports.
pub fn usage_of(finished: &Finished) -> (r: Usage)
    requires
        finished.prompt_tokens + finished.completion_tokens <= u32::MAX,
    ensures
        r == reported_usage(*finished),
{
    Usage {
        prompt_tokens: finished.prompt_tokens,
        completion_tokens: finished.completion_tokens,
        total_tokens: finished.prompt_tokens + finished.completion_tokens,
    }
}

/// A tool call as far as its arguments have arrived.
#[derive(Debug)]
pub struct CallText {
    pub name: String,
    pub arguments: String,
}

/// The mathematical value of a [`CallText`].
#[verifier::ext_equal]
pub struct CallTextView {
    pub name: Seq<char>,
    pub arguments: Seq<char>,
}

impl View for CallText {
    type V = CallTextView;

    open spec fn view(&self) -> CallTextView {
        CallTextView { name: self.name@, arguments: self.arguments@ }
    }
}

pub open spec fn call_texts(calls: Seq<CallText>) -> Seq<CallTextView> {
    Seq::new(calls.len(), |i: int| calls[i]@)
}

/// The content and the calls of a response, as far as they have arrived.
#[verifier::ext_equal]
pub struct TurnView {
    pub content: Seq<char>,
    pub calls: Seq<CallTextView>,
}

/// What one event adds to a response.
pub open spec fn with_event(t: TurnView, e: ToolEventView) -> TurnView {
    match e {
        ToolEventView::Content(text) => TurnView { content: t.content + text, ..t },
        ToolEventView::CallStart { name, .. } => TurnView {
            calls: t.calls.push(CallTextView { name, arguments: Seq::empty() }),
            ..t
        },
        ToolEventView::CallArgs { index, delta } => TurnView {
            calls: t.calls.update(
                index as int,
                CallTextView {
                    arguments: t.calls[index as int].arguments + delta,
                    ..t.calls[index as int]
                },
            ),
            ..t
        },
        ToolEventView::CallEnd { .. } => t,
    }
}

/// What a run of events adds to a response.
pub open spec fn with_events(t: TurnView, events: Seq<ToolEventView>) -> TurnView
    decreases events.len(),
{
    if events.len() == 0 {
        t
    } else {
        with_event(with_events(t, events.drop_last()), events.last())
    }
}

/// Every piece of arguments belongs to a call that has started, given how
/// many had before.
pub open spec fn calls_known(started: nat, events: Seq<ToolEventView>) -> bool
    decreases events.len(),
{
    if events.len() == 0 {
        true
    } else {
        calls_known(started, events.drop_last()) && match events.last() {
            ToolEventView::CallArgs { index, .. } => index < started + starts(events.drop_last()),
            _ => true,
        }
    }
}

/// How many calls start among the events.
pub open spec fn starts(events: Seq<ToolEventView>) -> nat
    decreases events.len(),
{
    if events.len() == 0 {
        0
    } else {
        starts(events.drop_last()) + (if events.last() is CallStart {
            1nat
        } else {
            0
        })
    }
}

proof fn lemma_calls_len(t: TurnView, events: Seq<ToolEventView>)
    requires
        calls_known(t.calls.len(), events),
    ensures
        with_events(t, events).calls.len() == t.calls.len() + starts(events),
    decreases events.len(),
{
    if events.len() > 0 {
        lemma_calls_len(t, events.drop_last());
    }
}

proof fn lemma_calls_known_prefix(started: nat, events: Seq<ToolEventView>, n: int)
    requires
        0 <= n <= events.len(),
        calls_known(started, events),
    ensures
        calls_known(started, events.take(n)),
    decreases events.len(),
{
    if n < events.len() {
        assert(events.drop_last().take(n) =~= events.take(n));
        lemma_calls_known_prefix(started, events.drop_last(), n);
    } else {
        assert(events.take(n) =~= events);
    }
}

/// Whether every piece of arguments belongs to a call that has started.
pub fn known_calls(started: usize, events: &Vec<ToolEvent>) -> (r: bool)
    requires
        started + events@.len() <= usize::MAX,
    ensures
        r == calls_known(started as nat, events_view(events@)),
{
    let ghost all = events_view(events@);
    let mut n: usize = started;
    let mut ok: bool = true;
    let mut i: usize = 0;
    assert(all.take(0) =~= Seq::empty());
    while i < events.len()
        invariant
            i <= events@.len(),
            all == events_view(events@),
            started + events@.len() <= usize::MAX,
            n == started + starts(all.take(i as int)),
            n <= started + i,
            ok == calls_known(started as nat, all.take(i as int)),
        decreases events@.len() - i,
    {
        assert(all.take(i + 1).drop_last() =~= all.take(i as int));
        assert(all.take(i + 1).last() == events@[i as int]@);
        match &events[i] {
            ToolEvent::CallStart { .. } => {
                n = n + 1;
            },
            ToolEvent::CallArgs { index, .. } => {
                if *index >= n {
                    ok = false;
                }
            },
            _ => {},
        }
        i = i + 1;
    }
    assert(all.take(i as int) =~= all);
    ok
}

/// A response being collected.
#[derive(Debug)]
pub struct Turn {
    pub content: String,
    /// Calls in the order they started.
    pub calls: Vec<CallText>,
}

impl View for Turn {
    type V = TurnView;

    open spec fn view(&self) -> TurnView {
        TurnView { content: self.content@, calls: call_texts(self.calls@) }
    }
}

impl Turn {
    pub fn new() -> (r: Self)
        ensures
            r@ == (TurnView { content: Seq::empty(), calls: Seq::empty() }),
    {
        let r: Turn = Turn { content: String::new(), calls: Vec::new() };
        assert(r@.calls =~= Seq::empty());
        r
    }

    /// Adds a run of events.
    pub fn apply(&mut self, events: &Vec<ToolEvent>)
        requires
            calls_known(old(self)@.calls.len(), events_view(events@)),
        ensures
            final(self)@ == with_events(old(self)@, events_view(events@)),
    {
        let ghost start = self@;
        let ghost all = events_view(events@);
        let mut i: usize = 0;
        assert(all.take(0) =~= Seq::empty());
        while i < events.len()
            invariant
                i <= events@.len(),
                all == events_view(events@),
                calls_known(start.calls.len(), all),
                self@ == with_events(start, all.take(i as int)),
            decreases events@.len() - i,
        {
            let ghost before = self@;
            proof {
                assert(all.take(i + 1).drop_last() =~= all.take(i as int));
                assert(all.take(i + 1).last() == events@[i as int]@);
                lemma_calls_known_prefix(start.calls.len(), all, i as int);
                lemma_calls_known_prefix(start.calls.len(), all, i + 1);
                lemma_calls_len(start, all.take(i as int));
            }
            match &events[i] {
                ToolEvent::Content(t) => {
                    self.content.append(t.as_str());
                    assert(self@.calls =~= before.calls);
                },
                ToolEvent::CallStart { name, .. } => {
                    self.calls.push(CallText { name: name.clone(), arguments: String::new() });
                    assert(self.calls@.last().arguments@ =~= Seq::<char>::empty());
                    assert(self@.calls =~= with_event(before, events@[i as int]@).calls);
                },
                ToolEvent::CallArgs { index, delta } => {
                    self.calls[*index].arguments.append(delta.as_str());
                    assert(self@.calls =~= with_event(before, events@[i as int]@).calls);
                },
                ToolEvent::CallEnd { .. } => {},
            }
            i = i + 1;
        }
        assert(all.take(i as int) =~= all);
    }
}

/// What every response of a request carries.
#[derive(Debug)]
pub struct ResponseHead {
    pub id: String,
    pub created: u64,
    pub model: String,
}

/// The calls of a finished response, with their ids.
pub open spec fn response_calls(calls: Seq<CallTextView>, ids: Seq<Seq<char>>, out: Seq<
    ResponseToolCall,
>) -> bool {
    &&& out.len() == calls.len()
    &&& forall|i: int|
        0 <= i < calls.len() ==> (#[trigger] out[i]).id@ == ids[i] && out[i].name@ == calls[i].name
            && out[i].arguments@ == calls[i].arguments
}

fn finish_calls(calls: Vec<CallText>, ids: Vec<String>) -> (r: Vec<ResponseToolCall>)
    requires
        ids@.len() == calls@.len(),
    ensures
        response_calls(call_texts(calls@), text::list_view(ids@), r@),
{
    let mut out: Vec<ResponseToolCall> = Vec::new();
    let mut i: usize = 0;
    while i < calls.len()
        invariant
            i <= calls@.len(),
            ids@.len() == calls@.len(),
            out@.len() == i,
            forall|j: int|
                0 <= j < i ==> (#[trigger] out@[j]).id@ == ids@[j]@ && out@[j].name@
                    == calls@[j].name@ && out@[j].arguments@ == calls@[j].arguments@,
        decreases calls@.len() - i,
    {
        out.push(
            ResponseToolCall {
                id: ids[i].clone(),
                name: calls[i].name.clone(),
                arguments: calls[i].arguments.clone(),
            },
        );
        i = i + 1;
    }
    out
}

/// The full response of a turn that completed.
pub open spec fn is_chat_completion(
    r: ChatCompletion,
    head: ResponseHead,
    turn: Turn,
    calls_completed: usize,
    finished: Finished,
    reason: Seq<char>,
    ids: Seq<Seq<char>>,
) -> bool {
    &&& r.id@ == head.id@
    &&& r.object@ == "chat.completion"@
    &&& r.created == head.created
    &&& r.model@ == head.model@
    &&& r.choices@.len() == 1
    &&& r.choices@[0].index == 0
    &&& r.choices@[0].message.role@ == "assistant"@
    &&& text::opt_view(r.choices@[0].message.content) == (if turn.calls@.len() > 0
        && turn@.content.len() == 0 {
        None
    } else {
        Some(turn@.content)
    })
    &&& match r.choices@[0].message.tool_calls {
        None => turn.calls@.len() == 0,
        Some(calls) => turn.calls@.len() > 0 && response_calls(turn@.calls, ids, calls@),
    }
    &&& r.choices@[0].finish_reason@ == reported_reason(calls_completed, reason)
    &&& r.usage == reported_usage(finished)
}

/// The full response of a turn that completed. `ids` name its calls.
pub fn complete_chat(
    head: ResponseHead,
    turn: Turn,
    route: &ToolRoute,
    finished: &Finished,
    finish_reason: &'static str,
    ids: Vec<String>,
) -> (r: ChatCompletion)
    requires
        ids@.len() == turn.calls@.len(),
        finished.prompt_tokens + finished.completion_tokens <= u32::MAX,
    ensures
        is_chat_completion(
            r,
            head,
            turn,
            route.calls_completed,
            *finished,
            finish_reason@,
            text::list_view(ids@),
        ),
{
    let content: Option<String> = if turn.calls.len() > 0 && turn.content.as_str().is_empty() {
        None
    } else {
        Some(turn.content)
    };
    let tool_calls: Option<Vec<ResponseToolCall>> = if turn.calls.len() == 0 {
        None
    } else {
        Some(finish_calls(turn.calls, ids))
    };
    let mut choices: Vec<Choice> = Vec::new();
    choices.push(
        Choice {
            index: 0,
            message: AssistantMessage { role: "assistant", content, tool_calls },
            finish_reason: route.adjust_reason(finish_reason),
        },
    );
    ChatCompletion {
        id: head.id,
        object: "chat.completion",
        created: head.created,
        model: head.model,
        choices,
        usage: usage_of(finished),
    }
}

/// The usage field of a data chunk: null when the client asked for usage.
pub open spec fn usage_slot(include_usage: bool) -> Option<Option<Usage>> {
    if include_usage {
        Some(None)
    } else {
        None
    }
}

pub fn usage_slot_of(include_usage: bool) -> (r: Option<Option<Usage>>)
    ensures
        r == usage_slot(include_usage),
{
    if include_usage {
        Some(None)
    } else {
        None
    }
}

/// A chunk that carries one delta.
pub open spec fn is_delta_chunk(
    c: ChatCompletionChunk,
    head: ResponseHead,
    usage: Option<Option<Usage>>,
) -> bool {
    &&& c.id@ == head.id@
    &&& c.object@ == "chat.completion.chunk"@
    &&& c.created == head.created
    &&& c.model@ == head.model@
    &&& c.usage == usage
}

/// A chunk around the given choices.
pub fn chat_chunk(
    head: &ResponseHead,
    choices: Vec<ChunkChoice>,
    usage: Option<Option<Usage>>,
) -> (r: ChatCompletionChunk)
    ensures
        is_delta_chunk(r, *head, usage),
        r.choices == choices,
{
    ChatCompletionChunk {
        id: head.id.clone(),
        object: "chat.completion.chunk",
        created: head.created,
        model: head.model.clone(),
        choices,
        usage,
    }
}

/// The chunk that carries one delta of a stream.
pub fn delta_chunk(
    head: &ResponseHead,
    delta: Delta,
    finish_reason: Option<&'static str>,
    include_usage: bool,
) -> (r: ChatCompletionChunk)
    ensures
        is_delta_chunk(r, *head, usage_slot(include_usage)),
        r.choices@.len() == 1,
        r.choices@[0] == (ChunkChoice { index: 0, delta, finish_reason }),
{
    let mut choices: Vec<ChunkChoice> = Vec::new();
    choices.push(ChunkChoice { index: 0, delta, finish_reason });
    chat_chunk(head, choices, usage_slot_of(include_usage))
}

/// The chunk that opens a stream: it names the role.
pub fn chat_preamble(head: &ResponseHead, include_usage: bool) -> (r: ChatCompletionChunk)
    ensures
        is_delta_chunk(r, *head, usage_slot(include_usage)),
        r.choices@.len() == 1,
        r.choices@[0].index == 0,
        r.choices@[0].finish_reason is None,
        r.choices@[0].delta.role is Some,
        r.choices@[0].delta.role->0@ == "assistant"@,
        text::opt_view(r.choices@[0].delta.content) == Some(Seq::<char>::empty()),
        r.choices@[0].delta.tool_calls is None,
{
    let content: String = String::new();
    assert(content@ =~= Seq::<char>::empty());
    delta_chunk(
        head,
        Delta { role: Some("assistant"), content: Some(content), tool_calls: None },
        None,
        include_usage,
    )
}

/// The events that become deltas: all but the ends of calls.
pub open spec fn visible(events: Seq<ToolEventView>) -> Seq<ToolEventView>
    decreases events.len(),
{
    if events.len() == 0 {
        Seq::empty()
    } else if events.last() is CallEnd {
        visible(events.drop_last())
    } else {
        visible(events.drop_last()).push(events.last())
    }
}

/// The chunks of a run of events, in order.
pub fn chat_deltas(head: &ResponseHead, events: Vec<ToolEvent>, include_usage: bool) -> (r: Vec<
    ChatCompletionChunk,
>)
    ensures
        r@.len() == visible(events_view(events@)).len(),
        forall|i: int|
            0 <= i < r@.len() ==> {
                let c = #[trigger] r@[i];
                &&& is_delta_chunk(c, *head, usage_slot(include_usage))
                &&& c.choices@.len() == 1
                &&& c.choices@[0].index == 0
                &&& c.choices@[0].finish_reason is None
                &&& fresh_delta(c.choices@[0].delta, visible(events_view(events@))[i])
            },
{
    let ghost all = events_view(events@);
    let mut out: Vec<ChatCompletionChunk> = Vec::new();
    let mut events: Vec<ToolEvent> = events;
    let n: usize = events.len();
    let mut i: usize = 0;
    assert(all.take(0) =~= Seq::empty());
    assert(all.subrange(0, n as int) =~= all);
    while i < n
        invariant
            i <= n,
            n == all.len(),
            events@.len() == n - i,
            events_view(events@) == all.subrange(i as int, n as int),
            out@.len() == visible(all.take(i as int)).len(),
            forall|j: int|
                0 <= j < out@.len() ==> {
                    let c = #[trigger] out@[j];
                    &&& is_delta_chunk(c, *head, usage_slot(include_usage))
                    &&& c.choices@.len() == 1
                    &&& c.choices@[0].index == 0
                    &&& c.choices@[0].finish_reason is None
                    &&& fresh_delta(c.choices@[0].delta, visible(all.take(i as int))[j])
                },
        decreases n - i,
    {
        let ghost rest = events_view(events@);
        let event: ToolEvent = events.remove(0);
        let ghost e = event@;
        proof {
            assert(rest[0] == e);
            assert(all[i as int] == e);
            assert(all.take(i + 1).drop_last() =~= all.take(i as int));
            assert(all.take(i + 1).last() == e);
            assert(events_view(events@) =~= all.subrange(i + 1, n as int)) by {
                assert forall|k: int| 0 <= k < events@.len() implies events_view(events@)[k]
                    == all.subrange(i + 1, n as int)[k] by {
                    assert(events_view(events@)[k] == rest[k + 1]);
                }
            }
        }
        let id: String = match &event {
            ToolEvent::CallStart { .. } => new_call_id(),
            _ => String::new(),
        };
        if let Some(delta) = tool_event_delta(event, id) {
            let ghost before = out@;
            assert(delta_ok(delta, e, id@));
            out.push(delta_chunk(head, delta, None, include_usage));
            proof {
                let v0 = visible(all.take(i as int));
                let v1 = visible(all.take(i + 1));
                assert(v1 == v0.push(e));
                assert forall|j: int| 0 <= j < out@.len() implies ({
                    let c = #[trigger] out@[j];
                    &&& is_delta_chunk(c, *head, usage_slot(include_usage))
                    &&& c.choices@.len() == 1
                    &&& c.choices@[0].index == 0
                    &&& c.choices@[0].finish_reason is None
                    &&& fresh_delta(c.choices@[0].delta, v1[j])
                }) by {
                    if j < before.len() {
                        assert(out@[j] == before[j]);
                        assert(v1[j] == v0[j]);
                    } else {
                        assert(delta_ok(out@[j].choices@[0].delta, v1[j], id@));
                    }
                }
            }
        }
        i = i + 1;
    }
    assert(all.take(i as int) =~= all);
    out
}

/// The last chunk of a stream that completed: it carries the finish reason.
pub open spec fn is_final_chunk(c: ChatCompletionChunk, reason: Seq<char>) -> bool {
    &&& c.choices@.len() == 1
    &&& c.choices@[0].index == 0
    &&& c.choices@[0].finish_reason is Some
    &&& c.choices@[0].finish_reason->0@ == reason
    &&& c.choices@[0].delta.role is None
    &&& c.choices@[0].delta.content is None
    &&& c.choices@[0].delta.tool_calls is None
}

/// The items that end a stream that completed: the finish reason, the usage
/// where the client asked for it, and the end marker.
pub fn chat_end(
    head: &ResponseHead,
    route: &ToolRoute,
    finished: &Finished,
    finish_reason: &'static str,
    include_usage: bool,
) -> (r: (ChatCompletionChunk, Option<ChatCompletionChunk>))
    requires
        finished.prompt_tokens + finished.completion_tokens <= u32::MAX,
    ensures
        is_delta_chunk(r.0, *head, usage_slot(include_usage)),
        is_final_chunk(r.0, reported_reason(route.calls_completed, finish_reason@)),
        match r.1 {
            None => !include_usage,
            Some(c) => include_usage && c.choices@.len() == 0 && is_delta_chunk(
                c,
                *head,
                Some(Some(reported_usage(*finished))),
            ),
        },
{
    let last: ChatCompletionChunk = delta_chunk(
        head,
        Delta { role: None, content: None, tool_calls: None },
        Some(route.adjust_reason(finish_reason)),
        include_usage,
    );
    let usage: Option<ChatCompletionChunk> = if include_usage {
        Some(chat_chunk(head, Vec::new(), Some(Some(usage_of(finished)))))
    } else {
        None
    };
    (last, usage)
}

/// What a worker finished with, as the client is to see it.
pub open spec fn counted(p: PipelineView, finished: Finished) -> Finished {
    Finished { completion_tokens: final_count(p, finished), ..finished }
}

/// The usage a stream ends with: the worker's count, or the one frozen at a
/// stop match.
pub open spec fn final_count(p: PipelineView, finished: Finished) -> u32 {
    if p.matched() {
        p.at_match->0
    } else {
        finished.completion_tokens
    }
}

/// The terminal event, as the client sees it: usage counts up to a stop match,
/// and a stop match decides the reason.
pub fn settle_stream(pipeline: &TextPipeline, finished: Finished) -> (r: StreamEnd)
    ensures
        match r {
            StreamEnd::Done { finished: f, finish_reason } => {
                &&& f == counted(pipeline@, finished)
                &&& outcome(finished, pipeline@.matched()) == Ok::<Seq<char>, ApiErrorView>(
                    finish_reason@,
                )
            },
            StreamEnd::Failed(e) => outcome(finished, pipeline@.matched()) == Err::<
                Seq<char>,
                ApiErrorView,
            >(e@),
        },
{
    let mut finished: Finished = finished;
    pipeline.apply_usage(&mut finished);
    classify_finished(finished, pipeline.stop_matched())
}

/// One event of a stream.
#[derive(Debug)]
pub enum ChatItem {
    Chunk(ChatCompletionChunk),
    Error(ApiError),
    /// The end marker of a stream that completed.
    Done,
}

/// What a stream's event carries on the wire.
pub open spec fn item_data(item: ChatItem) -> Seq<char> {
    match item {
        ChatItem::Chunk(c) => json::printed(c.spec_json()),
        ChatItem::Error(e) => json::printed(e@.body()),
        ChatItem::Done => "[DONE]"@,
    }
}

impl ChatItem {
    /// The payload of the event.
    pub fn data(&self) -> (r: String)
        ensures
            r@ == item_data(*self),
    {
        match self {
            ChatItem::Chunk(c) => json::print(&c.to_json()),
            ChatItem::Error(e) => json::print(&e.body()),
            ChatItem::Done => "[DONE]".to_owned(),
        }
    }
}

/// The events that end a stream: on success the finish reason, the usage where
/// the client asked for it and the end marker; otherwise the error and no end
/// marker.
pub open spec fn is_ending(
    items: Seq<ChatItem>,
    head: ResponseHead,
    calls_completed: usize,
    finished: Finished,
    result: Result<Seq<char>, ApiErrorView>,
    include_usage: bool,
) -> bool {
    match result {
        Err(e) => items.len() == 1 && items[0] is Error && items[0]->Error_0@ == e,
        Ok(reason) => {
            &&& items.len() == (if include_usage {
                3int
            } else {
                2
            })
            &&& items[0] is Chunk
            &&& is_delta_chunk(items[0]->Chunk_0, head, usage_slot(include_usage))
            &&& is_final_chunk(items[0]->Chunk_0, reported_reason(calls_completed, reason))
            &&& include_usage ==> {
                &&& items[1] is Chunk
                &&& (items[1]->Chunk_0).choices@.len() == 0
                &&& is_delta_chunk(
                    items[1]->Chunk_0,
                    head,
                    Some(Some(reported_usage(finished))),
                )
            }
            &&& items.last() is Done
        },
    }
}

/// Ends a chat stream.
pub fn finish_stream(
    head: &ResponseHead,
    pipeline: &TextPipeline,
    route: &ToolRoute,
    finished: Finished,
    include_usage: bool,
) -> (r: Vec<ChatItem>)
    requires
        finished.prompt_tokens + final_count(pipeline@, finished) <= u32::MAX,
    ensures
        is_ending(
            r@,
            *head,
            route.calls_completed,
            Finished { completion_tokens: final_count(pipeline@, finished), ..finished },
            outcome(finished, pipeline@.matched()),
            include_usage,
        ),
{
    let mut items: Vec<ChatItem> = Vec::new();
    match settle_stream(pipeline, finished) {
        StreamEnd::Failed(e) => {
            items.push(ChatItem::Error(e));
        },
        StreamEnd::Done { finished, finish_reason } => {
            let (last, usage) = chat_end(head, route, &finished, finish_reason, include_usage);
            items.push(ChatItem::Chunk(last));
            if let Some(c) = usage {
                items.push(ChatItem::Chunk(c));
            }
            items.push(ChatItem::Done);
        },
    }
    items
}

/// A failed stream ends with its error and no end marker: the headers already
/// went out.
pub fn fail_stream(error: ApiError) -> (r: Vec<ChatItem>)
    ensures
        r@.len() == 1,
        r@[0] == ChatItem::Error(error),
{
    let mut items: Vec<ChatItem> = Vec::new();
    items.push(ChatItem::Error(error));
    items
}

/// The full response of a stream that was collected.
pub fn finish_collected(
    head: ResponseHead,
    turn: Turn,
    pipeline: &TextPipeline,
    route: &ToolRoute,
    finished: Finished,
    ids: Vec<String>,
) -> (r: Result<ChatCompletion, ApiError>)
    requires
        ids@.len() == turn.calls@.len(),
        finished.prompt_tokens + final_count(pipeline@, finished) <= u32::MAX,
    ensures
        match r {
            Err(e) => outcome(finished, pipeline@.matched()) == Err::<Seq<char>, ApiErrorView>(
                e@,
            ),
            Ok(c) => outcome(finished, pipeline@.matched()) is Ok && is_chat_completion(
                c,
                head,
                turn,
                route.calls_completed,
                Finished { completion_tokens: final_count(pipeline@, finished), ..finished },
                outcome(finished, pipeline@.matched())->Ok_0,
                text::list_view(ids@),
            ),
        },
{
    match settle_stream(pipeline, finished) {
        StreamEnd::Failed(e) => Err(e),
        StreamEnd::Done { finished, finish_reason } => Ok(
            complete_chat(head, turn, route, &finished, finish_reason, ids),
        ),
    }
}

/// The text that a run of events streams.
pub open spec fn streamed_text(events: Seq<ToolEventView>) -> Seq<char>
    decreases events.len(),
{
    if events.len() == 0 {
        Seq::empty()
    } else {
        let before = streamed_text(events.drop_last());
        match events.last() {
            ToolEventView::Content(text) => before + text,
            _ => before,
        }
    }
}

/// The arguments that a run of events streams for one call.
pub open spec fn streamed_args(events: Seq<ToolEventView>, call: int) -> Seq<char>
    decreases events.len(),
{
    if events.len() == 0 {
        Seq::empty()
    } else {
        let before = streamed_args(events.drop_last(), call);
        match events.last() {
            ToolEventView::CallArgs { index, delta } => if index == call {
                before + delta
            } else {
                before
            },
            _ => before,
        }
    }
}

proof fn lemma_visible_keeps(events: Seq<ToolEventView>, call: int)
    ensures
        streamed_text(visible(events)) == streamed_text(events),
        streamed_args(visible(events), call) == streamed_args(events, call),
    decreases events.len(),
{
    if events.len() > 0 {
        lemma_visible_keeps(events.drop_last(), call);
        if !(events.last() is CallEnd) {
            assert(visible(events).drop_last() =~= visible(events.drop_last()));
        }
    }
}

proof fn lemma_no_args_before_start(events: Seq<ToolEventView>, call: int)
    requires
        calls_known(0, events),
        call >= starts(events),
    ensures
        streamed_args(events, call) == Seq::<char>::empty(),
    decreases events.len(),
{
    if events.len() > 0 {
        lemma_no_args_before_start(events.drop_last(), call);
    }
}

/// A stream and a collected response carry the same: the deltas' text,
/// concatenated, is the response's content, and the argument pieces of each
/// call, concatenated, are its arguments.
pub proof fn law_stream_and_response_agree(events: Seq<ToolEventView>, call: int)
    requires
        calls_known(0, events),
    ensures
        ({
            let t = with_events(
                TurnView { content: Seq::empty(), calls: Seq::empty() },
                events,
            );
            &&& t.content == streamed_text(visible(events))
            &&& 0 <= call < t.calls.len() ==> t.calls[call].arguments == streamed_args(
                visible(events),
                call,
            )
        }),
    decreases events.len(),
{
    let empty = TurnView { content: Seq::empty(), calls: Seq::empty() };
    lemma_visible_keeps(events, call);
    if events.len() > 0 {
        law_stream_and_response_agree(events.drop_last(), call);
        lemma_visible_keeps(events.drop_last(), call);
        lemma_calls_len(empty, events.drop_last());
        lemma_calls_len(empty, events);
        if call >= starts(events.drop_last()) {
            lemma_no_args_before_start(events.drop_last(), call);
        }
    }
}

/// A worker is cancelled for a stop match at most once: whatever chunk comes
/// after the one that matched asks for no cancellation.
pub proof fn law_one_cancellation(p: PipelineView, count: u32, decoded: DecodedView)
    requires
        p.matched(),
    ensures
        !(!p.matched() && p.after_push(count, decoded).matched()),
        p.after_push(count, decoded).matched(),
{
}

/// Only a model whose worker is ready is served; every other state is answered, and the
/// answer is an error of the gateway or the worker that names the model.
pub proof fn law_only_ready_workers_are_routed_to(model: Seq<char>, attempt: u32, reason:
    crate::status::UnloadReason)
    ensures
        refusal(model, Some(WorkerStatus::Ready)) is None,
        refusal(model, None) == Some(error::model_loading(model)),
        refusal(model, Some(WorkerStatus::Starting)) == Some(error::model_loading(model)),
        refusal(model, Some(WorkerStatus::Stopped)) == Some(error::model_loading(model)),
        refusal(model, Some(WorkerStatus::Unloaded { reason })) == Some(
            error::model_loading(model),
        ),
        refusal(model, Some(WorkerStatus::Draining)) == Some(error::model_unloading(model)),
        refusal(model, Some(WorkerStatus::Failed)) == Some(error::worker_failed(model)),
        refusal(model, Some(WorkerStatus::Restarting { attempt })) is Some,
        refusal(model, Some(WorkerStatus::Restarting { attempt }))->0.code == "worker_crashed"@,
        refusal(model, Some(WorkerStatus::Restarting { attempt }))->0.message
            == "the worker for model '"@ + model + "' crashed and is restarting; retry shortly"@,
{
}

/// A request is served if, and only if, its model is configured, its worker is ready
/// and its growth fits the machine.
pub proof fn law_requests_pass_three_gates(
    registry: Registry,
    l: lifecycle::Ledger,
    model: Seq<char>,
    now_ms: u64,
)
    requires
        l.ids_distinct(),
    ensures
        entry_refusal(registry, l, model, now_ms) is None <==> registry.has(model) && l.has(model)
            && l.slot(model).status is Ready && l.decision(model) is Ok,
        !registry.has(model) ==> entry_refusal(registry, l, model, now_ms) == Some(
            error::model_not_found(model),
        ),
        registry.has(model) && l.has(model) && l.slot(model).status is Ready && l.decision(model)
            is Err ==> entry_refusal(registry, l, model, now_ms) == Some(
            error::insufficient_memory(model, l.decision(model)->Err_0),
        ),
{
    if l.has(model) {
        lemma_touched_decision(l, model, now_ms);
    }
}

proof fn lemma_touched_decision(l: lifecycle::Ledger, model: Seq<char>, now_ms: u64)
    requires
        l.ids_distinct(),
        l.has(model),
    ensures
        l.after_touch(model, now_ms).decision(model) == l.decision(model),
{
    let m = l.after_touch(model, now_ms);
    lifecycle::lemma_touch(l, model, now_ms);
    assert(lifecycle::usage_of(m.slots) =~= lifecycle::usage_of(l.slots));
    assert(lifecycle::reserved_of(m.slots) =~= lifecycle::reserved_of(l.slots));
}

/// A request that is served is use; one that is refused for its model's state leaves no
/// trace in the ledger.
pub proof fn law_served_requests_count_as_use(
    registry: Registry,
    l: lifecycle::Ledger,
    model: Seq<char>,
    now_ms: u64,
)
    requires
        l.ids_distinct(),
    ensures
        !registry.has(model) || !l.has(model) || !(l.slot(model).status is Ready) ==> after_entry(
            registry,
            l,
            model,
            now_ms,
        ) == l,
        registry.has(model) && l.has(model) && l.slot(model).status is Ready ==> after_entry(
            registry,
            l,
            model,
            now_ms,
        ).slot(model).last_used_ms == now_ms,
{
    if l.has(model) {
        lifecycle::lemma_touch(l, model, now_ms);
        lifecycle::lemma_admit(l.after_touch(model, now_ms), model);
    }
}

/// A request for an unloaded model loads it, and no other request does.
pub proof fn law_requests_load_unloaded_models(
    registry: Registry,
    l: lifecycle::Ledger,
    model: Seq<char>,
)
    ensures
        entry_command(registry, l, model) == (if registry.has(model) && l.has(model) && l.slot(
            model,
        ).status is Unloaded {
            Some(Command::Load)
        } else {
            None
        }),
        status_of(l, model) == (if l.has(model) {
            Some(l.slot(model).status)
        } else {
            None
        }),
{
}

/// A template that refuses the conversation is told to the client in its own words, and
/// a prompt that did not become tokens is the gateway's or the worker's fault.
pub proof fn law_prompt_failures_are_told(why: Seq<char>, failure: EncodeFailure)
    ensures
        template_error(why).status == 400,
        template_error(why).message == "chat template rejected messages: "@ + why,
        failure is Local ==> encode_error(failure).status == 500 && encode_error(failure).message
            == "prompt tokenization failed: "@ + failure->Local_0@,
        failure is Worker ==> encode_error(failure) == error::of_worker_status(
            failure->Worker_0.code,
            failure->Worker_0.message@,
        ),
{
}

/// What is submitted is the request: its own id and tokens, the parameters it asked
/// for, its cap, and its stop strings where the worker is the one that matches them.
pub proof fn law_submissions_carry_the_request(
    plan: SubmitPlan,
    entry: ModelEntry,
    request_id: Seq<char>,
    token_ids: Seq<u32>,
    sampling: SamplingParams,
    cap: int,
    stops: Seq<Seq<char>>,
)
    requires
        carries(
            plan,
            request_id,
            token_ids,
            sampling,
            cap,
            matched_by_worker(entry, stops),
        ),
    ensures
        plan.request_id@ == request_id,
        plan.token_ids@ == token_ids,
        plan.sampling.temperature == sampling.temperature,
        plan.sampling.top_p == sampling.top_p,
        plan.sampling.top_k == sampling.top_k,
        plan.sampling.seed == sampling.seed,
        plan.sampling.presence_penalty == sampling.presence_penalty,
        plan.sampling.frequency_penalty == sampling.frequency_penalty,
        plan.max_tokens == cap,
        entry.has_tokenizer ==> plan.stop_strings@.len() == 0,
        !entry.has_tokenizer ==> plan.stop_strings@.len() == stops.len() && forall|i: int|
            0 <= i < stops.len() ==> (#[trigger] plan.stop_strings@[i])@ == stops[i],
{
    let listed = text::list_view(plan.stop_strings@);
    assert(listed.len() == plan.stop_strings@.len());
    assert forall|i: int| 0 <= i < plan.stop_strings@.len() implies (
    #[trigger] plan.stop_strings@[i])@ == listed[i] by {}
}

/// A chat needs a template, tools need a way to be called, and structured output needs
/// a worker that has it; what has what it needs is not refused.
pub proof fn law_needs_are_checked(
    entry: ModelEntry,
    endpoint: Seq<char>,
    model: Seq<char>,
    has_tools: bool,
    has_format: bool,
)
    ensures
        template_refusal(entry, endpoint) is None <==> entry.has_template,
        template_refusal(entry, endpoint) is Some ==> template_refusal(entry, endpoint)->0.status
            == 400,
        format_refusal(model, has_tools, has_format) is Some <==> has_tools && !has_format,
        format_refusal(model, has_tools, has_format) is Some ==> format_refusal(
            model,
            has_tools,
            has_format,
        )->0.status == 400,
        grammar_refusal().status == 400,
        MAX_BODY_BYTES == 2 * 1024 * 1024,
{
}

/// A response is named after its request: the endpoint's prefix, then the request's id
/// without a dash.
pub proof fn law_responses_are_named_after_requests(
    prefix: Seq<char>,
    request_id: Seq<char>,
    i: int,
)
    ensures
        prefix.is_prefix_of(named_after(prefix, request_id)),
        prefix.len() <= i < named_after(prefix, request_id).len() ==> named_after(
            prefix,
            request_id,
        )[i] != '-',
{
    let id = named_after(prefix, request_id);
    assert(prefix =~= id.take(prefix.len() as int));
    if prefix.len() <= i < id.len() {
        scan::law_without_drops_one_character(request_id, '-', 'a', i - prefix.len());
    }
}

/// A pipeline starts with nothing seen and nothing matched, and decodes exactly where
/// the gateway holds the tokenizer. Where it does not, the worker's text is passed on
/// as it is.
pub proof fn law_pipelines_start_empty(
    entry: ModelEntry,
    p: PipelineView,
    chunk: Seq<char>,
    decoded: DecodedView,
)
    ensures
        fresh_pipeline(entry).decode == entry.has_tokenizer,
        fresh_pipeline(entry).seen == 0,
        !fresh_pipeline(entry).matched(),
        fresh_pipeline(entry).hit is None,
        fresh_pipeline(entry).wants() <==> entry.has_tokenizer,
        !p.decode ==> p.text_of(chunk, decoded) == Ok::<Seq<char>, ApiErrorView>(chunk),
{
}

/// Until a stop string fires every chunk's tokens are counted and its decoded text is
/// let through; a chunk that does not decode fails the request.
pub proof fn law_chunks_are_counted_and_let_through(
    p: PipelineView,
    chunk: Seq<char>,
    count: u32,
    text: Seq<char>,
    why: Seq<char>,
)
    requires
        p.wants(),
        p.seen + count <= u32::MAX,
    ensures
        p.after_push(count, Ok((text, None))).seen == p.seen + count,
        p.after_push(count, Ok((text, None))).wants(),
        p.after_push(count, Ok((text, None))).hit == p.hit,
        p.text_of(chunk, Ok((text, None))) == Ok::<Seq<char>, ApiErrorView>(text),
        p.text_of(chunk, Err(why)) is Err,
        p.text_of(chunk, Err(why))->Err_0.status == 500,
        p.text_of(chunk, Err(why))->Err_0.message == "detokenization failed: "@ + why,
{
}

/// At the end of a stream what was held back follows, unless a stop string fired.
pub proof fn law_held_text_is_released_at_the_end(tail: TailRelease)
    ensures
        tail.hit is None ==> tail_view(Ok(tail)) == Ok::<
            (Seq<char>, Option<Seq<char>>),
            Seq<char>,
        >((tail.text@ + tail.held@, None)),
        tail.hit is Some ==> tail_view(Ok(tail)) == Ok::<
            (Seq<char>, Option<Seq<char>>),
            Seq<char>,
        >((tail.text@, Some(tail.hit->0@))),
{
}

/// Without tools the text is the content, and no text is no content; with tools it is
/// what the parser made of it. Calls are counted where they end.
pub proof fn law_text_is_routed_whole(
    route: ToolRoute,
    text: Seq<char>,
    parsed: Seq<ToolEventView>,
    e: ToolEventView,
)
    ensures
        routed(true, text, parsed) == parsed,
        text.len() > 0 ==> routed(false, text, parsed) == seq![ToolEventView::Content(text)],
        text.len() == 0 ==> routed(false, text, parsed).len() == 0,
        ends(parsed.push(e)) == ends(parsed) + (if e is CallEnd {
            1nat
        } else {
            0
        }),
        ends(Seq::empty()) == 0,
        starts(parsed.push(e)) == starts(parsed) + (if e is CallStart {
            1nat
        } else {
            0
        }),
        starts(Seq::empty()) == 0,
        !route.parses ==> route.after(parsed) == route,
        route.parses && route.calls_completed + ends(parsed) <= usize::MAX ==> route.after(
            parsed,
        ).calls_completed == route.calls_completed + ends(parsed) && route.after(parsed).parses,
{
    assert(parsed.push(e).drop_last() =~= parsed);
}

/// A completion that stopped after it called tools says `tool_calls`; any other reason
/// is reported as it is.
pub proof fn law_tool_calls_are_a_reason(calls_completed: usize, reason: Seq<char>)
    ensures
        calls_completed > 0 ==> reported_reason(calls_completed, "stop"@) == "tool_calls"@,
        calls_completed == 0 ==> reported_reason(calls_completed, reason) == reason,
        reason != "stop"@ ==> reported_reason(calls_completed, reason) == reason,
{
}

/// Without a match the worker's own reason decides: it stopped, or it ran into the cap;
/// anything else is an error.
pub proof fn law_workers_reasons_are_reported(finished: Finished)
    ensures
        finished.finish_reason is Stop ==> outcome(finished, false) == Ok::<
            Seq<char>,
            ApiErrorView,
        >("stop"@),
        finished.finish_reason is Length ==> outcome(finished, false) == Ok::<
            Seq<char>,
            ApiErrorView,
        >("length"@),
        finished.finish_reason is Error ==> outcome(finished, false) == Err::<
            Seq<char>,
            ApiErrorView,
        >(error::of_worker_finished(finished.error_code, finished.error_detail@)),
        finished.finish_reason is Cancelled || finished.finish_reason is PreemptedFatal
            || finished.finish_reason is Unspecified ==> outcome(finished, false) is Err
            && outcome(finished, false)->Err_0.code == "worker_crashed"@,
{
}

/// Usage is what the prompt took, what was generated up to a stop match, and the sum of
/// both.
pub proof fn law_usage_adds_up(p: PipelineView, finished: Finished)
    requires
        finished.prompt_tokens + final_count(p, finished) <= u32::MAX,
    ensures
        p.matched() ==> counted(p, finished).completion_tokens == p.at_match->0,
        !p.matched() ==> counted(p, finished).completion_tokens == finished.completion_tokens,
        counted(p, finished).prompt_tokens == finished.prompt_tokens,
        counted(p, finished).finish_reason == finished.finish_reason,
        reported_usage(counted(p, finished)).prompt_tokens == finished.prompt_tokens,
        reported_usage(counted(p, finished)).completion_tokens == final_count(p, finished),
        reported_usage(counted(p, finished)).total_tokens == finished.prompt_tokens + final_count(
            p,
            finished,
        ),
{
}

/// A stream that fails says how: it ended without a result, the call failed, or time ran
/// out.
pub proof fn law_failed_streams_say_how(f: StreamFailure)
    ensures
        f is Closed ==> failure_view(f).code == "worker_crashed"@ && failure_view(f).status == 502,
        f is Rpc ==> failure_view(f) == error::of_worker_status(
            f->Rpc_0.code,
            f->Rpc_0.message@,
        ),
        f is TimedOut ==> failure_view(f).status == 504,
        f is TimedOut ==> failure_view(f) == timeout::timeout_error(f->scope, f->secs),
{
}

/// Content is appended, a call that starts is added behind the others under its name
/// with nothing called yet, a piece of arguments is appended to its own call and no
/// other, and the end of a call adds nothing.
pub proof fn law_events_build_the_turn(t: TurnView, e: ToolEventView, other: int)
    ensures
        e is Content ==> with_event(t, e).content == t.content + e->Content_0 && with_event(
            t,
            e,
        ).calls == t.calls,
        e is CallStart ==> {
            let u = with_event(t, e);
            &&& u.content == t.content
            &&& u.calls.len() == t.calls.len() + 1
            &&& u.calls.drop_last() == t.calls
            &&& u.calls.last().name == e->name
            &&& u.calls.last().arguments.len() == 0
        },
        e is CallArgs && e->CallArgs_index < t.calls.len() ==> {
            let u = with_event(t, e);
            &&& u.content == t.content
            &&& u.calls.len() == t.calls.len()
            &&& u.calls[e->CallArgs_index as int].arguments
                == t.calls[e->CallArgs_index as int].arguments + e->delta
            &&& u.calls[e->CallArgs_index as int].name == t.calls[e->CallArgs_index as int].name
            &&& 0 <= other < t.calls.len() && other != e->CallArgs_index ==> u.calls[other]
                == t.calls[other]
        },
        e is CallEnd ==> with_event(t, e) == t,
{
    if e is CallStart {
        assert(with_event(t, e).calls.drop_last() =~= t.calls);
    }
}

/// Every event but the end of a call becomes a delta, in order.
pub proof fn law_events_become_deltas(events: Seq<ToolEventView>, e: ToolEventView)
    ensures
        e is CallEnd ==> visible(events.push(e)) == visible(events),
        !(e is CallEnd) ==> visible(events.push(e)) == visible(events).push(e),
        visible(Seq::empty()).len() == 0,
{
    assert(events.push(e).drop_last() =~= events);
}

/// The delta of an event carries what the event brought: content as content, the start
/// of a call its place, id, kind and name, a piece of arguments its place and text.
pub proof fn law_deltas_carry_the_event(d: Delta, e: ToolEventView, id: Seq<char>)
    requires
        delta_ok(d, e, id),
    ensures
        !(e is CallEnd),
        d.role is None,
        e is Content ==> d.content is Some && d.content->0@ == e->Content_0 && d.tool_calls is None,
        !(e is Content) ==> d.content is None && d.tool_calls is Some && d.tool_calls->0@.len()
            == 1,
        e is CallStart ==> {
            let c = d.tool_calls->0@[0];
            &&& c.index == e->CallStart_index
            &&& c.id is Some && c.id->0@ == id
            &&& c.call_type is Some && c.call_type->0@ == "function"@
            &&& c.name is Some && c.name->0@ == e->name
            &&& c.arguments@.len() == 0
        },
        e is CallArgs ==> {
            let c = d.tool_calls->0@[0];
            &&& c.index == e->CallArgs_index
            &&& c.arguments@ == e->delta
            &&& c.id is None && c.name is None && c.call_type is None
        },
{
}

/// A response is the turn: one choice of the assistant with what it said, its calls in
/// order, each with its id, name and arguments, why it ended, and the usage, under the
/// request's head.
pub proof fn law_responses_are_the_turn(
    r: ChatCompletion,
    head: ResponseHead,
    turn: Turn,
    calls_completed: usize,
    finished: Finished,
    reason: Seq<char>,
    ids: Seq<Seq<char>>,
    i: int,
)
    requires
        is_chat_completion(r, head, turn, calls_completed, finished, reason, ids),
        finished.prompt_tokens + finished.completion_tokens <= u32::MAX,
    ensures
        r.id@ == head.id@,
        r.object@ == "chat.completion"@,
        r.created == head.created,
        r.model@ == head.model@,
        r.choices@.len() == 1,
        r.choices@[0].index == 0,
        r.choices@[0].message.role@ == "assistant"@,
        turn.content@.len() > 0 || turn.calls@.len() == 0 ==> r.choices@[0].message.content is Some
            && r.choices@[0].message.content->0@ == turn.content@,
        turn.content@.len() == 0 && turn.calls@.len() > 0 ==> r.choices@[0].message.content
            is None,
        turn.calls@.len() == 0 ==> r.choices@[0].message.tool_calls is None,
        turn.calls@.len() > 0 ==> r.choices@[0].message.tool_calls is Some
            && r.choices@[0].message.tool_calls->0@.len() == turn.calls@.len(),
        0 <= i < turn.calls@.len() ==> {
            let c = r.choices@[0].message.tool_calls->0@[i];
            c.name@ == turn.calls@[i].name@ && c.arguments@ == turn.calls@[i].arguments@ && c.id@
                == ids[i]
        },
        r.choices@[0].finish_reason@ == (if calls_completed > 0 && reason == "stop"@ {
            "tool_calls"@
        } else {
            reason
        }),
        r.usage.prompt_tokens == finished.prompt_tokens,
        r.usage.completion_tokens == finished.completion_tokens,
        r.usage.total_tokens == finished.prompt_tokens + finished.completion_tokens,
{
    if 0 <= i < turn.calls@.len() {
        let calls = r.choices@[0].message.tool_calls->0@;
        assert(turn@.calls[i] == turn.calls@[i]@);
        assert(calls[i].name@ == turn@.calls[i].name);
    }
}

/// A chunk carries the request's head, and a place for the usage exactly where the
/// client asked for it.
pub proof fn law_chunks_carry_the_head(
    c: ChatCompletionChunk,
    head: ResponseHead,
    include_usage: bool,
)
    requires
        is_delta_chunk(c, head, usage_slot(include_usage)),
    ensures
        c.id@ == head.id@,
        c.object@ == "chat.completion.chunk"@,
        c.created == head.created,
        c.model@ == head.model@,
        include_usage ==> c.usage == Some(None::<Usage>),
        !include_usage ==> c.usage is None,
{
}

/// A stream that completed ends with why it ended, with the usage where the client asked
/// for it, and with the end marker; one that failed ends with the error and without the
/// marker.
pub proof fn law_streams_end_once(
    items: Seq<ChatItem>,
    head: ResponseHead,
    calls_completed: usize,
    finished: Finished,
    result: Result<Seq<char>, ApiErrorView>,
    include_usage: bool,
)
    requires
        is_ending(items, head, calls_completed, finished, result, include_usage),
        finished.prompt_tokens + finished.completion_tokens <= u32::MAX,
    ensures
        result is Err ==> items.len() == 1 && items[0] is Error && items[0]->Error_0@
            == result->Err_0,
        result is Ok ==> {
            let last = items[0]->Chunk_0;
            &&& items.last() is Done
            &&& items.len() == (if include_usage {
                3int
            } else {
                2
            })
            &&& items[0] is Chunk
            &&& last.choices@.len() == 1
            &&& last.choices@[0].finish_reason is Some
            &&& last.choices@[0].finish_reason->0@ == (if calls_completed > 0 && result->Ok_0
                == "stop"@ {
                "tool_calls"@
            } else {
                result->Ok_0
            })
            &&& last.choices@[0].delta.content is None
        },
        result is Ok && include_usage ==> {
            let usage = (items[1]->Chunk_0).usage;
            &&& items[1] is Chunk
            &&& (items[1]->Chunk_0).choices@.len() == 0
            &&& usage is Some && usage->0 is Some
            &&& usage->0->0.prompt_tokens == finished.prompt_tokens
            &&& usage->0->0.completion_tokens == finished.completion_tokens
            &&& usage->0->0.total_tokens == finished.prompt_tokens + finished.completion_tokens
        },
{
}

/// On the wire a chunk is its JSON, an error its envelope, and the end marker `[DONE]`.
pub proof fn law_events_are_written_as_json(item: ChatItem)
    ensures
        item is Chunk ==> item_data(item) == json::printed(item->Chunk_0.spec_json()),
        item is Error ==> item_data(item) == json::printed(item->Error_0@.body()),
        item is Done ==> item_data(item) == "[DONE]"@,
{
}

/// Every event's text and arguments are streamed, in order.
pub proof fn law_streamed_text_is_whole(events: Seq<ToolEventView>, e: ToolEventView, call: int)
    ensures
        e is Content ==> streamed_text(events.push(e)) == streamed_text(events) + e->Content_0,
        !(e is Content) ==> streamed_text(events.push(e)) == streamed_text(events),
        e is CallArgs && e->CallArgs_index == call ==> streamed_args(events.push(e), call)
            == streamed_args(events, call) + e->delta,
        !(e is CallArgs) || e->CallArgs_index != call ==> streamed_args(events.push(e), call)
            == streamed_args(events, call),
{
    assert(events.push(e).drop_last() =~= events);
}

/// A fresh id is its prefix and thirty-two lower-case hexadecimal digits behind it.
pub proof fn law_fresh_ids_are_prefix_and_digits(id: Seq<char>, prefix: Seq<char>, i: int)
    requires
        is_tagged_id(id, prefix),
    ensures
        id.len() == prefix.len() + 32,
        0 <= i < prefix.len() ==> id[i] == prefix[i],
        prefix.len() <= i < id.len() ==> '0' <= id[i] <= '9' || 'a' <= id[i] <= 'f',
{
    if 0 <= i < prefix.len() {
        assert(id.subrange(0, prefix.len() as int)[i] == prefix[i]);
    }
}

/// A request that its model cannot serve is told which model and what it lacks.
pub proof fn law_lacking_models_are_named(
    entry: ModelEntry,
    endpoint: Seq<char>,
    model: Seq<char>,
)
    ensures
        !entry.has_template ==> template_refusal(entry, endpoint) == Some(
            error::invalid_request(
                "model '"@ + entry.id@ + "' has no chat template; "@ + endpoint
                    + " are unavailable for it"@,
            ),
        ),
        format_refusal(model, true, false) == Some(
            error::invalid_request(
                "model '"@ + model
                    + "' has no known tool-call format; 'tools' is not supported for it"@,
            ),
        ),
{
}

} // verus!
