//! OpenAI wire types — chat completions and legacy text completions — and
//! validation into the shape that workers take. Unsupported features are
//! rejected with clear errors rather than silently dropped.

use crate::error;
use crate::error::ApiError;
use crate::float::Single;
use crate::json;
use crate::json::JsonView;
use crate::json::NumberView;
use crate::prompt;
use crate::prompt::ChatMessage;
use crate::prompt::ChatMessageView;
use crate::prompt::SamplingParams;
use crate::text;
use serde_json::Value;
use vstd::prelude::*;
use vstd::string::*;

verus! {

/// Cap on generated tokens when the client sends none and the worker has not
/// reported a context length.
pub const FALLBACK_MAX_TOKENS: u32 = 1024;

/// OpenAI's default on the legacy completions endpoint.
pub const DEFAULT_COMPLETION_MAX_TOKENS: u32 = 16;

#[derive(Debug)]
pub struct ChatCompletionRequest {
    pub model: String,
    pub messages: Vec<RequestMessage>,
    pub stream: bool,
    pub stream_options: Option<StreamOptions>,
    pub temperature: Option<Single>,
    pub top_p: Option<Single>,
    pub max_tokens: Option<u32>,
    pub max_completion_tokens: Option<u32>,
    pub stop: Option<StopSpec>,
    pub seed: Option<i64>,
    pub presence_penalty: Option<Single>,
    pub frequency_penalty: Option<Single>,
    pub n: Option<u32>,
    pub logprobs: bool,
    pub top_logprobs: Option<u32>,
    pub tools: Option<Value>,
    pub tool_choice: Option<Value>,
    pub response_format: Option<ResponseFormat>,
    pub user: Option<String>,
}

#[derive(Debug)]
pub struct RequestMessage {
    pub role: String,
    pub content: Option<MessageContent>,
    pub name: Option<String>,
}

/// A plain string or an array of typed parts; only `text` parts are accepted.
#[derive(Debug)]
pub enum MessageContent {
    Text(String),
    Parts(Vec<ContentPart>),
}

#[derive(Debug)]
pub struct ContentPart {
    pub part_type: String,
    pub text: Option<String>,
}

#[derive(Debug)]
pub enum StopSpec {
    One(String),
    Many(Vec<String>),
}

#[derive(Debug, Clone, Copy, PartialEq, Eq, Structural)]
pub struct StreamOptions {
    pub include_usage: bool,
}

#[derive(Debug)]
pub struct ResponseFormat {
    pub format_type: String,
}

/// The request after validation: template-ready messages plus the worker's
/// sampling and stopping parameters.
#[derive(Debug)]
pub struct ValidatedChat {
    pub messages: Vec<ChatMessage>,
    pub sampling: SamplingParams,
    /// None = derive from context length at submit time.
    pub max_tokens: Option<u32>,
    pub stop_strings: Vec<String>,
    pub stream: bool,
    pub include_usage: bool,
}

/// What is wrong with the sampling and stop parameters, if anything. Chat and
/// text completions accept the same ranges.
pub open spec fn sampling_problem(
    temperature: Option<Single>,
    top_p: Option<Single>,
    presence_penalty: Option<Single>,
    frequency_penalty: Option<Single>,
    seed: Option<i64>,
    stop: Option<StopSpec>,
) -> Option<Seq<char>> {
    if !prompt::or_one(temperature).in_0_to_2() {
        Some("'temperature' must be in [0, 2]"@)
    } else if !prompt::or_one(top_p).in_0_to_1() {
        Some("'top_p' must be in (0, 1]"@)
    } else if !prompt::or_zero(presence_penalty).in_minus_2_to_2() || !prompt::or_zero(
        frequency_penalty,
    ).in_minus_2_to_2() {
        Some("'presence_penalty' and 'frequency_penalty' must be in [-2, 2]"@)
    } else if seed is Some && seed->0 < 0 {
        Some("'seed' must be non-negative"@)
    } else if stop matches Some(StopSpec::Many(list)) && list@.len() > 4 {
        Some("'stop' supports at most 4 sequences"@)
    } else {
        None
    }
}

/// The parameters that such a request samples with.
pub open spec fn sampling_of(
    temperature: Option<Single>,
    top_p: Option<Single>,
    presence_penalty: Option<Single>,
    frequency_penalty: Option<Single>,
    seed: Option<i64>,
) -> SamplingParams {
    SamplingParams {
        temperature: prompt::or_one(temperature),
        top_p: prompt::or_one(top_p),
        top_k: 0,
        min_p: Single { bits: 0 },
        repetition_penalty: Single { bits: 0 },
        frequency_penalty: prompt::or_zero(frequency_penalty),
        presence_penalty: prompt::or_zero(presence_penalty),
        repetition_window: 0,
        seed: match seed {
            Some(s) => s as u64,
            None => 0,
        },
        logprobs_top_n: 0,
    }
}

/// The strings that stop such a request.
pub open spec fn stops_of(stop: Option<StopSpec>) -> Seq<Seq<char>> {
    match stop {
        None => Seq::empty(),
        Some(StopSpec::One(s)) => seq![s@],
        Some(StopSpec::Many(list)) => text::list_view(list@),
    }
}

fn invalid(message: &str) -> (r: ApiError)
    ensures
        r@ == error::invalid_request(message@),
{
    ApiError::invalid_request(message.to_owned())
}

fn validate_sampling(
    temperature: Option<Single>,
    top_p: Option<Single>,
    presence_penalty: Option<Single>,
    frequency_penalty: Option<Single>,
    seed: Option<i64>,
    stop: &Option<StopSpec>,
) -> (r: Result<(SamplingParams, Vec<String>), ApiError>)
    ensures
        match r {
            Ok((sampling, stops)) => {
                &&& sampling_problem(
                    temperature,
                    top_p,
                    presence_penalty,
                    frequency_penalty,
                    seed,
                    *stop,
                ) is None
                &&& sampling == sampling_of(
                    temperature,
                    top_p,
                    presence_penalty,
                    frequency_penalty,
                    seed,
                )
                &&& text::list_view(stops@) == stops_of(*stop)
            },
            Err(e) => {
                &&& sampling_problem(
                    temperature,
                    top_p,
                    presence_penalty,
                    frequency_penalty,
                    seed,
                    *stop,
                ) is Some
                &&& e@ == error::invalid_request(
                    sampling_problem(
                        temperature,
                        top_p,
                        presence_penalty,
                        frequency_penalty,
                        seed,
                        *stop,
                    )->0,
                )
            },
        },
{
    let temperature: Single = prompt::or_one_of(temperature);
    if !temperature.from_0_to_2() {
        return Err(invalid("'temperature' must be in [0, 2]"));
    }
    let top_p: Single = prompt::or_one_of(top_p);
    if !top_p.from_0_to_1() {
        return Err(invalid("'top_p' must be in (0, 1]"));
    }
    let presence_penalty: Single = prompt::or_zero_of(presence_penalty);
    let frequency_penalty: Single = prompt::or_zero_of(frequency_penalty);
    if !presence_penalty.from_minus_2_to_2() || !frequency_penalty.from_minus_2_to_2() {
        return Err(invalid("'presence_penalty' and 'frequency_penalty' must be in [-2, 2]"));
    }
    let seed: u64 = match seed {
        None => 0,
        Some(s) => if s >= 0 {
            s as u64
        } else {
            return Err(invalid("'seed' must be non-negative"));
        },
    };
    let stop_strings: Vec<String> = match stop {
        None => Vec::new(),
        Some(StopSpec::One(s)) => {
            let mut v: Vec<String> = Vec::new();
            v.push(s.clone());
            v
        },
        Some(StopSpec::Many(list)) => {
            if list.len() > 4 {
                return Err(invalid("'stop' supports at most 4 sequences"));
            }
            text::clone_list(list)
        },
    };
    assert(text::list_view(stop_strings@) =~= stops_of(*stop));
    Ok(
        (
            SamplingParams {
                temperature,
                top_p,
                top_k: 0,
                min_p: Single { bits: 0 },
                repetition_penalty: Single { bits: 0 },
                frequency_penalty,
                presence_penalty,
                repetition_window: 0,
                seed,
                logprobs_top_n: 0,
            },
            stop_strings,
        ),
    )
}

/// The role a chat template knows; `developer` is the successor of `system`.
pub open spec fn role_of(role: Seq<char>) -> Option<Seq<char>> {
    if role == "developer"@ {
        Some("system"@)
    } else if role == "system"@ || role == "user"@ || role == "assistant"@ {
        Some(role)
    } else {
        None
    }
}

/// What an optional text holds, or nothing.
pub open spec fn or_empty(s: Option<String>) -> Seq<char> {
    match s {
        Some(s) => s@,
        None => Seq::empty(),
    }
}

/// The first part, from `i` on, that is no text.
pub open spec fn odd_part(parts: Seq<ContentPart>, i: int) -> Option<Seq<char>>
    decreases parts.len() - i,
{
    if i >= parts.len() {
        None
    } else if parts[i].part_type@ != "text"@ {
        Some(parts[i].part_type@)
    } else {
        odd_part(parts, i + 1)
    }
}

/// The texts of the parts, one behind the other.
pub open spec fn parts_text(parts: Seq<ContentPart>) -> Seq<char>
    decreases parts.len(),
{
    if parts.len() == 0 {
        Seq::empty()
    } else {
        parts_text(parts.drop_last()) + or_empty(parts.last().text)
    }
}

/// What a message says.
pub open spec fn content_text(content: Option<MessageContent>) -> Seq<char> {
    match content {
        None => Seq::empty(),
        Some(MessageContent::Text(t)) => t@,
        Some(MessageContent::Parts(parts)) => parts_text(parts@),
    }
}

/// What is wrong with a message, if anything.
pub open spec fn message_problem(m: RequestMessage) -> Option<Seq<char>> {
    if role_of(m.role@) is None {
        Some(
            "unsupported message role '"@ + m.role@
                + "' (tool messages arrive with Kiln Phase 7)"@,
        )
    } else {
        match m.content {
            Some(MessageContent::Parts(parts)) => match odd_part(parts@, 0) {
                Some(t) => Some("unsupported content part type '"@ + t + "'"@),
                None => None,
            },
            _ => None,
        }
    }
}

/// The message a template sees.
pub open spec fn message_of(m: RequestMessage) -> ChatMessageView {
    prompt::said(role_of(m.role@)->0, content_text(m.content))
}

/// What is wrong with the first bad message from `i` on.
pub open spec fn messages_problem(messages: Seq<RequestMessage>, i: int) -> Option<Seq<char>>
    decreases messages.len() - i,
{
    if i >= messages.len() {
        None
    } else if message_problem(messages[i]) is Some {
        message_problem(messages[i])
    } else {
        messages_problem(messages, i + 1)
    }
}

fn joined_parts(parts: &Vec<ContentPart>) -> (r: Result<String, ApiError>)
    ensures
        match r {
            Ok(s) => odd_part(parts@, 0) is None && s@ == parts_text(parts@),
            Err(e) => odd_part(parts@, 0) is Some && e@ == error::invalid_request(
                "unsupported content part type '"@ + odd_part(parts@, 0)->0 + "'"@,
            ),
        },
{
    let mut combined: String = String::new();
    let mut i: usize = 0;
    assert(parts@.take(0) =~= Seq::empty());
    while i < parts.len()
        invariant
            i <= parts@.len(),
            odd_part(parts@, 0) == odd_part(parts@, i as int),
            combined@ == parts_text(parts@.take(i as int)),
        decreases parts@.len() - i,
    {
        let part: &ContentPart = &parts[i];
        if !text::same(part.part_type.as_str(), "text") {
            let mut m: String = "unsupported content part type '".to_owned();
            m.append(part.part_type.as_str());
            m.append("'");
            return Err(ApiError::invalid_request(m));
        }
        let ghost before = combined@;
        if let Some(t) = &part.text {
            combined.append(t.as_str());
        }
        assert(combined@ =~= before + or_empty(parts@[i as int].text));
        assert(parts@.take(i + 1).drop_last() =~= parts@.take(i as int));
        i = i + 1;
    }
    assert(parts@.take(i as int) =~= parts@);
    Ok(combined)
}

fn convert_message(message: &RequestMessage) -> (r: Result<ChatMessage, ApiError>)
    ensures
        match r {
            Ok(m) => message_problem(*message) is None && m@ == message_of(*message),
            Err(e) => message_problem(*message) is Some && e@ == error::invalid_request(
                message_problem(*message)->0,
            ),
        },
{
    let given: &str = message.role.as_str();
    let role: &str = if text::same(given, "developer") {
        "system"
    } else if text::same(given, "system") || text::same(given, "user") || text::same(
        given,
        "assistant",
    ) {
        given
    } else {
        let mut m: String = "unsupported message role '".to_owned();
        m.append(given);
        m.append("' (tool messages arrive with Kiln Phase 7)");
        return Err(ApiError::invalid_request(m));
    };
    let content: String = match &message.content {
        None => String::new(),
        Some(MessageContent::Text(t)) => t.clone(),
        Some(MessageContent::Parts(parts)) => match joined_parts(parts) {
            Ok(s) => s,
            Err(e) => return Err(e),
        },
    };
    Ok(ChatMessage::text(role, content))
}

fn convert_messages(messages: &Vec<RequestMessage>) -> (r: Result<Vec<ChatMessage>, ApiError>)
    ensures
        match r {
            Ok(out) => messages_problem(messages@, 0) is None && prompt::messages_view(out@)
                == Seq::new(messages@.len(), |i: int| message_of(messages@[i])),
            Err(e) => messages_problem(messages@, 0) is Some && e@ == error::invalid_request(
                messages_problem(messages@, 0)->0,
            ),
        },
{
    let mut out: Vec<ChatMessage> = Vec::new();
    let mut i: usize = 0;
    while i < messages.len()
        invariant
            i <= messages@.len(),
            messages_problem(messages@, 0) == messages_problem(messages@, i as int),
            out@.len() == i,
            forall|j: int| 0 <= j < i ==> (#[trigger] out@[j])@ == message_of(messages@[j]),
        decreases messages@.len() - i,
    {
        match convert_message(&messages[i]) {
            Ok(m) => out.push(m),
            Err(e) => return Err(e),
        }
        i = i + 1;
    }
    assert(prompt::messages_view(out@) =~= Seq::new(
        messages@.len(),
        |i: int| message_of(messages@[i]),
    ));
    Ok(out)
}

pub open spec fn wants_usage(options: Option<StreamOptions>) -> bool {
    match options {
        Some(o) => o.include_usage,
        None => false,
    }
}

impl ChatCompletionRequest {
    /// The cap the client asked for; the newer field counts.
    pub open spec fn asked_max(self) -> Option<u32> {
        match self.max_completion_tokens {
            Some(n) => Some(n),
            None => self.max_tokens,
        }
    }

    /// What is wrong with the request, if anything.
    pub open spec fn problem(self) -> Option<Seq<char>> {
        let sampling = sampling_problem(
            self.temperature,
            self.top_p,
            self.presence_penalty,
            self.frequency_penalty,
            self.seed,
            self.stop,
        );
        if self.messages@.len() == 0 {
            Some("'messages' must be a non-empty array"@)
        } else if self.n is Some && self.n->0 != 1 {
            Some("'n' > 1 is not supported"@)
        } else if self.logprobs || self.top_logprobs is Some {
            Some("'logprobs' is not supported by this model's worker"@)
        } else if self.tools is Some || self.tool_choice is Some {
            Some("tool calling is not supported yet (Kiln Phase 7)"@)
        } else if self.response_format is Some && self.response_format->0.format_type@ != "text"@ {
            Some("'response_format' other than 'text' is not supported yet (Kiln Phase 7)"@)
        } else if self.stream_options is Some && !self.stream {
            Some("'stream_options' requires 'stream': true"@)
        } else if sampling is Some {
            sampling
        } else if self.asked_max() == Some(0u32) {
            Some("'max_completion_tokens' must be >= 1"@)
        } else {
            messages_problem(self.messages@, 0)
        }
    }

    /// The request is sound, and this is what it asks for.
    pub open spec fn accepts(self, v: ValidatedChat) -> bool {
        &&& self.problem() is None
        &&& prompt::messages_view(v.messages@) == Seq::new(
            self.messages@.len(),
            |i: int| message_of(self.messages@[i]),
        )
        &&& v.sampling == sampling_of(
            self.temperature,
            self.top_p,
            self.presence_penalty,
            self.frequency_penalty,
            self.seed,
        )
        &&& v.max_tokens == self.asked_max()
        &&& text::list_view(v.stop_strings@) == stops_of(self.stop)
        &&& v.stream == self.stream
        &&& v.include_usage == wants_usage(self.stream_options)
    }

    /// Checks the request; the first problem is reported.
    pub fn validate(&self) -> (r: Result<ValidatedChat, ApiError>)
        ensures
            match r {
                Err(e) => self.problem() is Some && e@ == error::invalid_request(
                    self.problem()->0,
                ),
                Ok(v) => {
                    &&& self.accepts(v)
                    &&& self.temperature is Some ==> v.sampling.temperature == self.temperature->0
                    &&& self.top_p is Some ==> v.sampling.top_p == self.top_p->0
                    &&& self.presence_penalty is Some ==> v.sampling.presence_penalty
                        == self.presence_penalty->0
                    &&& self.frequency_penalty is Some ==> v.sampling.frequency_penalty
                        == self.frequency_penalty->0
                    &&& self.seed is Some ==> v.sampling.seed == self.seed->0
                },
            },
    {
        if self.messages.len() == 0 {
            return Err(invalid("'messages' must be a non-empty array"));
        }
        if let Some(n) = self.n {
            if n != 1 {
                return Err(invalid("'n' > 1 is not supported"));
            }
        }
        if self.logprobs || self.top_logprobs.is_some() {
            return Err(invalid("'logprobs' is not supported by this model's worker"));
        }
        if self.tools.is_some() || self.tool_choice.is_some() {
            return Err(invalid("tool calling is not supported yet (Kiln Phase 7)"));
        }
        if let Some(format) = &self.response_format {
            if !text::same(format.format_type.as_str(), "text") {
                return Err(
                    invalid(
                        "'response_format' other than 'text' is not supported yet (Kiln Phase 7)",
                    ),
                );
            }
        }
        if self.stream_options.is_some() && !self.stream {
            return Err(invalid("'stream_options' requires 'stream': true"));
        }
        let (sampling, stop_strings) = match validate_sampling(
            self.temperature,
            self.top_p,
            self.presence_penalty,
            self.frequency_penalty,
            self.seed,
            &self.stop,
        ) {
            Ok(x) => x,
            Err(e) => return Err(e),
        };
        let max_tokens: Option<u32> = match self.max_completion_tokens {
            Some(n) => Some(n),
            None => self.max_tokens,
        };
        if let Some(n) = max_tokens {
            if n == 0 {
                return Err(invalid("'max_completion_tokens' must be >= 1"));
            }
        }
        let messages: Vec<ChatMessage> = match convert_messages(&self.messages) {
            Ok(m) => m,
            Err(e) => return Err(e),
        };
        Ok(
            ValidatedChat {
                messages,
                sampling,
                max_tokens,
                stop_strings,
                stream: self.stream,
                include_usage: match self.stream_options {
                    Some(o) => o.include_usage,
                    None => false,
                },
            },
        )
    }
}

/// How many tokens a chat may generate: what the client asked for, else what the
/// context still holds, else a fallback.
pub open spec fn chat_cap(asked: Option<u32>, prompt_tokens: u32, max_context_len: u32) -> int {
    match asked {
        Some(requested) => requested as int,
        None => if max_context_len > 0 {
            max_context_len - prompt_tokens
        } else {
            FALLBACK_MAX_TOKENS as int
        },
    }
}

impl ValidatedChat {
    /// Effective cap: the client's value, else the remaining context, else a
    /// conservative fallback when the context is unknown.
    pub fn effective_max_tokens(&self, prompt_tokens: u32, max_context_len: u32) -> (r: Result<
        u32,
        ApiError,
    >)
        ensures
            match r {
                Err(e) => prompt::overflows(prompt_tokens, max_context_len) && e@
                    == error::context_length_exceeded(
                    prompt::overflow_message(prompt_tokens, max_context_len),
                ),
                Ok(n) => !prompt::overflows(prompt_tokens, max_context_len) && n == chat_cap(
                    self.max_tokens,
                    prompt_tokens,
                    max_context_len,
                ),
            },
    {
        if max_context_len > 0 && prompt_tokens >= max_context_len {
            return Err(prompt::overflow_error(prompt_tokens, max_context_len));
        }
        Ok(
            match self.max_tokens {
                Some(requested) => requested,
                None => if max_context_len > 0 {
                    max_context_len - prompt_tokens
                } else {
                    FALLBACK_MAX_TOKENS
                },
            },
        )
    }
}

#[derive(Debug)]
pub struct CompletionRequest {
    pub model: String,
    pub prompt: Option<PromptSpec>,
    pub stream: bool,
    pub stream_options: Option<StreamOptions>,
    pub temperature: Option<Single>,
    pub top_p: Option<Single>,
    pub max_tokens: Option<u32>,
    pub stop: Option<StopSpec>,
    pub seed: Option<i64>,
    pub presence_penalty: Option<Single>,
    pub frequency_penalty: Option<Single>,
    pub n: Option<u32>,
    pub best_of: Option<u32>,
    /// A count on this endpoint, not the chat flag.
    pub logprobs: Option<u32>,
    pub echo: bool,
    pub suffix: Option<String>,
    pub user: Option<String>,
}

/// The prompt forms clients may send. Token-id forms are known so that they
/// can be rejected by name.
#[derive(Debug)]
pub enum PromptSpec {
    Text(String),
    Many(Vec<String>),
    Tokens(Vec<i64>),
    ManyTokens(Vec<Vec<i64>>),
}

/// The completions request after validation: the raw prompt plus the worker's
/// sampling and stopping parameters.
#[derive(Debug)]
pub struct ValidatedCompletion {
    pub prompt: String,
    pub sampling: SamplingParams,
    /// None = the legacy default, applied at submit time.
    pub max_tokens: Option<u32>,
    pub stop_strings: Vec<String>,
    pub stream: bool,
    pub include_usage: bool,
}

/// The one string a prompt stands for, or what is wrong with it.
pub open spec fn prompt_text(spec: Option<PromptSpec>) -> Result<Seq<char>, Seq<char>> {
    match spec {
        None => Err("'prompt' is required"@),
        Some(PromptSpec::Text(t)) => Ok(t@),
        Some(PromptSpec::Many(list)) => if list@.len() == 1 {
            Ok(list@[0]@)
        } else {
            Err("'prompt' arrays must contain exactly one string"@)
        },
        Some(PromptSpec::Tokens(_)) | Some(PromptSpec::ManyTokens(_)) => Err(
            "token-id prompts are not supported; send a string"@,
        ),
    }
}

impl CompletionRequest {
    /// What is wrong with the request, if anything.
    pub open spec fn problem(self) -> Option<Seq<char>> {
        match prompt_text(self.prompt) {
            Err(m) => Some(m),
            Ok(p) => if p.len() == 0 {
                Some("'prompt' must be non-empty"@)
            } else if self.n is Some && self.n->0 != 1 {
                Some("'n' > 1 is not supported"@)
            } else if self.best_of is Some && self.best_of->0 != 1 {
                Some("'best_of' > 1 is not supported"@)
            } else if self.logprobs is Some {
                Some("'logprobs' is not supported by this model's worker"@)
            } else if self.echo {
                Some("'echo' is not supported"@)
            } else if self.suffix is Some {
                Some("'suffix' is not supported"@)
            } else if self.stream_options is Some && !self.stream {
                Some("'stream_options' requires 'stream': true"@)
            } else if self.max_tokens == Some(0u32) {
                Some("'max_tokens' must be >= 1"@)
            } else {
                sampling_problem(
                    self.temperature,
                    self.top_p,
                    self.presence_penalty,
                    self.frequency_penalty,
                    self.seed,
                    self.stop,
                )
            },
        }
    }

    /// The request is sound, and this is what it asks for.
    pub open spec fn accepts(self, v: ValidatedCompletion) -> bool {
        &&& self.problem() is None
        &&& prompt_text(self.prompt) == Ok::<Seq<char>, Seq<char>>(v.prompt@)
        &&& v.sampling == sampling_of(
            self.temperature,
            self.top_p,
            self.presence_penalty,
            self.frequency_penalty,
            self.seed,
        )
        &&& v.max_tokens == self.max_tokens
        &&& text::list_view(v.stop_strings@) == stops_of(self.stop)
        &&& v.stream == self.stream
        &&& v.include_usage == wants_usage(self.stream_options)
    }

    /// Checks the request; the first problem is reported.
    pub fn validate(&self) -> (r: Result<ValidatedCompletion, ApiError>)
        ensures
            match r {
                Err(e) => self.problem() is Some && e@ == error::invalid_request(
                    self.problem()->0,
                ),
                Ok(v) => {
                    &&& self.accepts(v)
                    &&& self.temperature is Some ==> v.sampling.temperature == self.temperature->0
                    &&& self.top_p is Some ==> v.sampling.top_p == self.top_p->0
                    &&& self.presence_penalty is Some ==> v.sampling.presence_penalty
                        == self.presence_penalty->0
                    &&& self.frequency_penalty is Some ==> v.sampling.frequency_penalty
                        == self.frequency_penalty->0
                    &&& self.seed is Some ==> v.sampling.seed == self.seed->0
                },
            },
    {
        let prompt: String = match &self.prompt {
            None => return Err(invalid("'prompt' is required")),
            Some(PromptSpec::Text(t)) => t.clone(),
            Some(PromptSpec::Many(list)) => if list.len() == 1 {
                list[0].clone()
            } else {
                return Err(invalid("'prompt' arrays must contain exactly one string"));
            },
            Some(PromptSpec::Tokens(_)) | Some(PromptSpec::ManyTokens(_)) => return Err(
                invalid("token-id prompts are not supported; send a string"),
            ),
        };
        if prompt.as_str().is_empty() {
            return Err(invalid("'prompt' must be non-empty"));
        }
        if let Some(n) = self.n {
            if n != 1 {
                return Err(invalid("'n' > 1 is not supported"));
            }
        }
        if let Some(best_of) = self.best_of {
            if best_of != 1 {
                return Err(invalid("'best_of' > 1 is not supported"));
            }
        }
        if self.logprobs.is_some() {
            return Err(invalid("'logprobs' is not supported by this model's worker"));
        }
        if self.echo {
            return Err(invalid("'echo' is not supported"));
        }
        if self.suffix.is_some() {
            return Err(invalid("'suffix' is not supported"));
        }
        if self.stream_options.is_some() && !self.stream {
            return Err(invalid("'stream_options' requires 'stream': true"));
        }
        if let Some(n) = self.max_tokens {
            if n == 0 {
                return Err(invalid("'max_tokens' must be >= 1"));
            }
        }
        let (sampling, stop_strings) = match validate_sampling(
            self.temperature,
            self.top_p,
            self.presence_penalty,
            self.frequency_penalty,
            self.seed,
            &self.stop,
        ) {
            Ok(x) => x,
            Err(e) => return Err(e),
        };
        Ok(
            ValidatedCompletion {
                prompt,
                sampling,
                max_tokens: self.max_tokens,
                stop_strings,
                stream: self.stream,
                include_usage: match self.stream_options {
                    Some(o) => o.include_usage,
                    None => false,
                },
            },
        )
    }
}

/// How many tokens a text completion may generate.
pub open spec fn completion_cap(asked: Option<u32>) -> u32 {
    match asked {
        Some(requested) => requested,
        None => DEFAULT_COMPLETION_MAX_TOKENS,
    }
}

impl ValidatedCompletion {
    /// Effective cap: the client's value, else the legacy default.
    pub fn effective_max_tokens(&self, prompt_tokens: u32, max_context_len: u32) -> (r: Result<
        u32,
        ApiError,
    >)
        ensures
            match r {
                Err(e) => prompt::overflows(prompt_tokens, max_context_len) && e@
                    == error::context_length_exceeded(
                    prompt::overflow_message(prompt_tokens, max_context_len),
                ),
                Ok(n) => !prompt::overflows(prompt_tokens, max_context_len) && n == completion_cap(
                    self.max_tokens,
                ),
            },
    {
        if max_context_len > 0 && prompt_tokens >= max_context_len {
            return Err(prompt::overflow_error(prompt_tokens, max_context_len));
        }
        Ok(
            match self.max_tokens {
                Some(requested) => requested,
                None => DEFAULT_COMPLETION_MAX_TOKENS,
            },
        )
    }
}

#[derive(Debug, Clone, Copy, PartialEq, Eq, Structural)]
pub struct Usage {
    pub prompt_tokens: u32,
    pub completion_tokens: u32,
    pub total_tokens: u32,
}

/// A JSON number.
pub open spec fn num(n: int) -> JsonView {
    JsonView::Number(NumberView::Unsigned(n as u64))
}

impl Usage {
    pub open spec fn spec_json(self) -> JsonView {
        JsonView::Object(
            map![
                "prompt_tokens"@ => num(self.prompt_tokens as int),
                "completion_tokens"@ => num(self.completion_tokens as int),
                "total_tokens"@ => num(self.total_tokens as int)
            ],
        )
    }

    pub fn to_json(&self) -> (r: Value)
        ensures
            json::contents(r) == self.spec_json(),
    {
        let o: Value = json::with(
            json::object(),
            "prompt_tokens",
            json::unsigned(self.prompt_tokens as u64),
        );
        let o: Value = json::with(
            o,
            "completion_tokens",
            json::unsigned(self.completion_tokens as u64),
        );
        json::with(o, "total_tokens", json::unsigned(self.total_tokens as u64))
    }
}

/// A finished tool call in a response.
#[derive(Debug)]
pub struct ResponseToolCall {
    pub id: String,
    pub name: String,
    pub arguments: String,
}

#[derive(Debug)]
pub struct AssistantMessage {
    pub role: &'static str,
    /// Null on a turn that only calls tools.
    pub content: Option<String>,
    pub tool_calls: Option<Vec<ResponseToolCall>>,
}

#[derive(Debug)]
pub struct Choice {
    pub index: u32,
    pub message: AssistantMessage,
    pub finish_reason: &'static str,
}

#[derive(Debug)]
pub struct ChatCompletion {
    pub id: String,
    pub object: &'static str,
    pub created: u64,
    pub model: String,
    pub choices: Vec<Choice>,
    pub usage: Usage,
}

/// A piece of a tool call in a stream: the start names the call, the rest
/// carries argument text.
#[derive(Debug)]
pub struct DeltaToolCall {
    pub index: u64,
    pub id: Option<String>,
    pub call_type: Option<&'static str>,
    pub name: Option<String>,
    pub arguments: String,
}

#[derive(Debug)]
pub struct Delta {
    pub role: Option<&'static str>,
    pub content: Option<String>,
    pub tool_calls: Option<Vec<DeltaToolCall>>,
}

#[derive(Debug)]
pub struct ChunkChoice {
    pub index: u32,
    pub delta: Delta,
    pub finish_reason: Option<&'static str>,
}

#[derive(Debug)]
pub struct ChatCompletionChunk {
    pub id: String,
    pub object: &'static str,
    pub created: u64,
    pub model: String,
    pub choices: Vec<ChunkChoice>,
    /// Omitted unless the client asked for usage: then null on data chunks
    /// and an object on the final usage chunk.
    pub usage: Option<Option<Usage>>,
}

/// Choice of both the full completion and its stream chunks.
#[derive(Debug)]
pub struct CompletionChoice {
    pub index: u32,
    pub text: String,
    pub finish_reason: Option<&'static str>,
}

#[derive(Debug)]
pub struct TextCompletion {
    pub id: String,
    pub object: &'static str,
    pub created: u64,
    pub model: String,
    pub choices: Vec<CompletionChoice>,
    /// Omitted on data chunks of a stream without usage; always present on
    /// the full response.
    pub usage: Option<Option<Usage>>,
}

#[derive(Debug)]
pub struct ModelObject {
    pub id: String,
    pub object: &'static str,
    pub created: u64,
    pub owned_by: &'static str,
}

pub open spec fn opt_static(s: Option<&'static str>) -> JsonView {
    match s {
        Some(s) => JsonView::Str(s@),
        None => JsonView::Null,
    }
}

fn opt_static_json(s: Option<&'static str>) -> (r: Value)
    ensures
        json::contents(r) == opt_static(s),
{
    match s {
        Some(s) => json::string(s),
        None => json::null(),
    }
}

impl ResponseToolCall {
    pub open spec fn spec_json(self) -> JsonView {
        JsonView::Object(
            map![
                "id"@ => JsonView::Str(self.id@),
                "type"@ => JsonView::Str("function"@),
                "function"@ => JsonView::Object(map![
                    "name"@ => JsonView::Str(self.name@),
                    "arguments"@ => JsonView::Str(self.arguments@)
                ])
            ],
        )
    }

    pub fn to_json(&self) -> (r: Value)
        ensures
            json::contents(r) == self.spec_json(),
    {
        let f: Value = json::with(json::object(), "name", json::string(self.name.as_str()));
        let f: Value = json::with(f, "arguments", json::string(self.arguments.as_str()));
        let o: Value = json::with(json::object(), "id", json::string(self.id.as_str()));
        let o: Value = json::with(o, "type", json::string("function"));
        json::with(o, "function", f)
    }
}

/// The calls of a message as JSON.
pub open spec fn calls_json(calls: Seq<ResponseToolCall>) -> JsonView {
    JsonView::Array(Seq::new(calls.len(), |i: int| calls[i].spec_json()))
}

fn calls_value(calls: &Vec<ResponseToolCall>) -> (r: Value)
    ensures
        json::contents(r) == calls_json(calls@),
{
    let mut out: Vec<Value> = Vec::new();
    let mut i: usize = 0;
    while i < calls.len()
        invariant
            i <= calls@.len(),
            out@.len() == i,
            forall|j: int|
                0 <= j < i ==> json::contents(#[trigger] out@[j]) == calls@[j].spec_json(),
        decreases calls@.len() - i,
    {
        out.push(calls[i].to_json());
        i = i + 1;
    }
    assert(json::list_contents(out@) =~= Seq::new(
        calls@.len(),
        |i: int| calls@[i].spec_json(),
    ));
    json::array(out)
}

impl AssistantMessage {
    pub open spec fn spec_json(self) -> JsonView {
        let base = map![
            "role"@ => JsonView::Str(self.role@),
            "content"@ => json::opt_str(text::opt_view(self.content))
        ];
        JsonView::Object(
            match self.tool_calls {
                Some(calls) => base.insert("tool_calls"@, calls_json(calls@)),
                None => base,
            },
        )
    }

    pub fn to_json(&self) -> (r: Value)
        ensures
            json::contents(r) == self.spec_json(),
    {
        let o: Value = json::with(json::object(), "role", json::string(self.role));
        let o: Value = json::with(o, "content", json::opt_string(&self.content));
        match &self.tool_calls {
            Some(calls) => json::with(o, "tool_calls", calls_value(calls)),
            None => o,
        }
    }
}

impl Choice {
    pub open spec fn spec_json(self) -> JsonView {
        JsonView::Object(
            map![
                "index"@ => num(self.index as int),
                "message"@ => self.message.spec_json(),
                "logprobs"@ => JsonView::Null,
                "finish_reason"@ => JsonView::Str(self.finish_reason@)
            ],
        )
    }

    pub fn to_json(&self) -> (r: Value)
        ensures
            json::contents(r) == self.spec_json(),
    {
        let o: Value = json::with(json::object(), "index", json::unsigned(self.index as u64));
        let o: Value = json::with(o, "message", self.message.to_json());
        let o: Value = json::with(o, "logprobs", json::null());
        json::with(o, "finish_reason", json::string(self.finish_reason))
    }
}

impl ChatCompletion {
    pub open spec fn spec_json(self) -> JsonView {
        JsonView::Object(
            map![
                "id"@ => JsonView::Str(self.id@),
                "object"@ => JsonView::Str(self.object@),
                "created"@ => num(self.created as int),
                "model"@ => JsonView::Str(self.model@),
                "choices"@ => JsonView::Array(
                    Seq::new(self.choices@.len(), |i: int| self.choices@[i].spec_json()),
                ),
                "usage"@ => self.usage.spec_json()
            ],
        )
    }

    /// The response body.
    pub fn to_json(&self) -> (r: Value)
        ensures
            json::contents(r) == self.spec_json(),
    {
        let mut choices: Vec<Value> = Vec::new();
        let mut i: usize = 0;
        while i < self.choices.len()
            invariant
                i <= self.choices@.len(),
                choices@.len() == i,
                forall|j: int|
                    0 <= j < i ==> json::contents(#[trigger] choices@[j])
                        == self.choices@[j].spec_json(),
            decreases self.choices@.len() - i,
        {
            choices.push(self.choices[i].to_json());
            i = i + 1;
        }
        assert(json::list_contents(choices@) =~= Seq::new(
            self.choices@.len(),
            |i: int| self.choices@[i].spec_json(),
        ));
        let o: Value = json::with(json::object(), "id", json::string(self.id.as_str()));
        let o: Value = json::with(o, "object", json::string(self.object));
        let o: Value = json::with(o, "created", json::unsigned(self.created));
        let o: Value = json::with(o, "model", json::string(self.model.as_str()));
        let o: Value = json::with(o, "choices", json::array(choices));
        json::with(o, "usage", self.usage.to_json())
    }
}

impl DeltaToolCall {
    pub open spec fn spec_json(self) -> JsonView {
        let f = match self.name {
            Some(name) => Map::<Seq<char>, JsonView>::empty().insert(
                "name"@,
                JsonView::Str(name@),
            ),
            None => Map::<Seq<char>, JsonView>::empty(),
        }.insert("arguments"@, JsonView::Str(self.arguments@));
        let a = Map::<Seq<char>, JsonView>::empty().insert("index"@, num(self.index as int));
        let b = match self.id {
            Some(id) => a.insert("id"@, JsonView::Str(id@)),
            None => a,
        };
        let c = match self.call_type {
            Some(t) => b.insert("type"@, JsonView::Str(t@)),
            None => b,
        };
        JsonView::Object(c.insert("function"@, JsonView::Object(f)))
    }

    pub fn to_json(&self) -> (r: Value)
        ensures
            json::contents(r) == self.spec_json(),
    {
        let f: Value = match &self.name {
            Some(name) => json::with(json::object(), "name", json::string(name.as_str())),
            None => json::object(),
        };
        let f: Value = json::with(f, "arguments", json::string(self.arguments.as_str()));
        let o: Value = json::with(json::object(), "index", json::unsigned(self.index));
        let o: Value = match &self.id {
            Some(id) => json::with(o, "id", json::string(id.as_str())),
            None => o,
        };
        let o: Value = match self.call_type {
            Some(t) => json::with(o, "type", json::string(t)),
            None => o,
        };
        json::with(o, "function", f)
    }
}

/// The pieces of a delta as JSON.
pub open spec fn delta_calls_json(calls: Seq<DeltaToolCall>) -> JsonView {
    JsonView::Array(Seq::new(calls.len(), |i: int| calls[i].spec_json()))
}

fn delta_calls_value(calls: &Vec<DeltaToolCall>) -> (r: Value)
    ensures
        json::contents(r) == delta_calls_json(calls@),
{
    let mut out: Vec<Value> = Vec::new();
    let mut i: usize = 0;
    while i < calls.len()
        invariant
            i <= calls@.len(),
            out@.len() == i,
            forall|j: int|
                0 <= j < i ==> json::contents(#[trigger] out@[j]) == calls@[j].spec_json(),
        decreases calls@.len() - i,
    {
        out.push(calls[i].to_json());
        i = i + 1;
    }
    assert(json::list_contents(out@) =~= Seq::new(
        calls@.len(),
        |i: int| calls@[i].spec_json(),
    ));
    json::array(out)
}

impl Delta {
    pub open spec fn spec_json(self) -> JsonView {
        let a = match self.role {
            Some(role) => Map::<Seq<char>, JsonView>::empty().insert(
                "role"@,
                JsonView::Str(role@),
            ),
            None => Map::<Seq<char>, JsonView>::empty(),
        };
        let b = match self.content {
            Some(c) => a.insert("content"@, JsonView::Str(c@)),
            None => a,
        };
        JsonView::Object(
            match self.tool_calls {
                Some(calls) => b.insert("tool_calls"@, delta_calls_json(calls@)),
                None => b,
            },
        )
    }

    pub fn to_json(&self) -> (r: Value)
        ensures
            json::contents(r) == self.spec_json(),
    {
        let o: Value = match self.role {
            Some(role) => json::with(json::object(), "role", json::string(role)),
            None => json::object(),
        };
        let o: Value = match &self.content {
            Some(c) => json::with(o, "content", json::string(c.as_str())),
            None => o,
        };
        match &self.tool_calls {
            Some(calls) => json::with(o, "tool_calls", delta_calls_value(calls)),
            None => o,
        }
    }
}

impl ChunkChoice {
    pub open spec fn spec_json(self) -> JsonView {
        JsonView::Object(
            map![
                "index"@ => num(self.index as int),
                "delta"@ => self.delta.spec_json(),
                "logprobs"@ => JsonView::Null,
                "finish_reason"@ => opt_static(self.finish_reason)
            ],
        )
    }

    pub fn to_json(&self) -> (r: Value)
        ensures
            json::contents(r) == self.spec_json(),
    {
        let o: Value = json::with(json::object(), "index", json::unsigned(self.index as u64));
        let o: Value = json::with(o, "delta", self.delta.to_json());
        let o: Value = json::with(o, "logprobs", json::null());
        json::with(o, "finish_reason", opt_static_json(self.finish_reason))
    }
}

/// An object with the usage field as the client asked for it: absent, null or
/// an object.
pub open spec fn with_usage(
    base: Map<Seq<char>, JsonView>,
    usage: Option<Option<Usage>>,
) -> JsonView {
    JsonView::Object(
        match usage {
            None => base,
            Some(None) => base.insert("usage"@, JsonView::Null),
            Some(Some(u)) => base.insert("usage"@, u.spec_json()),
        },
    )
}

fn add_usage(o: Value, usage: &Option<Option<Usage>>) -> (r: Value)
    requires
        json::contents(o) is Object,
    ensures
        json::contents(r) == with_usage(json::contents(o)->Object_0, *usage),
{
    match usage {
        None => o,
        Some(None) => json::with(o, "usage", json::null()),
        Some(Some(u)) => json::with(o, "usage", u.to_json()),
    }
}

impl ChatCompletionChunk {
    pub open spec fn spec_json(self) -> JsonView {
        with_usage(
            map![
                "id"@ => JsonView::Str(self.id@),
                "object"@ => JsonView::Str(self.object@),
                "created"@ => num(self.created as int),
                "model"@ => JsonView::Str(self.model@),
                "choices"@ => JsonView::Array(
                    Seq::new(self.choices@.len(), |i: int| self.choices@[i].spec_json()),
                )
            ],
            self.usage,
        )
    }

    /// The payload of one stream event.
    pub fn to_json(&self) -> (r: Value)
        ensures
            json::contents(r) == self.spec_json(),
    {
        let mut choices: Vec<Value> = Vec::new();
        let mut i: usize = 0;
        while i < self.choices.len()
            invariant
                i <= self.choices@.len(),
                choices@.len() == i,
                forall|j: int|
                    0 <= j < i ==> json::contents(#[trigger] choices@[j])
                        == self.choices@[j].spec_json(),
            decreases self.choices@.len() - i,
        {
            choices.push(self.choices[i].to_json());
            i = i + 1;
        }
        assert(json::list_contents(choices@) =~= Seq::new(
            self.choices@.len(),
            |i: int| self.choices@[i].spec_json(),
        ));
        let o: Value = json::with(json::object(), "id", json::string(self.id.as_str()));
        let o: Value = json::with(o, "object", json::string(self.object));
        let o: Value = json::with(o, "created", json::unsigned(self.created));
        let o: Value = json::with(o, "model", json::string(self.model.as_str()));
        let o: Value = json::with(o, "choices", json::array(choices));
        add_usage(o, &self.usage)
    }
}

impl CompletionChoice {
    pub open spec fn spec_json(self) -> JsonView {
        JsonView::Object(
            map![
                "index"@ => num(self.index as int),
                "text"@ => JsonView::Str(self.text@),
                "logprobs"@ => JsonView::Null,
                "finish_reason"@ => opt_static(self.finish_reason)
            ],
        )
    }

    pub fn to_json(&self) -> (r: Value)
        ensures
            json::contents(r) == self.spec_json(),
    {
        let o: Value = json::with(json::object(), "index", json::unsigned(self.index as u64));
        let o: Value = json::with(o, "text", json::string(self.text.as_str()));
        let o: Value = json::with(o, "logprobs", json::null());
        json::with(o, "finish_reason", opt_static_json(self.finish_reason))
    }
}

impl TextCompletion {
    pub open spec fn spec_json(self) -> JsonView {
        with_usage(
            map![
                "id"@ => JsonView::Str(self.id@),
                "object"@ => JsonView::Str(self.object@),
                "created"@ => num(self.created as int),
                "model"@ => JsonView::Str(self.model@),
                "choices"@ => JsonView::Array(
                    Seq::new(self.choices@.len(), |i: int| self.choices@[i].spec_json()),
                )
            ],
            self.usage,
        )
    }

    /// The response body, or the payload of one stream event.
    pub fn to_json(&self) -> (r: Value)
        ensures
            json::contents(r) == self.spec_json(),
    {
        let mut choices: Vec<Value> = Vec::new();
        let mut i: usize = 0;
        while i < self.choices.len()
            invariant
                i <= self.choices@.len(),
                choices@.len() == i,
                forall|j: int|
                    0 <= j < i ==> json::contents(#[trigger] choices@[j])
                        == self.choices@[j].spec_json(),
            decreases self.choices@.len() - i,
        {
            choices.push(self.choices[i].to_json());
            i = i + 1;
        }
        assert(json::list_contents(choices@) =~= Seq::new(
            self.choices@.len(),
            |i: int| self.choices@[i].spec_json(),
        ));
        let o: Value = json::with(json::object(), "id", json::string(self.id.as_str()));
        let o: Value = json::with(o, "object", json::string(self.object));
        let o: Value = json::with(o, "created", json::unsigned(self.created));
        let o: Value = json::with(o, "model", json::string(self.model.as_str()));
        let o: Value = json::with(o, "choices", json::array(choices));
        add_usage(o, &self.usage)
    }
}

impl ModelObject {
    pub open spec fn spec_json(self) -> JsonView {
        JsonView::Object(
            map![
                "id"@ => JsonView::Str(self.id@),
                "object"@ => JsonView::Str(self.object@),
                "created"@ => num(self.created as int),
                "owned_by"@ => JsonView::Str(self.owned_by@)
            ],
        )
    }

    pub fn to_json(&self) -> (r: Value)
        ensures
            json::contents(r) == self.spec_json(),
    {
        let o: Value = json::with(json::object(), "id", json::string(self.id.as_str()));
        let o: Value = json::with(o, "object", json::string(self.object));
        let o: Value = json::with(o, "created", json::unsigned(self.created));
        json::with(o, "owned_by", json::string(self.owned_by))
    }
}

/// A chat samples with exactly what it asked for, field by field; what it leaves
/// out is neutral: a temperature and a nucleus of 1, no penalties, a seed that the
/// worker chooses. Nothing else narrows what is sampled.
pub proof fn law_chats_sample_as_asked(request: ChatCompletionRequest, v: ValidatedChat)
    requires
        request.accepts(v),
    ensures
        v.sampling.temperature == (match request.temperature {
            Some(x) => x,
            None => Single { bits: 0x3f80_0000 },
        }),
        v.sampling.top_p == (match request.top_p {
            Some(x) => x,
            None => Single { bits: 0x3f80_0000 },
        }),
        v.sampling.presence_penalty == (match request.presence_penalty {
            Some(x) => x,
            None => Single { bits: 0 },
        }),
        v.sampling.frequency_penalty == (match request.frequency_penalty {
            Some(x) => x,
            None => Single { bits: 0 },
        }),
        request.seed is Some ==> v.sampling.seed == request.seed->0,
        request.seed is None ==> v.sampling.seed == 0,
        v.sampling.top_k == 0,
        v.sampling.min_p == (Single { bits: 0 }),
        v.sampling.repetition_penalty == (Single { bits: 0 }),
        v.sampling.repetition_window == 0,
        v.sampling.logprobs_top_n == 0,
        v.stream == request.stream,
        v.include_usage <==> request.stream_options is Some
            && request.stream_options->0.include_usage,
        request.stop is None ==> v.stop_strings@.len() == 0,
        match request.stop {
            Some(StopSpec::One(s)) => v.stop_strings@.len() == 1 && v.stop_strings@[0]@ == s@,
            Some(StopSpec::Many(list)) => v.stop_strings@.len() == list@.len() && forall|i: int|
                0 <= i < list@.len() ==> (#[trigger] v.stop_strings@[i])@ == list@[i]@,
            None => true,
        },
{
    let stops = text::list_view(v.stop_strings@);
    assert(stops.len() == v.stop_strings@.len());
    assert forall|i: int| 0 <= i < v.stop_strings@.len() implies (#[trigger] v.stop_strings@[i])@
        == stops[i] by {}
    assert(stops.len() > 0 ==> stops[0] == v.stop_strings@[0]@);
}

/// A text completion samples with exactly what it asked for, field by field; what it leaves
/// out is neutral: a temperature and a nucleus of 1, no penalties, a seed that the
/// worker chooses. Nothing else narrows what is sampled.
pub proof fn law_completions_sample_as_asked(request: CompletionRequest, v: ValidatedCompletion)
    requires
        request.accepts(v),
    ensures
        v.sampling.temperature == (match request.temperature {
            Some(x) => x,
            None => Single { bits: 0x3f80_0000 },
        }),
        v.sampling.top_p == (match request.top_p {
            Some(x) => x,
            None => Single { bits: 0x3f80_0000 },
        }),
        v.sampling.presence_penalty == (match request.presence_penalty {
            Some(x) => x,
            None => Single { bits: 0 },
        }),
        v.sampling.frequency_penalty == (match request.frequency_penalty {
            Some(x) => x,
            None => Single { bits: 0 },
        }),
        request.seed is Some ==> v.sampling.seed == request.seed->0,
        request.seed is None ==> v.sampling.seed == 0,
        v.sampling.top_k == 0,
        v.sampling.min_p == (Single { bits: 0 }),
        v.sampling.repetition_penalty == (Single { bits: 0 }),
        v.sampling.repetition_window == 0,
        v.sampling.logprobs_top_n == 0,
        v.stream == request.stream,
        v.include_usage <==> request.stream_options is Some
            && request.stream_options->0.include_usage,
        request.stop is None ==> v.stop_strings@.len() == 0,
        match request.stop {
            Some(StopSpec::One(s)) => v.stop_strings@.len() == 1 && v.stop_strings@[0]@ == s@,
            Some(StopSpec::Many(list)) => v.stop_strings@.len() == list@.len() && forall|i: int|
                0 <= i < list@.len() ==> (#[trigger] v.stop_strings@[i])@ == list@[i]@,
            None => true,
        },
{
    let stops = text::list_view(v.stop_strings@);
    assert(stops.len() == v.stop_strings@.len());
    assert forall|i: int| 0 <= i < v.stop_strings@.len() implies (#[trigger] v.stop_strings@[i])@
        == stops[i] by {}
    assert(stops.len() > 0 ==> stops[0] == v.stop_strings@[0]@);
}

/// Parameters that a request may sample with: a temperature from 0 to 2, a nucleus
/// from 0 to 1, penalties from -2 to 2, by their bits, no negative seed and at most
/// four stop strings. All of these are taken, and nothing else.
pub proof fn law_sampling_ranges(
    temperature: Option<Single>,
    top_p: Option<Single>,
    presence_penalty: Option<Single>,
    frequency_penalty: Option<Single>,
    seed: Option<i64>,
    stop: Option<StopSpec>,
)
    ensures
        sampling_problem(temperature, top_p, presence_penalty, frequency_penalty, seed, stop)
            is None <==> {
            &&& temperature is Some ==> temperature->0.bits <= 0x4000_0000 || temperature->0.bits
                == 0x8000_0000
            &&& top_p is Some ==> top_p->0.bits <= 0x3f80_0000 || top_p->0.bits == 0x8000_0000
            &&& presence_penalty is Some ==> presence_penalty->0.bits % 0x8000_0000 <= 0x4000_0000
            &&& frequency_penalty is Some ==> frequency_penalty->0.bits % 0x8000_0000
                <= 0x4000_0000
            &&& seed is Some ==> seed->0 >= 0
            &&& (match stop {
                Some(StopSpec::Many(list)) => list@.len() <= 4,
                _ => true,
            })
        },
{
    crate::float::law_single_ranges(prompt::or_one(temperature));
    crate::float::law_single_ranges(prompt::or_one(top_p));
    crate::float::law_single_ranges(prompt::or_zero(presence_penalty));
    crate::float::law_single_ranges(prompt::or_zero(frequency_penalty));
}

/// A chat's conversation reaches the template whole: as many messages as the client
/// sent, in order, each under its own role, with `developer` read as `system`, and
/// with what it says.
pub proof fn law_chats_keep_their_messages(
    request: ChatCompletionRequest,
    v: ValidatedChat,
    i: int,
)
    requires
        request.accepts(v),
        0 <= i < request.messages@.len(),
    ensures
        v.messages@.len() == request.messages@.len(),
        v.messages@[i].tool_calls is None,
        request.messages@[i].role@ == "developer"@ ==> v.messages@[i].role@ == "system"@,
        request.messages@[i].role@ != "developer"@ ==> v.messages@[i].role@
            == request.messages@[i].role@,
        v.messages@[i].role@ == "system"@ || v.messages@[i].role@ == "user"@
            || v.messages@[i].role@ == "assistant"@,
        match request.messages@[i].content {
            None => v.messages@[i].content@.len() == 0,
            Some(MessageContent::Text(t)) => v.messages@[i].content@ == t@,
            Some(MessageContent::Parts(parts)) => v.messages@[i].content@ == parts_text(parts@),
        },
{
    let seen = prompt::messages_view(v.messages@);
    assert(seen.len() == v.messages@.len());
    assert(seen[i] == v.messages@[i]@);
    lemma_messages_sound(request.messages@, 0, i);
}

proof fn lemma_messages_sound(messages: Seq<RequestMessage>, i: int, k: int)
    requires
        0 <= i <= k < messages.len(),
        messages_problem(messages, i) is None,
    ensures
        message_problem(messages[k]) is None,
    decreases messages.len() - i,
{
    if i < k {
        lemma_messages_sound(messages, i + 1, k);
    }
}

/// The text of a message in parts is the texts of its parts, one behind the other.
pub proof fn law_parts_are_joined(parts: Seq<ContentPart>, part: ContentPart)
    ensures
        part.text is Some ==> parts_text(parts.push(part)) == parts_text(parts) + part.text->0@,
        part.text is None ==> parts_text(parts.push(part)) == parts_text(parts),
        parts_text(Seq::empty()).len() == 0,
{
    assert(parts.push(part).drop_last() =~= parts);
    assert(parts_text(parts) + Seq::<char>::empty() =~= parts_text(parts));
}

/// What cannot be served is refused, never dropped: a chat is accepted only with
/// messages, for one choice, without log probabilities, tools or another format than
/// text, with stream options only in a stream, a cap above nothing, and messages of
/// known roles whose parts are all text.
pub proof fn law_unsupported_chats_are_refused(request: ChatCompletionRequest)
    ensures
        request.messages@.len() == 0 ==> request.problem() is Some,
        request.n is Some && request.n->0 != 1 ==> request.problem() is Some,
        request.logprobs || request.top_logprobs is Some ==> request.problem() is Some,
        request.tools is Some || request.tool_choice is Some ==> request.problem() is Some,
        request.response_format is Some && request.response_format->0.format_type@ != "text"@
            ==> request.problem() is Some,
        request.stream_options is Some && !request.stream ==> request.problem() is Some,
        request.max_completion_tokens == Some(0u32) ==> request.problem() is Some,
        request.max_completion_tokens is None && request.max_tokens == Some(0u32)
            ==> request.problem() is Some,
{
}

/// A chat without such a flaw is accepted.
pub proof fn law_sound_chats_are_accepted(request: ChatCompletionRequest)
    requires
        request.messages@.len() > 0,
        request.n is None || request.n->0 == 1,
        !request.logprobs,
        request.top_logprobs is None,
        request.tools is None,
        request.tool_choice is None,
        request.response_format is None || request.response_format->0.format_type@ == "text"@,
        request.stream_options is None || request.stream,
        request.max_completion_tokens != Some(0u32),
        request.max_tokens != Some(0u32),
        sampling_problem(
            request.temperature,
            request.top_p,
            request.presence_penalty,
            request.frequency_penalty,
            request.seed,
            request.stop,
        ) is None,
        forall|i: int|
            0 <= i < request.messages@.len() ==> {
                let m = #[trigger] request.messages@[i];
                &&& m.role@ == "system"@ || m.role@ == "developer"@ || m.role@ == "user"@
                    || m.role@ == "assistant"@
                &&& m.content is Some && m.content->0 is Parts ==> forall|k: int|
                    0 <= k < m.content->0->Parts_0@.len() ==> (
                    #[trigger] m.content->0->Parts_0@[k]).part_type@ == "text"@
            },
    ensures
        request.problem() is None,
{
    lemma_no_problem(request.messages@, 0);
}

proof fn lemma_no_odd_part(parts: Seq<ContentPart>, i: int)
    requires
        0 <= i <= parts.len(),
        forall|k: int| 0 <= k < parts.len() ==> (#[trigger] parts[k]).part_type@ == "text"@,
    ensures
        odd_part(parts, i) is None,
    decreases parts.len() - i,
{
    if i < parts.len() {
        assert(parts[i].part_type@ == "text"@);
        lemma_no_odd_part(parts, i + 1);
    }
}

proof fn lemma_no_problem(messages: Seq<RequestMessage>, i: int)
    requires
        0 <= i <= messages.len(),
        forall|k: int|
            0 <= k < messages.len() ==> {
                let m = #[trigger] messages[k];
                &&& m.role@ == "system"@ || m.role@ == "developer"@ || m.role@ == "user"@
                    || m.role@ == "assistant"@
                &&& m.content is Some && m.content->0 is Parts ==> forall|p: int|
                    0 <= p < m.content->0->Parts_0@.len() ==> (
                    #[trigger] m.content->0->Parts_0@[p]).part_type@ == "text"@
            },
    ensures
        messages_problem(messages, i) is None,
    decreases messages.len() - i,
{
    if i < messages.len() {
        let m = messages[i];
        if m.content is Some && m.content->0 is Parts {
            lemma_no_odd_part(m.content->0->Parts_0@, 0);
        }
        lemma_no_problem(messages, i + 1);
    }
}

/// A message of another role, or with a part that is no text, is refused, and the
/// chat with it.
pub proof fn law_strange_messages_are_refused(m: RequestMessage, k: int)
    ensures
        m.role@ != "system"@ && m.role@ != "developer"@ && m.role@ != "user"@ && m.role@
            != "assistant"@ ==> message_problem(m) is Some,
        m.content is Some && m.content->0 is Parts && 0 <= k < m.content->0->Parts_0@.len()
            && m.content->0->Parts_0@[k].part_type@ != "text"@ ==> message_problem(m) is Some,
{
    if m.content is Some && m.content->0 is Parts && 0 <= k < m.content->0->Parts_0@.len()
        && m.content->0->Parts_0@[k].part_type@ != "text"@ {
        lemma_odd_part(m.content->0->Parts_0@, 0, k);
    }
}

proof fn lemma_odd_part(parts: Seq<ContentPart>, i: int, k: int)
    requires
        0 <= i <= k < parts.len(),
        parts[k].part_type@ != "text"@,
    ensures
        odd_part(parts, i) is Some,
    decreases parts.len() - i,
{
    if i < k {
        lemma_odd_part(parts, i + 1, k);
    }
}

/// The cap that the client sets is the cap; the newer of the two fields counts where
/// both are set.
pub proof fn law_newer_cap_counts(request: ChatCompletionRequest, v: ValidatedChat)
    requires
        request.accepts(v),
    ensures
        request.max_completion_tokens is Some ==> v.max_tokens == request.max_completion_tokens,
        request.max_completion_tokens is None ==> v.max_tokens == request.max_tokens,
        v.max_tokens != Some(0u32),
{
}

/// A client's cap is kept; without one a chat may fill its context, and no more than
/// that, or 1024 tokens where the context is not known.
pub proof fn law_chats_fill_their_context(
    asked: Option<u32>,
    prompt_tokens: u32,
    max_context_len: u32,
)
    requires
        !prompt::overflows(prompt_tokens, max_context_len),
    ensures
        asked is Some ==> chat_cap(asked, prompt_tokens, max_context_len) == asked->0,
        asked is None && max_context_len > 0 ==> prompt_tokens + chat_cap(
            asked,
            prompt_tokens,
            max_context_len,
        ) == max_context_len && chat_cap(asked, prompt_tokens, max_context_len) > 0,
        asked is None && max_context_len == 0 ==> chat_cap(asked, prompt_tokens, max_context_len)
            == 1024,
{
}

/// A text completion's own cap is kept, and it is 16 tokens without one.
pub proof fn law_completions_default_to_sixteen_tokens(asked: Option<u32>)
    ensures
        asked is Some ==> completion_cap(asked) == asked->0,
        asked is None ==> completion_cap(asked) == 16,
{
}

/// A text completion is accepted with exactly one prompt, which is not empty and is
/// what the worker gets, and without what cannot be served.
pub proof fn law_completions_keep_their_prompt(
    request: CompletionRequest,
    v: ValidatedCompletion,
)
    requires
        request.accepts(v),
    ensures
        v.prompt@.len() > 0,
        match request.prompt {
            Some(PromptSpec::Text(t)) => v.prompt@ == t@,
            Some(PromptSpec::Many(list)) => list@.len() == 1 && v.prompt@ == list@[0]@,
            _ => false,
        },
        request.n is None || request.n->0 == 1,
        request.best_of is None || request.best_of->0 == 1,
        request.logprobs is None,
        !request.echo,
        request.suffix is None,
        request.stream_options is None || request.stream,
        v.max_tokens == request.max_tokens,
        request.max_tokens != Some(0u32),
{
}

/// A text completion without such a flaw is accepted.
pub proof fn law_sound_completions_are_accepted(request: CompletionRequest)
    requires
        match request.prompt {
            Some(PromptSpec::Text(t)) => t@.len() > 0,
            Some(PromptSpec::Many(list)) => list@.len() == 1 && list@[0]@.len() > 0,
            _ => false,
        },
        request.n is None || request.n->0 == 1,
        request.best_of is None || request.best_of->0 == 1,
        request.logprobs is None,
        !request.echo,
        request.suffix is None,
        request.stream_options is None || request.stream,
        request.max_tokens != Some(0u32),
        sampling_problem(
            request.temperature,
            request.top_p,
            request.presence_penalty,
            request.frequency_penalty,
            request.seed,
            request.stop,
        ) is None,
    ensures
        request.problem() is None,
{
}
/// The keys of a response are told apart.
proof fn lemma_response_keys()
    ensures
        "id"@ != "object"@,
        "id"@ != "created"@,
        "id"@ != "model"@,
        "id"@ != "choices"@,
        "id"@ != "usage"@,
        "id"@ != "owned_by"@,
        "object"@ != "created"@,
        "object"@ != "model"@,
        "object"@ != "choices"@,
        "object"@ != "usage"@,
        "object"@ != "owned_by"@,
        "created"@ != "model"@,
        "created"@ != "choices"@,
        "created"@ != "usage"@,
        "created"@ != "owned_by"@,
        "model"@ != "choices"@,
        "model"@ != "usage"@,
        "model"@ != "owned_by"@,
        "choices"@ != "usage"@,
        "choices"@ != "owned_by"@,
        "usage"@ != "owned_by"@,
{
    reveal_strlit("id");
    reveal_strlit("object");
    reveal_strlit("created");
    reveal_strlit("model");
    reveal_strlit("choices");
    reveal_strlit("usage");
    reveal_strlit("owned_by");
    assert("id"@.len() != "object"@.len());
    assert("id"@.len() != "created"@.len());
    assert("id"@.len() != "model"@.len());
    assert("id"@.len() != "choices"@.len());
    assert("id"@.len() != "usage"@.len());
    assert("id"@.len() != "owned_by"@.len());
    assert("object"@.len() != "created"@.len());
    assert("object"@.len() != "model"@.len());
    assert("object"@.len() != "choices"@.len());
    assert("object"@.len() != "usage"@.len());
    assert("object"@.len() != "owned_by"@.len());
    assert("created"@.len() != "model"@.len());
    assert("created"@[1] != "choices"@[1]);
    assert("created"@.len() != "usage"@.len());
    assert("created"@.len() != "owned_by"@.len());
    assert("model"@.len() != "choices"@.len());
    assert("model"@[0] != "usage"@[0]);
    assert("model"@.len() != "owned_by"@.len());
    assert("choices"@.len() != "usage"@.len());
    assert("choices"@.len() != "owned_by"@.len());
    assert("usage"@.len() != "owned_by"@.len());
}

/// The keys of a choice are told apart.
proof fn lemma_choice_keys()
    ensures
        "index"@ != "message"@,
        "index"@ != "logprobs"@,
        "index"@ != "finish_reason"@,
        "index"@ != "delta"@,
        "index"@ != "text"@,
        "message"@ != "logprobs"@,
        "message"@ != "finish_reason"@,
        "message"@ != "delta"@,
        "message"@ != "text"@,
        "logprobs"@ != "finish_reason"@,
        "logprobs"@ != "delta"@,
        "logprobs"@ != "text"@,
        "finish_reason"@ != "delta"@,
        "finish_reason"@ != "text"@,
        "delta"@ != "text"@,
{
    reveal_strlit("index");
    reveal_strlit("message");
    reveal_strlit("logprobs");
    reveal_strlit("finish_reason");
    reveal_strlit("delta");
    reveal_strlit("text");
    assert("index"@.len() != "message"@.len());
    assert("index"@.len() != "logprobs"@.len());
    assert("index"@.len() != "finish_reason"@.len());
    assert("index"@[0] != "delta"@[0]);
    assert("index"@.len() != "text"@.len());
    assert("message"@.len() != "logprobs"@.len());
    assert("message"@.len() != "finish_reason"@.len());
    assert("message"@.len() != "delta"@.len());
    assert("message"@.len() != "text"@.len());
    assert("logprobs"@.len() != "finish_reason"@.len());
    assert("logprobs"@.len() != "delta"@.len());
    assert("logprobs"@.len() != "text"@.len());
    assert("finish_reason"@.len() != "delta"@.len());
    assert("finish_reason"@.len() != "text"@.len());
    assert("delta"@.len() != "text"@.len());
}

/// The keys of a message are told apart.
proof fn lemma_message_keys()
    ensures
        "role"@ != "content"@,
        "role"@ != "tool_calls"@,
        "content"@ != "tool_calls"@,
{
    reveal_strlit("role");
    reveal_strlit("content");
    reveal_strlit("tool_calls");
    assert("role"@.len() != "content"@.len());
    assert("role"@.len() != "tool_calls"@.len());
    assert("content"@.len() != "tool_calls"@.len());
}

/// The keys of a call are told apart.
proof fn lemma_call_keys()
    ensures
        "index"@ != "id"@,
        "index"@ != "type"@,
        "index"@ != "function"@,
        "index"@ != "name"@,
        "index"@ != "arguments"@,
        "id"@ != "type"@,
        "id"@ != "function"@,
        "id"@ != "name"@,
        "id"@ != "arguments"@,
        "type"@ != "function"@,
        "type"@ != "name"@,
        "type"@ != "arguments"@,
        "function"@ != "name"@,
        "function"@ != "arguments"@,
        "name"@ != "arguments"@,
{
    reveal_strlit("index");
    reveal_strlit("id");
    reveal_strlit("type");
    reveal_strlit("function");
    reveal_strlit("name");
    reveal_strlit("arguments");
    assert("index"@.len() != "id"@.len());
    assert("index"@.len() != "type"@.len());
    assert("index"@.len() != "function"@.len());
    assert("index"@.len() != "name"@.len());
    assert("index"@.len() != "arguments"@.len());
    assert("id"@.len() != "type"@.len());
    assert("id"@.len() != "function"@.len());
    assert("id"@.len() != "name"@.len());
    assert("id"@.len() != "arguments"@.len());
    assert("type"@.len() != "function"@.len());
    assert("type"@[0] != "name"@[0]);
    assert("type"@.len() != "arguments"@.len());
    assert("function"@.len() != "name"@.len());
    assert("function"@.len() != "arguments"@.len());
    assert("name"@.len() != "arguments"@.len());
}

/// The keys of the usage are told apart.
proof fn lemma_usage_keys()
    ensures
        "prompt_tokens"@ != "completion_tokens"@,
        "prompt_tokens"@ != "total_tokens"@,
        "completion_tokens"@ != "total_tokens"@,
{
    reveal_strlit("prompt_tokens");
    reveal_strlit("completion_tokens");
    reveal_strlit("total_tokens");
    assert("prompt_tokens"@.len() != "completion_tokens"@.len());
    assert("prompt_tokens"@.len() != "total_tokens"@.len());
    assert("completion_tokens"@.len() != "total_tokens"@.len());
}


/// A response says how many tokens the prompt took, how many were generated, and both
/// together, each under its own name.
pub proof fn law_usage_is_reported_under_its_names(usage: Usage)
    ensures
        json::u64_field(usage.spec_json(), "prompt_tokens"@) == Some(usage.prompt_tokens as u64),
        json::u64_field(usage.spec_json(), "completion_tokens"@) == Some(
            usage.completion_tokens as u64,
        ),
        json::u64_field(usage.spec_json(), "total_tokens"@) == Some(usage.total_tokens as u64),
{
    lemma_usage_keys();
}

/// A call in a response names the function and carries the arguments as they were
/// generated, under the call's id.
pub proof fn law_calls_are_reported_whole(call: ResponseToolCall)
    ensures
        json::str_field(call.spec_json(), "id"@) == Some(call.id@),
        json::str_field(call.spec_json(), "type"@) == Some("function"@),
        json::field(call.spec_json(), "function"@) is Some,
        json::str_field(json::field(call.spec_json(), "function"@)->0, "name"@) == Some(
            call.name@,
        ),
        json::str_field(json::field(call.spec_json(), "function"@)->0, "arguments"@) == Some(
            call.arguments@,
        ),
{
    lemma_call_keys();
}

/// A message in a response carries its role, what was said, null where nothing was,
/// and its calls, in order, where it makes any.
pub proof fn law_messages_are_reported_whole(message: AssistantMessage, i: int)
    ensures
        json::str_field(message.spec_json(), "role"@) == Some(message.role@),
        message.content is Some ==> json::str_field(message.spec_json(), "content"@) == Some(
            message.content->0@,
        ),
        message.content is None ==> json::field(message.spec_json(), "content"@) == Some(
            JsonView::Null,
        ),
        message.tool_calls is None ==> json::field(message.spec_json(), "tool_calls"@) is None,
        message.tool_calls is Some && 0 <= i < message.tool_calls->0@.len() ==> {
            let calls = json::field(message.spec_json(), "tool_calls"@);
            &&& calls is Some && calls->0 is Array
            &&& calls->0->Array_0.len() == message.tool_calls->0@.len()
            &&& calls->0->Array_0[i] == message.tool_calls->0@[i].spec_json()
        },
{
    lemma_message_keys();
}

/// A chat's response carries its id, kind, time and model, its choices in order, each
/// with its message and why it ended, and the usage.
pub proof fn law_chat_responses_are_whole(c: ChatCompletion, i: int)
    requires
        0 <= i < c.choices@.len(),
    ensures
        json::str_field(c.spec_json(), "id"@) == Some(c.id@),
        json::str_field(c.spec_json(), "object"@) == Some(c.object@),
        json::u64_field(c.spec_json(), "created"@) == Some(c.created),
        json::str_field(c.spec_json(), "model"@) == Some(c.model@),
        json::field(c.spec_json(), "usage"@) == Some(c.usage.spec_json()),
        ({
            let choices = json::field(c.spec_json(), "choices"@);
            let choice = choices->0->Array_0[i];
            &&& choices is Some && choices->0 is Array
            &&& choices->0->Array_0.len() == c.choices@.len()
            &&& json::u64_field(choice, "index"@) == Some(c.choices@[i].index as u64)
            &&& json::field(choice, "message"@) == Some(c.choices@[i].message.spec_json())
            &&& json::str_field(choice, "finish_reason"@) == Some(c.choices@[i].finish_reason@)
            &&& json::field(choice, "logprobs"@) == Some(JsonView::Null)
        }),
{
    lemma_response_keys();
    lemma_choice_keys();
}

/// A piece of a call in a stream carries its place and its argument text, and, where
/// it starts the call, the call's id, kind and name.
pub proof fn law_call_pieces_are_whole(call: DeltaToolCall)
    ensures
        json::u64_field(call.spec_json(), "index"@) == Some(call.index),
        call.id is Some ==> json::str_field(call.spec_json(), "id"@) == Some(call.id->0@),
        call.id is None ==> json::field(call.spec_json(), "id"@) is None,
        call.call_type is Some ==> json::str_field(call.spec_json(), "type"@) == Some(
            call.call_type->0@,
        ),
        call.call_type is None ==> json::field(call.spec_json(), "type"@) is None,
        json::field(call.spec_json(), "function"@) is Some,
        json::str_field(json::field(call.spec_json(), "function"@)->0, "arguments"@) == Some(
            call.arguments@,
        ),
        json::str_field(json::field(call.spec_json(), "function"@)->0, "name"@) == text::opt_view(
            call.name,
        ),
{
    lemma_call_keys();
}

/// A delta carries its role, its text and its calls where it has them, and leaves out
/// what it does not have.
pub proof fn law_deltas_are_whole(delta: Delta, i: int)
    ensures
        delta.role is Some ==> json::str_field(delta.spec_json(), "role"@) == Some(delta.role->0@),
        delta.role is None ==> json::field(delta.spec_json(), "role"@) is None,
        delta.content is Some ==> json::str_field(delta.spec_json(), "content"@) == Some(
            delta.content->0@,
        ),
        delta.content is None ==> json::field(delta.spec_json(), "content"@) is None,
        delta.tool_calls is None ==> json::field(delta.spec_json(), "tool_calls"@) is None,
        delta.tool_calls is Some && 0 <= i < delta.tool_calls->0@.len() ==> {
            let calls = json::field(delta.spec_json(), "tool_calls"@);
            &&& calls is Some && calls->0 is Array
            &&& calls->0->Array_0.len() == delta.tool_calls->0@.len()
            &&& calls->0->Array_0[i] == delta.tool_calls->0@[i].spec_json()
        },
{
    lemma_message_keys();
}

/// A chunk of a chat's stream carries its id, kind, time and model, and its choices in
/// order, each with its delta and, at the end, why it ended; the usage is there as the
/// client asked for it.
pub proof fn law_chunks_are_whole(c: ChatCompletionChunk, i: int)
    ensures
        json::str_field(c.spec_json(), "id"@) == Some(c.id@),
        json::str_field(c.spec_json(), "object"@) == Some(c.object@),
        json::u64_field(c.spec_json(), "created"@) == Some(c.created),
        json::str_field(c.spec_json(), "model"@) == Some(c.model@),
        c.usage is None ==> json::field(c.spec_json(), "usage"@) is None,
        c.usage is Some && c.usage->0 is None ==> json::field(c.spec_json(), "usage"@) == Some(
            JsonView::Null,
        ),
        c.usage is Some && c.usage->0 is Some ==> json::field(c.spec_json(), "usage"@) == Some(
            c.usage->0->0.spec_json(),
        ),
        json::field(c.spec_json(), "choices"@) is Some,
        json::field(c.spec_json(), "choices"@)->0 is Array,
        json::field(c.spec_json(), "choices"@)->0->Array_0.len() == c.choices@.len(),
        0 <= i < c.choices@.len() ==> {
            let choice = json::field(c.spec_json(), "choices"@)->0->Array_0[i];
            &&& json::u64_field(choice, "index"@) == Some(c.choices@[i].index as u64)
            &&& json::field(choice, "delta"@) == Some(c.choices@[i].delta.spec_json())
            &&& c.choices@[i].finish_reason is Some ==> json::str_field(choice, "finish_reason"@)
                == Some(c.choices@[i].finish_reason->0@)
            &&& c.choices@[i].finish_reason is None ==> json::field(choice, "finish_reason"@)
                == Some(JsonView::Null)
        },
{
    lemma_response_keys();
    lemma_choice_keys();
}

/// A text completion, or a chunk of one, carries its id, kind, time and model, and its
/// choices in order, each with its text and, at the end, why it ended.
pub proof fn law_text_completions_are_whole(c: TextCompletion, i: int)
    ensures
        json::str_field(c.spec_json(), "id"@) == Some(c.id@),
        json::str_field(c.spec_json(), "object"@) == Some(c.object@),
        json::u64_field(c.spec_json(), "created"@) == Some(c.created),
        json::str_field(c.spec_json(), "model"@) == Some(c.model@),
        c.usage is None ==> json::field(c.spec_json(), "usage"@) is None,
        c.usage is Some && c.usage->0 is None ==> json::field(c.spec_json(), "usage"@) == Some(
            JsonView::Null,
        ),
        c.usage is Some && c.usage->0 is Some ==> json::field(c.spec_json(), "usage"@) == Some(
            c.usage->0->0.spec_json(),
        ),
        json::field(c.spec_json(), "choices"@) is Some,
        json::field(c.spec_json(), "choices"@)->0 is Array,
        json::field(c.spec_json(), "choices"@)->0->Array_0.len() == c.choices@.len(),
        0 <= i < c.choices@.len() ==> {
            let choice = json::field(c.spec_json(), "choices"@)->0->Array_0[i];
            &&& json::u64_field(choice, "index"@) == Some(c.choices@[i].index as u64)
            &&& json::str_field(choice, "text"@) == Some(c.choices@[i].text@)
            &&& c.choices@[i].finish_reason is Some ==> json::str_field(choice, "finish_reason"@)
                == Some(c.choices@[i].finish_reason->0@)
            &&& c.choices@[i].finish_reason is None ==> json::field(choice, "finish_reason"@)
                == Some(JsonView::Null)
        },
{
    lemma_response_keys();
    lemma_choice_keys();
}

/// A listed model carries its id, kind, time and owner.
pub proof fn law_model_objects_are_whole(m: ModelObject)
    ensures
        json::str_field(m.spec_json(), "id"@) == Some(m.id@),
        json::str_field(m.spec_json(), "object"@) == Some(m.object@),
        json::u64_field(m.spec_json(), "created"@) == Some(m.created),
        json::str_field(m.spec_json(), "owned_by"@) == Some(m.owned_by@),
{
    lemma_response_keys();
}

/// A chat is sound where each of its parts is, and only there.
pub proof fn law_chats_are_judged_part_by_part(r: ChatCompletionRequest)
    ensures
        r.problem() is None <==> {
            &&& r.messages@.len() > 0
            &&& r.n is None || r.n->0 == 1
            &&& !r.logprobs && r.top_logprobs is None
            &&& r.tools is None && r.tool_choice is None
            &&& r.response_format is None || r.response_format->0.format_type@ == "text"@
            &&& r.stream_options is None || r.stream
            &&& sampling_problem(
                r.temperature,
                r.top_p,
                r.presence_penalty,
                r.frequency_penalty,
                r.seed,
                r.stop,
            ) is None
            &&& (if r.max_completion_tokens is Some {
                r.max_completion_tokens
            } else {
                r.max_tokens
            }) != Some(0u32)
            &&& messages_problem(r.messages@, 0) is None
        },
{
}

/// The first fault of a chat is told in its own words.
pub proof fn law_faults_of_chats_are_told(r: ChatCompletionRequest)
    ensures
        ({
            let a = r.messages@.len() > 0;
            let b = a && (r.n is None || r.n->0 == 1);
            let c = b && !r.logprobs && r.top_logprobs is None;
            let d = c && r.tools is None && r.tool_choice is None;
            let e = d && (r.response_format is None || r.response_format->0.format_type@
                == "text"@);
            let f = e && (r.stream_options is None || r.stream);
            let sampling = sampling_problem(
                r.temperature,
                r.top_p,
                r.presence_penalty,
                r.frequency_penalty,
                r.seed,
                r.stop,
            );
            let g = f && sampling is None;
            let h = g && r.asked_max() != Some(0u32);
            &&& !a ==> r.problem() == Some("'messages' must be a non-empty array"@)
            &&& a && !b ==> r.problem() == Some("'n' > 1 is not supported"@)
            &&& b && !c ==> r.problem() == Some(
                "'logprobs' is not supported by this model's worker"@,
            )
            &&& c && !d ==> r.problem() == Some("tool calling is not supported yet (Kiln Phase 7)"@)
            &&& d && !e ==> r.problem() == Some(
                "'response_format' other than 'text' is not supported yet (Kiln Phase 7)"@,
            )
            &&& e && !f ==> r.problem() == Some("'stream_options' requires 'stream': true"@)
            &&& f && !g ==> r.problem() == sampling
            &&& g && !h ==> r.problem() == Some("'max_completion_tokens' must be >= 1"@)
            &&& h ==> r.problem() == messages_problem(r.messages@, 0)
        }),
{
}

/// The first fault of the sampling parameters is told in its own words.
pub proof fn law_faults_of_sampling_are_told(
    temperature: Option<Single>,
    top_p: Option<Single>,
    presence_penalty: Option<Single>,
    frequency_penalty: Option<Single>,
    seed: Option<i64>,
    stop: Option<StopSpec>,
)
    ensures
        ({
            let told = sampling_problem(
                temperature,
                top_p,
                presence_penalty,
                frequency_penalty,
                seed,
                stop,
            );
            let a = prompt::or_one(temperature).in_0_to_2();
            let b = a && prompt::or_one(top_p).in_0_to_1();
            let c = b && prompt::or_zero(presence_penalty).in_minus_2_to_2() && prompt::or_zero(
                frequency_penalty,
            ).in_minus_2_to_2();
            let d = c && (seed is None || seed->0 >= 0);
            let e = d && match stop {
                Some(StopSpec::Many(list)) => list@.len() <= 4,
                _ => true,
            };
            &&& !a ==> told == Some("'temperature' must be in [0, 2]"@)
            &&& a && !b ==> told == Some("'top_p' must be in (0, 1]"@)
            &&& b && !c ==> told == Some(
                "'presence_penalty' and 'frequency_penalty' must be in [-2, 2]"@,
            )
            &&& c && !d ==> told == Some("'seed' must be non-negative"@)
            &&& d && !e ==> told == Some("'stop' supports at most 4 sequences"@)
            &&& e ==> told is None
        }),
{
}

/// The first message with a fault is the one that is told, by its role or by the part that is no
/// text.
pub proof fn law_the_first_faulty_message_is_told(
    messages: Seq<RequestMessage>,
    i: int,
    j: int,
)
    requires
        0 <= i <= j <= messages.len(),
        forall|k: int| i <= k < j ==> message_problem(#[trigger] messages[k]) is None,
    ensures
        j == messages.len() ==> messages_problem(messages, i) is None,
        j < messages.len() && message_problem(messages[j]) is Some ==> messages_problem(messages, i)
            == message_problem(messages[j]),
    decreases j - i,
{
    if i < j {
        assert(message_problem(messages[i]) is None);
        law_the_first_faulty_message_is_told(messages, i + 1, j);
    }
}

/// The first part that is no text is the one that is told.
pub proof fn law_the_first_odd_part_is_told(parts: Seq<ContentPart>, i: int, j: int)
    requires
        0 <= i <= j <= parts.len(),
        forall|k: int| i <= k < j ==> (#[trigger] parts[k]).part_type@ == "text"@,
    ensures
        j == parts.len() ==> odd_part(parts, i) is None,
        j < parts.len() && parts[j].part_type@ != "text"@ ==> odd_part(parts, i) == Some(
            parts[j].part_type@,
        ),
    decreases j - i,
{
    if i < j {
        assert(parts[i].part_type@ == "text"@);
        law_the_first_odd_part_is_told(parts, i + 1, j);
    }
}

/// A message of an unknown role, and a part of an unknown kind, are told by name.
pub proof fn law_faults_of_messages_are_told(m: RequestMessage, parts: Vec<ContentPart>)
    ensures
        role_of(m.role@) is None ==> message_problem(m) == Some(
            "unsupported message role '"@ + m.role@
                + "' (tool messages arrive with Kiln Phase 7)"@,
        ),
        role_of(m.role@) is Some && m.content == Some(MessageContent::Parts(parts)) && odd_part(
            parts@,
            0,
        ) is Some ==> message_problem(m) == Some(
            "unsupported content part type '"@ + odd_part(parts@, 0)->0 + "'"@,
        ),
        role_of(m.role@) is Some && m.content == Some(MessageContent::Parts(parts)) && odd_part(
            parts@,
            0,
        ) is None ==> message_problem(m) is None,
        role_of(m.role@) is Some && (m.content is None || m.content->0 is Text) ==> message_problem(
            m,
        ) is None,
        role_of("developer"@) == Some("system"@),
        role_of("system"@) == Some("system"@),
        role_of("user"@) == Some("user"@),
        role_of("assistant"@) == Some("assistant"@),
{
    reveal_strlit("developer");
    reveal_strlit("system");
    reveal_strlit("user");
    reveal_strlit("assistant");
    assert("developer"@.len() == 9 && "system"@.len() == 6 && "user"@.len() == 4);
    assert("assistant"@[0] != "developer"@[0]);
}

/// A completion is sound where each of its parts is, and its first fault is told in its own
/// words.
pub proof fn law_faults_of_completions_are_told(r: CompletionRequest)
    ensures
        ({
            let p = prompt_text(r.prompt);
            let a = p is Ok && p->Ok_0.len() > 0;
            let b = a && (r.n is None || r.n->0 == 1);
            let c = b && (r.best_of is None || r.best_of->0 == 1);
            let d = c && r.logprobs is None;
            let e = d && !r.echo;
            let f = e && r.suffix is None;
            let g = f && (r.stream_options is None || r.stream);
            let h = g && r.max_tokens != Some(0u32);
            &&& p is Err ==> r.problem() == Some(p->Err_0)
            &&& p is Ok && !a ==> r.problem() == Some("'prompt' must be non-empty"@)
            &&& a && !b ==> r.problem() == Some("'n' > 1 is not supported"@)
            &&& b && !c ==> r.problem() == Some("'best_of' > 1 is not supported"@)
            &&& c && !d ==> r.problem() == Some(
                "'logprobs' is not supported by this model's worker"@,
            )
            &&& d && !e ==> r.problem() == Some("'echo' is not supported"@)
            &&& e && !f ==> r.problem() == Some("'suffix' is not supported"@)
            &&& f && !g ==> r.problem() == Some("'stream_options' requires 'stream': true"@)
            &&& g && !h ==> r.problem() == Some("'max_tokens' must be >= 1"@)
            &&& h ==> r.problem() == sampling_problem(
                r.temperature,
                r.top_p,
                r.presence_penalty,
                r.frequency_penalty,
                r.seed,
                r.stop,
            )
        }),
{
}

/// A prompt is one string: it is required, a list must hold exactly one, and token ids are
/// refused.
pub proof fn law_prompts_are_one_string(t: String, list: Vec<String>)
    ensures
        prompt_text(None) == Err::<Seq<char>, Seq<char>>("'prompt' is required"@),
        prompt_text(Some(PromptSpec::Text(t))) == Ok::<Seq<char>, Seq<char>>(t@),
        list@.len() == 1 ==> prompt_text(Some(PromptSpec::Many(list))) == Ok::<
            Seq<char>,
            Seq<char>,
        >(list@[0]@),
        list@.len() != 1 ==> prompt_text(Some(PromptSpec::Many(list))) == Err::<
            Seq<char>,
            Seq<char>,
        >("'prompt' arrays must contain exactly one string"@),
        forall|p: PromptSpec|
            p is Tokens || p is ManyTokens ==> #[trigger] prompt_text(Some(p)) == Err::<
                Seq<char>,
                Seq<char>,
            >("token-id prompts are not supported; send a string"@),
{
}

} // verus!
