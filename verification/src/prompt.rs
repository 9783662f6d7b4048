//! What both chat adapters turn a request into: template-ready messages and
//! the worker's sampling parameters.

use crate::float::Single;
use crate::json;
use crate::json::JsonView;
use serde_json::Value;
use vstd::prelude::*;
use vstd::string::*;

verus! {

/// A tool call in the history.
#[derive(Debug)]
pub struct MessageToolCall {
    pub name: String,
    pub arguments: Value,
}

/// One message of the conversation, as chat templates render it.
#[derive(Debug)]
pub struct ChatMessage {
    pub role: String,
    pub content: String,
    pub tool_calls: Option<Vec<MessageToolCall>>,
}

/// The mathematical value of a [`MessageToolCall`].
#[verifier::ext_equal]
pub struct ToolCallView {
    pub name: Seq<char>,
    pub arguments: JsonView,
}

/// The mathematical value of a [`ChatMessage`].
#[verifier::ext_equal]
pub struct ChatMessageView {
    pub role: Seq<char>,
    pub content: Seq<char>,
    pub tool_calls: Option<Seq<ToolCallView>>,
}

impl View for MessageToolCall {
    type V = ToolCallView;

    open spec fn view(&self) -> ToolCallView {
        ToolCallView { name: self.name@, arguments: json::contents(self.arguments) }
    }
}

/// What a list of calls holds.
pub open spec fn calls_view(calls: Seq<MessageToolCall>) -> Seq<ToolCallView> {
    Seq::new(calls.len(), |i: int| calls[i]@)
}

impl View for ChatMessage {
    type V = ChatMessageView;

    open spec fn view(&self) -> ChatMessageView {
        ChatMessageView {
            role: self.role@,
            content: self.content@,
            tool_calls: match self.tool_calls {
                Some(calls) => Some(calls_view(calls@)),
                None => None,
            },
        }
    }
}

/// What a conversation holds.
pub open spec fn messages_view(messages: Seq<ChatMessage>) -> Seq<ChatMessageView> {
    Seq::new(messages.len(), |i: int| messages[i]@)
}

/// A message without tool calls.
pub open spec fn said(role: Seq<char>, content: Seq<char>) -> ChatMessageView {
    ChatMessageView { role, content, tool_calls: None }
}

impl ChatMessage {
    /// A message without tool calls.
    pub fn text(role: &str, content: String) -> (r: Self)
        ensures
            r@ == said(role@, content@),
    {
        ChatMessage { role: role.to_owned(), content, tool_calls: None }
    }
}

/// The worker's sampling parameters.
#[derive(Debug, Clone, Copy, PartialEq, Eq, Structural)]
pub struct SamplingParams {
    pub temperature: Single,
    pub top_p: Single,
    pub top_k: u32,
    pub min_p: Single,
    pub repetition_penalty: Single,
    pub frequency_penalty: Single,
    pub presence_penalty: Single,
    pub repetition_window: u32,
    /// 0 = the worker chooses.
    pub seed: u64,
    pub logprobs_top_n: u32,
}

/// The bits of 1.0.
pub const ONE: u32 = 0x3f80_0000;

/// A number, or 1.0 where it is absent.
pub open spec fn or_one(x: Option<Single>) -> Single {
    match x {
        Some(x) => x,
        None => Single { bits: ONE },
    }
}

/// A number, or 0.0 where it is absent.
pub open spec fn or_zero(x: Option<Single>) -> Single {
    match x {
        Some(x) => x,
        None => Single { bits: 0 },
    }
}

pub fn or_one_of(x: Option<Single>) -> (r: Single)
    ensures
        r == or_one(x),
{
    match x {
        Some(x) => x,
        None => Single { bits: ONE },
    }
}

pub fn or_zero_of(x: Option<Single>) -> (r: Single)
    ensures
        r == or_zero(x),
{
    match x {
        Some(x) => x,
        None => Single { bits: 0 },
    }
}

/// A prompt that fills or exceeds the known context.
pub open spec fn overflows(prompt_tokens: u32, max_context_len: u32) -> bool {
    max_context_len > 0 && prompt_tokens >= max_context_len
}

/// What such a prompt is answered.
pub open spec fn overflow_message(prompt_tokens: u32, max_context_len: u32) -> Seq<char> {
    "prompt is "@ + crate::text::decimal(prompt_tokens as nat)
        + " tokens but the model's context is "@ + crate::text::decimal(max_context_len as nat)
}

/// The error for a prompt that fills or exceeds the known context.
pub fn overflow_error(prompt_tokens: u32, max_context_len: u32) -> (r: crate::error::ApiError)
    ensures
        r@ == crate::error::context_length_exceeded(
            overflow_message(prompt_tokens, max_context_len),
        ),
{
    let mut m: String = "prompt is ".to_owned();
    crate::text::push_decimal(&mut m, prompt_tokens as u64);
    m.append(" tokens but the model's context is ");
    crate::text::push_decimal(&mut m, max_context_len as u64);
    crate::error::ApiError::context_length_exceeded(m)
}

/// A message says what it is given to say, under the role it is given, and calls
/// nothing.
pub proof fn law_said_is_what_was_said(role: Seq<char>, content: Seq<char>)
    ensures
        said(role, content).role == role,
        said(role, content).content == content,
        said(role, content).tool_calls is None,
{
}

/// The messages of a conversation are looked at one by one, in order.
pub proof fn law_conversations_are_their_messages(messages: Seq<ChatMessage>, i: int)
    requires
        0 <= i < messages.len(),
    ensures
        messages_view(messages).len() == messages.len(),
        messages_view(messages)[i].role == messages[i].role@,
        messages_view(messages)[i].content == messages[i].content@,
        messages_view(messages)[i].tool_calls is Some <==> messages[i].tool_calls is Some,
        messages[i].tool_calls is Some ==> messages_view(messages)[i].tool_calls->0.len()
            == messages[i].tool_calls->0@.len(),
{
}

/// A number that is given stands; one that is not is 1 or 0.
pub proof fn law_given_numbers_stand(x: Single)
    ensures
        or_one(Some(x)) == x,
        or_zero(Some(x)) == x,
        or_one(None).bits == 0x3f80_0000,
        or_zero(None).bits == 0,
{
}

/// A prompt overflows a known context if, and only if, it leaves no room for a single
/// token; the answer names both lengths.
pub proof fn law_prompts_leave_room_for_a_token(prompt_tokens: u32, max_context_len: u32)
    ensures
        max_context_len == 0 ==> !overflows(prompt_tokens, max_context_len),
        max_context_len > 0 ==> (overflows(prompt_tokens, max_context_len) <==> prompt_tokens + 1
            > max_context_len),
        overflow_message(prompt_tokens, max_context_len) == "prompt is "@ + crate::text::decimal(
            prompt_tokens as nat,
        ) + " tokens but the model's context is "@ + crate::text::decimal(max_context_len as nat),
{
}

} // verus!
