//! Anthropic Messages API wire types and validation into the same internal
//! shape the OpenAI adapter uses: a second adapter over the shared chat
//! pipeline, not a parallel serving path. Unsupported features are rejected
//! with clear errors rather than silently dropped.

use crate::error;
use crate::error::ApiError;
use crate::float::Single;
use crate::json;
use crate::json::JsonView;
use crate::openai;
use crate::prompt;
use crate::prompt::ChatMessage;
use crate::prompt::ChatMessageView;
use crate::prompt::MessageToolCall;
use crate::prompt::SamplingParams;
use crate::prompt::ToolCallView;
use crate::text;
use serde_json::Value;
use vstd::prelude::*;
use vstd::string::*;

verus! {

#[derive(Debug)]
pub struct MessagesRequest {
    pub model: String,
    /// Required: there is no server-side default.
    pub max_tokens: Option<u32>,
    pub messages: Vec<RequestMessage>,
    pub system: Option<SystemSpec>,
    pub temperature: Option<Single>,
    pub top_p: Option<Single>,
    pub top_k: Option<i64>,
    pub stop_sequences: Option<Vec<String>>,
    pub stream: bool,
    pub tools: Option<Vec<RequestTool>>,
    pub tool_choice: Option<Value>,
    /// "disabled" renders the template with thinking off; budgets are not
    /// enforceable on open models and are ignored.
    pub thinking: Option<ThinkingSpec>,
    /// Accepted and ignored.
    pub metadata: Option<Value>,
}

#[derive(Debug)]
pub struct RequestMessage {
    pub role: String,
    pub content: MessageContent,
}

#[derive(Debug)]
pub enum MessageContent {
    Text(String),
    Blocks(Vec<RequestContentBlock>),
}

#[derive(Debug)]
pub enum RequestContentBlock {
    Text { text: String },
    /// Assistant history: a prior tool call being replayed.
    ToolUse { id: Option<String>, name: String, input: Value },
    /// User turn: the result of a prior tool call. Templates key results on
    /// position, so the id is unused.
    ToolResult {
        tool_use_id: Option<String>,
        content: Option<ToolResultContent>,
        is_error: bool,
    },
    /// Assistant history: replayed thinking, dropped.
    Thinking { thinking: String },
    RedactedThinking { data: Option<String> },
    Image,
}

#[derive(Debug)]
pub enum ToolResultContent {
    Text(String),
    Blocks(Vec<RequestContentBlock>),
}

#[derive(Debug)]
pub enum SystemSpec {
    Text(String),
    Blocks(Vec<SystemBlock>),
}

#[derive(Debug)]
pub struct SystemBlock {
    pub block_type: String,
    pub text: Option<String>,
}

/// A tool definition. Server tools carry a versioned type and are rejected.
#[derive(Debug)]
pub struct RequestTool {
    pub tool_type: Option<String>,
    pub name: Option<String>,
    pub description: Option<String>,
    pub input_schema: Option<Value>,
}

#[derive(Debug)]
pub struct ThinkingSpec {
    pub thinking_type: String,
    pub budget_tokens: Option<u64>,
}

/// The request after validation.
#[derive(Debug)]
pub struct ValidatedMessages {
    pub messages: Vec<ChatMessage>,
    pub sampling: SamplingParams,
    pub max_tokens: u32,
    pub stop_sequences: Vec<String>,
    /// Tool definitions in the shape chat templates and parsers take.
    pub tools: Vec<Value>,
    /// The client asked for no tool calls at all.
    pub tools_disabled: bool,
    pub stream: bool,
    pub thinking_disabled: bool,
}

fn invalid(message: &str) -> (r: ApiError)
    ensures
        r@ == error::invalid_request(message@),
{
    ApiError::invalid_request(message.to_owned())
}

fn about(before: &str, what: &str, after: &str) -> (r: ApiError)
    ensures
        r@ == error::invalid_request(before@ + what@ + after@),
{
    let mut m: String = before.to_owned();
    m.append(what);
    m.append(after);
    ApiError::invalid_request(m)
}

/// What is wrong with the thinking mode, if anything.
pub open spec fn thinking_problem(thinking: Option<ThinkingSpec>) -> Option<Seq<char>> {
    match thinking {
        None => None,
        Some(spec) => {
            let t = spec.thinking_type@;
            if t == "enabled"@ || t == "adaptive"@ || t == "disabled"@ {
                None
            } else {
                Some(
                    "unsupported 'thinking.type' '"@ + t
                        + "' (expected 'enabled', 'adaptive', or 'disabled')"@,
                )
            }
        },
    }
}

pub open spec fn thinking_off(thinking: Option<ThinkingSpec>) -> bool {
    match thinking {
        None => false,
        Some(spec) => spec.thinking_type@ == "disabled"@,
    }
}

fn check_thinking(thinking: &Option<ThinkingSpec>) -> (r: Result<bool, ApiError>)
    ensures
        match r {
            Ok(off) => thinking_problem(*thinking) is None && off == thinking_off(*thinking),
            Err(e) => thinking_problem(*thinking) is Some && e@ == error::invalid_request(
                thinking_problem(*thinking)->0,
            ),
        },
{
    match thinking {
        None => Ok(false),
        Some(spec) => {
            let t: &str = spec.thinking_type.as_str();
            if text::same(t, "disabled") {
                Ok(true)
            } else if text::same(t, "enabled") || text::same(t, "adaptive") {
                proof {
                    reveal_strlit("enabled");
                    reveal_strlit("adaptive");
                    reveal_strlit("disabled");
                    assert("disabled"@.len() != "enabled"@.len());
                    assert("disabled"@[0] != "adaptive"@[0]);
                }
                Ok(false)
            } else {
                Err(
                    about(
                        "unsupported 'thinking.type' '",
                        t,
                        "' (expected 'enabled', 'adaptive', or 'disabled')",
                    ),
                )
            }
        },
    }
}

/// What is wrong with a tool definition, if anything.
pub open spec fn tool_problem(tool: RequestTool) -> Option<Seq<char>> {
    if tool.tool_type is Some && tool.tool_type->0@ != "custom"@ {
        Some(
            "unsupported tool type '"@ + tool.tool_type->0@
                + "' (only client tools; Anthropic server tools are not available)"@,
        )
    } else if tool.name is None || tool.name->0@.len() == 0 {
        Some("each tool requires a non-empty 'name'"@)
    } else {
        None
    }
}

/// The schema of a tool that declares none.
pub open spec fn open_schema() -> JsonView {
    JsonView::Object(
        map![
            "type"@ => JsonView::Str("object"@),
            "properties"@ => JsonView::Object(Map::empty())
        ],
    )
}

/// The definition in the shape that chat templates render and parsers take
/// hints from.
pub open spec fn tool_json(tool: RequestTool) -> JsonView {
    let a = Map::<Seq<char>, JsonView>::empty().insert("name"@, JsonView::Str(tool.name->0@));
    let b = match tool.description {
        Some(d) => a.insert("description"@, JsonView::Str(d@)),
        None => a,
    };
    let c = b.insert(
        "parameters"@,
        match tool.input_schema {
            Some(schema) => json::contents(schema),
            None => open_schema(),
        },
    );
    JsonView::Object(
        map![
            "type"@ => JsonView::Str("function"@),
            "function"@ => JsonView::Object(c)
        ],
    )
}

fn convert_tool(tool: &RequestTool) -> (r: Result<Value, ApiError>)
    ensures
        match r {
            Ok(v) => tool_problem(*tool) is None && json::contents(v) == tool_json(*tool),
            Err(e) => tool_problem(*tool) is Some && e@ == error::invalid_request(
                tool_problem(*tool)->0,
            ),
        },
{
    if let Some(t) = &tool.tool_type {
        if !text::same(t.as_str(), "custom") {
            return Err(
                about(
                    "unsupported tool type '",
                    t.as_str(),
                    "' (only client tools; Anthropic server tools are not available)",
                ),
            );
        }
    }
    let name: &str = match &tool.name {
        None => return Err(invalid("each tool requires a non-empty 'name'")),
        Some(n) => n.as_str(),
    };
    if name.is_empty() {
        return Err(invalid("each tool requires a non-empty 'name'"));
    }
    let f: Value = json::with(json::object(), "name", json::string(name));
    let f: Value = match &tool.description {
        Some(d) => json::with(f, "description", json::string(d.as_str())),
        None => f,
    };
    let parameters: Value = match &tool.input_schema {
        Some(schema) => json::duplicate(schema),
        None => {
            let o: Value = json::with(json::object(), "type", json::string("object"));
            json::with(o, "properties", json::object())
        },
    };
    let f: Value = json::with(f, "parameters", parameters);
    let o: Value = json::with(json::object(), "type", json::string("function"));
    Ok(json::with(o, "function", f))
}

/// What is wrong with the first bad tool from `i` on.
pub open spec fn tools_problem(tools: Seq<RequestTool>, i: int) -> Option<Seq<char>>
    decreases tools.len() - i,
{
    if i >= tools.len() {
        None
    } else if tool_problem(tools[i]) is Some {
        tool_problem(tools[i])
    } else {
        tools_problem(tools, i + 1)
    }
}

/// The tools of a request.
pub open spec fn tools_of(tools: Option<Vec<RequestTool>>) -> Seq<RequestTool> {
    match tools {
        Some(t) => t@,
        None => Seq::empty(),
    }
}

fn convert_tools(tools: &Vec<RequestTool>) -> (r: Result<Vec<Value>, ApiError>)
    ensures
        match r {
            Ok(out) => tools_problem(tools@, 0) is None && json::list_contents(out@) == Seq::new(
                tools@.len(),
                |i: int| tool_json(tools@[i]),
            ),
            Err(e) => tools_problem(tools@, 0) is Some && e@ == error::invalid_request(
                tools_problem(tools@, 0)->0,
            ),
        },
{
    let mut out: Vec<Value> = Vec::new();
    let mut i: usize = 0;
    while i < tools.len()
        invariant
            i <= tools@.len(),
            tools_problem(tools@, 0) == tools_problem(tools@, i as int),
            out@.len() == i,
            forall|j: int|
                0 <= j < i ==> json::contents(#[trigger] out@[j]) == tool_json(tools@[j]),
        decreases tools@.len() - i,
    {
        match convert_tool(&tools[i]) {
            Ok(v) => out.push(v),
            Err(e) => return Err(e),
        }
        i = i + 1;
    }
    assert(json::list_contents(out@) =~= Seq::new(tools@.len(), |i: int| tool_json(tools@[i])));
    Ok(out)
}

/// The kind of tool choice that was asked for.
pub open spec fn choice_type(choice: JsonView) -> Option<Seq<char>> {
    json::str_field(choice, "type"@)
}

pub open spec fn forbids_parallel(choice: JsonView) -> bool {
    json::field(choice, "disable_parallel_tool_use"@) == Some(JsonView::Bool(true))
}

/// What is wrong with the tool choice, if anything.
pub open spec fn choice_problem(choice: Option<JsonView>) -> Option<Seq<char>> {
    match choice {
        None => None,
        Some(c) => if !(c is Object) {
            Some("'tool_choice' must be an object"@)
        } else if forbids_parallel(c) {
            Some(
                "'tool_choice.disable_parallel_tool_use' is not supported (the gateway cannot bound how many calls a model emits)"@,
            )
        } else {
            match choice_type(c) {
                None => Some("unsupported 'tool_choice' type '"@ + Seq::<char>::empty() + "'"@),
                Some(t) => if t == "auto"@ || t == "none"@ {
                    None
                } else if t == "any"@ || t == "tool"@ {
                    Some(
                        "'tool_choice' type '"@ + t
                            + "' is not supported (forced tool calls need grammar-coupled decoding)"@,
                    )
                } else {
                    Some("unsupported 'tool_choice' type '"@ + t + "'"@)
                },
            }
        },
    }
}

pub open spec fn choice_none(choice: Option<JsonView>) -> bool {
    choice is Some && choice_type(choice->0) == Some("none"@)
}

pub open spec fn opt_contents(v: Option<Value>) -> Option<JsonView> {
    match v {
        Some(v) => Some(json::contents(v)),
        None => None,
    }
}

/// Checks the tool choice; the flag says that tools are off.
fn check_choice(choice: &Option<Value>) -> (r: Result<bool, ApiError>)
    ensures
        match r {
            Ok(off) => choice_problem(opt_contents(*choice)) is None && off == choice_none(
                opt_contents(*choice),
            ),
            Err(e) => choice_problem(opt_contents(*choice)) is Some && e@
                == error::invalid_request(choice_problem(opt_contents(*choice))->0),
        },
{
    match choice {
        None => Ok(false),
        Some(c) => {
            if !c.is_object() {
                return Err(invalid("'tool_choice' must be an object"));
            }
            let serial: bool = match json::get(c, "disable_parallel_tool_use") {
                Some(v) => match v.as_bool() {
                    Some(b) => b,
                    None => false,
                },
                None => false,
            };
            if serial {
                return Err(
                    invalid(
                        "'tool_choice.disable_parallel_tool_use' is not supported (the gateway cannot bound how many calls a model emits)",
                    ),
                );
            }
            match json::get_str(c, "type") {
                None => {
                    proof {
                        reveal_strlit("");
                        assert(""@ =~= Seq::<char>::empty());
                    }
                    Err(about("unsupported 'tool_choice' type '", "", "'"))
                },
                Some(t) => {
                    proof {
                        reveal_strlit("auto");
                        reveal_strlit("none");
                        assert("auto"@[0] != "none"@[0]);
                        assert("auto"@ != "none"@);
                    }
                    if text::same(t, "auto") {
                        Ok(false)
                    } else if text::same(t, "none") {
                        Ok(true)
                    } else if text::same(t, "any") || text::same(t, "tool") {
                        Err(
                            about(
                                "'tool_choice' type '",
                                t,
                                "' is not supported (forced tool calls need grammar-coupled decoding)",
                            ),
                        )
                    } else {
                        Err(about("unsupported 'tool_choice' type '", t, "'"))
                    }
                },
            }
        },
    }
}

/// The first system block, from `i` on, that is no text.
pub open spec fn odd_system_block(blocks: Seq<SystemBlock>, i: int) -> Option<Seq<char>>
    decreases blocks.len() - i,
{
    if i >= blocks.len() {
        None
    } else if blocks[i].block_type@ != "text"@ {
        Some(blocks[i].block_type@)
    } else {
        odd_system_block(blocks, i + 1)
    }
}

/// The texts of the system blocks, one behind the other.
pub open spec fn system_blocks_text(blocks: Seq<SystemBlock>) -> Seq<char>
    decreases blocks.len(),
{
    if blocks.len() == 0 {
        Seq::empty()
    } else {
        system_blocks_text(blocks.drop_last()) + openai::or_empty(blocks.last().text)
    }
}

/// What is wrong with the system prompt, if anything.
pub open spec fn system_problem(system: SystemSpec) -> Option<Seq<char>> {
    match system {
        SystemSpec::Text(_) => None,
        SystemSpec::Blocks(blocks) => match odd_system_block(blocks@, 0) {
            Some(t) => Some("unsupported 'system' block type '"@ + t + "' (only 'text')"@),
            None => None,
        },
    }
}

/// What the system prompt says.
pub open spec fn system_says(system: SystemSpec) -> Seq<char> {
    match system {
        SystemSpec::Text(t) => t@,
        SystemSpec::Blocks(blocks) => system_blocks_text(blocks@),
    }
}

/// The text of a system prompt, in either form.
pub fn system_text(system: &SystemSpec) -> (r: Result<String, ApiError>)
    ensures
        match r {
            Ok(s) => system_problem(*system) is None && s@ == system_says(*system),
            Err(e) => system_problem(*system) is Some && e@ == error::invalid_request(
                system_problem(*system)->0,
            ),
        },
{
    match system {
        SystemSpec::Text(t) => Ok(t.clone()),
        SystemSpec::Blocks(blocks) => {
            let mut combined: String = String::new();
            let mut i: usize = 0;
            assert(blocks@.take(0) =~= Seq::empty());
            while i < blocks.len()
                invariant
                    i <= blocks@.len(),
                    odd_system_block(blocks@, 0) == odd_system_block(blocks@, i as int),
                    combined@ == system_blocks_text(blocks@.take(i as int)),
                    *system == SystemSpec::Blocks(*blocks),
                decreases blocks@.len() - i,
            {
                let block: &SystemBlock = &blocks[i];
                if !text::same(block.block_type.as_str(), "text") {
                    return Err(
                        about(
                            "unsupported 'system' block type '",
                            block.block_type.as_str(),
                            "' (only 'text')",
                        ),
                    );
                }
                let ghost before = combined@;
                if let Some(t) = &block.text {
                    combined.append(t.as_str());
                }
                assert(combined@ =~= before + openai::or_empty(blocks@[i as int].text));
                assert(blocks@.take(i + 1).drop_last() =~= blocks@.take(i as int));
                i = i + 1;
            }
            assert(blocks@.take(i as int) =~= blocks@);
            Ok(combined)
        },
    }
}

/// Whether every block, from `i` on, is text.
pub open spec fn all_text(blocks: Seq<RequestContentBlock>, i: int) -> bool
    decreases blocks.len() - i,
{
    if i >= blocks.len() {
        true
    } else {
        blocks[i] is Text && all_text(blocks, i + 1)
    }
}

/// The text blocks, one behind the other.
pub open spec fn texts_of(blocks: Seq<RequestContentBlock>) -> Seq<char>
    decreases blocks.len(),
{
    if blocks.len() == 0 {
        Seq::empty()
    } else {
        match blocks.last() {
            RequestContentBlock::Text { text } => texts_of(blocks.drop_last()) + text@,
            _ => texts_of(blocks.drop_last()),
        }
    }
}

/// What is wrong with a tool result, if anything.
pub open spec fn result_problem(content: Option<ToolResultContent>) -> Option<Seq<char>> {
    match content {
        Some(ToolResultContent::Blocks(blocks)) => if all_text(blocks@, 0) {
            None
        } else {
            Some("'tool_result.content' blocks must be 'text'"@)
        },
        _ => None,
    }
}

/// What a tool result says.
pub open spec fn result_says(content: Option<ToolResultContent>) -> Seq<char> {
    match content {
        None => Seq::empty(),
        Some(ToolResultContent::Text(t)) => t@,
        Some(ToolResultContent::Blocks(blocks)) => texts_of(blocks@),
    }
}

fn tool_result_text(content: &Option<ToolResultContent>) -> (r: Result<String, ApiError>)
    ensures
        match r {
            Ok(s) => result_problem(*content) is None && s@ == result_says(*content),
            Err(e) => result_problem(*content) is Some && e@ == error::invalid_request(
                result_problem(*content)->0,
            ),
        },
{
    match content {
        None => Ok(String::new()),
        Some(ToolResultContent::Text(t)) => Ok(t.clone()),
        Some(ToolResultContent::Blocks(blocks)) => {
            let mut combined: String = String::new();
            let mut i: usize = 0;
            assert(blocks@.take(0) =~= Seq::empty());
            while i < blocks.len()
                invariant
                    i <= blocks@.len(),
                    all_text(blocks@, 0) == all_text(blocks@, i as int),
                    combined@ == texts_of(blocks@.take(i as int)),
                    *content == Some(ToolResultContent::Blocks(*blocks)),
                decreases blocks@.len() - i,
            {
                assert(blocks@.take(i + 1).drop_last() =~= blocks@.take(i as int));
                match &blocks[i] {
                    RequestContentBlock::Text { text } => combined.append(text.as_str()),
                    _ => return Err(invalid("'tool_result.content' blocks must be 'text'")),
                }
                i = i + 1;
            }
            assert(blocks@.take(i as int) =~= blocks@);
            Ok(combined)
        },
    }
}

/// What is wrong with a block of a user turn, if anything.
pub open spec fn user_block_problem(block: RequestContentBlock) -> Option<Seq<char>> {
    match block {
        RequestContentBlock::Text { .. } => None,
        RequestContentBlock::ToolResult { content, .. } => result_problem(content),
        RequestContentBlock::Image => Some(
            "image content is not supported (no vision models in v1)"@,
        ),
        RequestContentBlock::ToolUse { .. } => Some(
            "'tool_use' blocks are only valid on assistant messages"@,
        ),
        RequestContentBlock::Thinking { .. } | RequestContentBlock::RedactedThinking {
            ..
        } => Some("thinking blocks are only valid on assistant messages"@),
    }
}

/// What is wrong with a block of an assistant turn, if anything.
pub open spec fn assistant_block_problem(block: RequestContentBlock) -> Option<Seq<char>> {
    match block {
        RequestContentBlock::ToolResult { .. } => Some(
            "'tool_result' blocks are only valid on user messages"@,
        ),
        RequestContentBlock::Image => Some(
            "image content is not supported (no vision models in v1)"@,
        ),
        _ => None,
    }
}

/// What is wrong with the first bad block from `i` on.
pub open spec fn blocks_problem(
    blocks: Seq<RequestContentBlock>,
    assistant: bool,
    i: int,
) -> Option<Seq<char>>
    decreases blocks.len() - i,
{
    if i >= blocks.len() {
        None
    } else {
        let p = if assistant {
            assistant_block_problem(blocks[i])
        } else {
            user_block_problem(blocks[i])
        };
        if p is Some {
            p
        } else {
            blocks_problem(blocks, assistant, i + 1)
        }
    }
}

/// A user turn as far as its blocks were read: what was said before it plus
/// finished messages, and the text that is not a message yet. Text runs
/// become user messages, tool results become tool messages, in order.
pub open spec fn user_turn(said: Seq<ChatMessageView>, blocks: Seq<RequestContentBlock>) -> (
    Seq<ChatMessageView>,
    Seq<char>,
)
    decreases blocks.len(),
{
    if blocks.len() == 0 {
        (said, Seq::empty())
    } else {
        let (out, pending) = user_turn(said, blocks.drop_last());
        match blocks.last() {
            RequestContentBlock::Text { text } => (out, pending + text@),
            RequestContentBlock::ToolResult { content, .. } => (
                (if pending.len() > 0 {
                    out.push(prompt::said("user"@, pending))
                } else {
                    out
                }).push(prompt::said("tool"@, result_says(content))),
                Seq::empty(),
            ),
            _ => (out, pending),
        }
    }
}

/// The conversation with a user message added. A turn of tool results alone
/// adds no empty user message.
pub open spec fn with_user(said: Seq<ChatMessageView>, content: MessageContent) -> Seq<
    ChatMessageView,
> {
    match content {
        MessageContent::Text(t) => said.push(prompt::said("user"@, t@)),
        MessageContent::Blocks(blocks) => {
            let (out, pending) = user_turn(said, blocks@);
            if pending.len() > 0 || out.len() == 0 || out.last().role != "tool"@ {
                out.push(prompt::said("user"@, pending))
            } else {
                out
            }
        },
    }
}

/// The calls that an assistant turn replays.
pub open spec fn calls_of(blocks: Seq<RequestContentBlock>) -> Seq<ToolCallView>
    decreases blocks.len(),
{
    if blocks.len() == 0 {
        Seq::empty()
    } else {
        match blocks.last() {
            RequestContentBlock::ToolUse { name, input, .. } => calls_of(blocks.drop_last()).push(
                ToolCallView { name: name@, arguments: json::contents(input) },
            ),
            _ => calls_of(blocks.drop_last()),
        }
    }
}

/// The message of an assistant turn: its texts and its calls, without
/// replayed thinking.
pub open spec fn assistant_says(content: MessageContent) -> ChatMessageView {
    match content {
        MessageContent::Text(t) => prompt::said("assistant"@, t@),
        MessageContent::Blocks(blocks) => ChatMessageView {
            role: "assistant"@,
            content: texts_of(blocks@),
            tool_calls: if calls_of(blocks@).len() == 0 {
                None
            } else {
                Some(calls_of(blocks@))
            },
        },
    }
}

/// What is wrong with a message, if anything.
pub open spec fn message_problem(m: RequestMessage) -> Option<Seq<char>> {
    if m.role@ == "user"@ || m.role@ == "assistant"@ {
        match m.content {
            MessageContent::Text(_) => None,
            MessageContent::Blocks(blocks) => blocks_problem(
                blocks@,
                m.role@ != "user"@,
                0,
            ),
        }
    } else {
        Some(
            "unsupported message role '"@ + m.role@ + "' (expected 'user' or 'assistant')"@,
        )
    }
}

/// The conversation with a message added.
pub open spec fn with_message(said: Seq<ChatMessageView>, m: RequestMessage) -> Seq<
    ChatMessageView,
> {
    if m.role@ == "user"@ {
        with_user(said, m.content)
    } else {
        said.push(assistant_says(m.content))
    }
}

/// What is wrong with the first bad message from `i` on.
pub open spec fn messages_problem(messages: Seq<RequestMessage>, i: int) -> Option<Seq<char>>
    decreases messages.len() - i,
{
    if i >= messages.len() {
        None
    } else if message_problem(messages[i]) is Some {
        message_problem(messages[i])
    } else {
        messages_problem(messages, i + 1)
    }
}

/// The conversation that the messages make, behind what was said before.
pub open spec fn conversation(said: Seq<ChatMessageView>, messages: Seq<RequestMessage>) -> Seq<
    ChatMessageView,
>
    decreases messages.len(),
{
    if messages.len() == 0 {
        said
    } else {
        with_message(conversation(said, messages.drop_last()), messages.last())
    }
}

fn push_message(out: &mut Vec<ChatMessage>, m: ChatMessage)
    ensures
        prompt::messages_view(final(out)@) == prompt::messages_view(old(out)@).push(m@),
{
    out.push(m);
    assert(prompt::messages_view(out@) =~= prompt::messages_view(old(out)@).push(m@));
}

fn convert_user_message(message: &RequestMessage, out: &mut Vec<ChatMessage>) -> (r: Result<
    (),
    ApiError,
>)
    requires
        message.role@ == "user"@,
    ensures
        match r {
            Ok(()) => message_problem(*message) is None && prompt::messages_view(final(out)@)
                == with_user(prompt::messages_view(old(out)@), message.content),
            Err(e) => message_problem(*message) is Some && e@ == error::invalid_request(
                message_problem(*message)->0,
            ),
        },
{
    let blocks: &Vec<RequestContentBlock> = match &message.content {
        MessageContent::Text(t) => {
            push_message(out, ChatMessage::text("user", t.clone()));
            return Ok(());
        },
        MessageContent::Blocks(blocks) => blocks,
    };
    let ghost start = prompt::messages_view(out@);
    let mut pending: String = String::new();
    let mut i: usize = 0;
    assert(blocks@.take(0) =~= Seq::empty());
    while i < blocks.len()
        invariant
            i <= blocks@.len(),
            message.role@ == "user"@,
            message.content == MessageContent::Blocks(*blocks),
            blocks_problem(blocks@, false, 0) == blocks_problem(blocks@, false, i as int),
            (prompt::messages_view(out@), pending@) == user_turn(start, blocks@.take(i as int)),
        decreases blocks@.len() - i,
    {
        assert(blocks@.take(i + 1).drop_last() =~= blocks@.take(i as int));
        match &blocks[i] {
            RequestContentBlock::Text { text } => pending.append(text.as_str()),
            RequestContentBlock::ToolResult { content, .. } => {
                let result: String = match tool_result_text(content) {
                    Ok(s) => s,
                    Err(e) => return Err(e),
                };
                if !pending.as_str().is_empty() {
                    push_message(out, ChatMessage::text("user", pending));
                    pending = String::new();
                }
                push_message(out, ChatMessage::text("tool", result));
                assert(pending@ =~= Seq::<char>::empty());
            },
            RequestContentBlock::Image => return Err(
                invalid("image content is not supported (no vision models in v1)"),
            ),
            RequestContentBlock::ToolUse { .. } => return Err(
                invalid("'tool_use' blocks are only valid on assistant messages"),
            ),
            RequestContentBlock::Thinking { .. } | RequestContentBlock::RedactedThinking {
                ..
            } => return Err(invalid("thinking blocks are only valid on assistant messages")),
        }
        i = i + 1;
    }
    assert(blocks@.take(i as int) =~= blocks@);
    let n: usize = out.len();
    let after_tool: bool = n > 0 && text::same(out[n - 1].role.as_str(), "tool");
    if !pending.as_str().is_empty() || !after_tool {
        push_message(out, ChatMessage::text("user", pending));
    }
    Ok(())
}

fn convert_assistant_message(message: &RequestMessage) -> (r: Result<ChatMessage, ApiError>)
    requires
        message.role@ == "assistant"@,
    ensures
        match r {
            Ok(m) => message_problem(*message) is None && m@ == assistant_says(message.content)
                && m.role@ == "assistant"@ && (message.content is Text ==> m.content@
                == message.content->Text_0@),
            Err(e) => message_problem(*message) is Some && e@ == error::invalid_request(
                message_problem(*message)->0,
            ),
        },
{
    proof {
        reveal_strlit("user");
        reveal_strlit("assistant");
        assert("user"@.len() == 4);
        assert("assistant"@.len() == 9);
    }
    let blocks: &Vec<RequestContentBlock> = match &message.content {
        MessageContent::Text(t) => return Ok(ChatMessage::text("assistant", t.clone())),
        MessageContent::Blocks(blocks) => blocks,
    };
    let mut content: String = String::new();
    let mut calls: Vec<MessageToolCall> = Vec::new();
    let mut i: usize = 0;
    assert(blocks@.take(0) =~= Seq::empty());
    assert(prompt::calls_view(calls@) =~= Seq::empty());
    while i < blocks.len()
        invariant
            i <= blocks@.len(),
            message.role@ == "assistant"@,
            message.role@ != "user"@,
            message.content == MessageContent::Blocks(*blocks),
            blocks_problem(blocks@, true, 0) == blocks_problem(blocks@, true, i as int),
            content@ == texts_of(blocks@.take(i as int)),
            prompt::calls_view(calls@) == calls_of(blocks@.take(i as int)),
        decreases blocks@.len() - i,
    {
        assert(blocks@.take(i + 1).drop_last() =~= blocks@.take(i as int));
        match &blocks[i] {
            RequestContentBlock::Text { text } => content.append(text.as_str()),
            RequestContentBlock::ToolUse { name, input, .. } => {
                let ghost before = prompt::calls_view(calls@);
                calls.push(
                    MessageToolCall { name: name.clone(), arguments: json::duplicate(input) },
                );
                assert(prompt::calls_view(calls@) =~= before.push(
                    ToolCallView { name: name@, arguments: json::contents(*input) },
                ));
            },
            RequestContentBlock::Thinking { .. } | RequestContentBlock::RedactedThinking {
                ..
            } => {},
            RequestContentBlock::ToolResult { .. } => return Err(
                invalid("'tool_result' blocks are only valid on user messages"),
            ),
            RequestContentBlock::Image => return Err(
                invalid("image content is not supported (no vision models in v1)"),
            ),
        }
        i = i + 1;
    }
    assert(blocks@.take(i as int) =~= blocks@);
    let tool_calls: Option<Vec<MessageToolCall>> = if calls.len() == 0 {
        None
    } else {
        Some(calls)
    };
    Ok(ChatMessage { role: "assistant".to_owned(), content, tool_calls })
}

impl MessagesRequest {
    /// The sampling parameters of the request.
    pub open spec fn sampling(self) -> SamplingParams {
        SamplingParams {
            temperature: prompt::or_one(self.temperature),
            top_p: prompt::or_one(self.top_p),
            top_k: match self.top_k {
                Some(k) => k as u32,
                None => 0,
            },
            min_p: Single { bits: 0 },
            repetition_penalty: Single { bits: 0 },
            frequency_penalty: Single { bits: 0 },
            presence_penalty: Single { bits: 0 },
            repetition_window: 0,
            seed: 0,
            logprobs_top_n: 0,
        }
    }

    /// What was said before the first message: the system prompt, if any.
    pub open spec fn opening(self) -> Seq<ChatMessageView> {
        match self.system {
            Some(system) => seq![prompt::said("system"@, system_says(system))],
            None => Seq::empty(),
        }
    }

    /// What is wrong with the request, if anything.
    pub open spec fn problem(self) -> Option<Seq<char>> {
        let choice = opt_contents(self.tool_choice);
        if self.max_tokens is None {
            Some("'max_tokens' is required"@)
        } else if self.max_tokens == Some(0u32) {
            Some("'max_tokens' must be >= 1"@)
        } else if self.messages@.len() == 0 {
            Some("'messages' must be a non-empty array"@)
        } else if !prompt::or_one(self.temperature).in_0_to_1() {
            Some("'temperature' must be in [0, 1]"@)
        } else if !prompt::or_one(self.top_p).in_0_to_1() {
            Some("'top_p' must be in (0, 1]"@)
        } else if self.top_k is Some && !(0 <= self.top_k->0 <= u32::MAX) {
            Some("'top_k' must be a non-negative integer"@)
        } else if thinking_problem(self.thinking) is Some {
            thinking_problem(self.thinking)
        } else if tools_problem(tools_of(self.tools), 0) is Some {
            tools_problem(tools_of(self.tools), 0)
        } else if choice_problem(choice) is Some {
            choice_problem(choice)
        } else if self.system is Some && system_problem(self.system->0) is Some {
            system_problem(self.system->0)
        } else {
            messages_problem(self.messages@, 0)
        }
    }

    /// The request is sound, and this is what it asks for.
    pub open spec fn accepts(self, v: ValidatedMessages) -> bool {
        &&& self.problem() is None
        &&& prompt::messages_view(v.messages@) == conversation(
            self.opening(),
            self.messages@,
        )
        &&& v.sampling == self.sampling()
        &&& Some(v.max_tokens) == self.max_tokens
        &&& text::list_view(v.stop_sequences@) == (match self.stop_sequences {
            Some(list) => text::list_view(list@),
            None => Seq::empty(),
        })
        &&& v.tools_disabled == choice_none(opt_contents(self.tool_choice))
        &&& json::list_contents(v.tools@) == (if v.tools_disabled {
            Seq::empty()
        } else {
            Seq::new(
                tools_of(self.tools).len(),
                |i: int| tool_json(tools_of(self.tools)[i]),
            )
        })
        &&& v.stream == self.stream
        &&& v.thinking_disabled == thinking_off(self.thinking)
    }

    /// Checks the request; the first problem is reported.
    pub fn validate(&self) -> (r: Result<ValidatedMessages, ApiError>)
        ensures
            match r {
                Err(e) => self.problem() is Some && e@ == error::invalid_request(
                    self.problem()->0,
                ),
                Ok(v) => {
                    &&& self.accepts(v)
                    &&& Some(v.max_tokens) == self.max_tokens
                    &&& self.temperature is Some ==> v.sampling.temperature == self.temperature->0
                    &&& self.top_p is Some ==> v.sampling.top_p == self.top_p->0
                    &&& self.top_k is Some ==> v.sampling.top_k == self.top_k->0
                    &&& v.stream == self.stream
                },
            },
    {
        let max_tokens: u32 = match self.max_tokens {
            None => return Err(invalid("'max_tokens' is required")),
            Some(n) => n,
        };
        if max_tokens == 0 {
            return Err(invalid("'max_tokens' must be >= 1"));
        }
        if self.messages.len() == 0 {
            return Err(invalid("'messages' must be a non-empty array"));
        }
        let temperature: Single = prompt::or_one_of(self.temperature);
        if !temperature.from_0_to_1() {
            return Err(invalid("'temperature' must be in [0, 1]"));
        }
        let top_p: Single = prompt::or_one_of(self.top_p);
        if !top_p.from_0_to_1() {
            return Err(invalid("'top_p' must be in (0, 1]"));
        }
        let top_k: u32 = match self.top_k {
            None => 0,
            Some(k) => if 0 <= k && k <= u32::MAX as i64 {
                k as u32
            } else {
                return Err(invalid("'top_k' must be a non-negative integer"));
            },
        };
        let thinking_disabled: bool = match check_thinking(&self.thinking) {
            Ok(off) => off,
            Err(e) => return Err(e),
        };
        let given: Vec<Value> = match &self.tools {
            None => Vec::new(),
            Some(tools) => match convert_tools(tools) {
                Ok(v) => v,
                Err(e) => return Err(e),
            },
        };
        assert(json::list_contents(given@) =~= Seq::new(
            tools_of(self.tools).len(),
            |i: int| tool_json(tools_of(self.tools)[i]),
        ));
        let tools_disabled: bool = match check_choice(&self.tool_choice) {
            Ok(off) => off,
            Err(e) => return Err(e),
        };
        let tools: Vec<Value> = if tools_disabled {
            Vec::new()
        } else {
            given
        };
        assert(tools_disabled ==> json::list_contents(tools@) =~= Seq::empty());
        let mut messages: Vec<ChatMessage> = Vec::new();
        if let Some(system) = &self.system {
            match system_text(system) {
                Ok(s) => push_message(&mut messages, ChatMessage::text("system", s)),
                Err(e) => return Err(e),
            }
        }
        assert(prompt::messages_view(messages@) =~= self.opening());
        let mut i: usize = 0;
        assert(self.messages@.take(0) =~= Seq::empty());
        while i < self.messages.len()
            invariant
                i <= self.messages@.len(),
                messages_problem(self.messages@, 0) == messages_problem(
                    self.messages@,
                    i as int,
                ),
                prompt::messages_view(messages@) == conversation(
                    self.opening(),
                    self.messages@.take(i as int),
                ),
                self.max_tokens is Some,
                self.max_tokens->0 > 0,
                self.messages@.len() > 0,
                prompt::or_one(self.temperature).in_0_to_1(),
                prompt::or_one(self.top_p).in_0_to_1(),
                !(self.top_k is Some && !(0 <= self.top_k->0 <= u32::MAX)),
                thinking_problem(self.thinking) is None,
                tools_problem(tools_of(self.tools), 0) is None,
                choice_problem(opt_contents(self.tool_choice)) is None,
                self.system is Some ==> system_problem(self.system->0) is None,
            decreases self.messages@.len() - i,
        {
            let message: &RequestMessage = &self.messages[i];
            assert(self.messages@.take(i + 1).drop_last() =~= self.messages@.take(i as int));
            if text::same(message.role.as_str(), "user") {
                match convert_user_message(message, &mut messages) {
                    Ok(()) => {},
                    Err(e) => return Err(e),
                }
            } else if text::same(message.role.as_str(), "assistant") {
                match convert_assistant_message(message) {
                    Ok(m) => push_message(&mut messages, m),
                    Err(e) => return Err(e),
                }
            } else {
                return Err(
                    about(
                        "unsupported message role '",
                        message.role.as_str(),
                        "' (expected 'user' or 'assistant')",
                    ),
                );
            }
            i = i + 1;
        }
        assert(self.messages@.take(i as int) =~= self.messages@);
        let stop_sequences: Vec<String> = match &self.stop_sequences {
            Some(list) => text::clone_list(list),
            None => Vec::new(),
        };
        assert(self.stop_sequences is None ==> text::list_view(stop_sequences@) =~= Seq::empty());
        Ok(
            ValidatedMessages {
                messages,
                sampling: SamplingParams {
                    temperature,
                    top_p,
                    top_k,
                    min_p: Single { bits: 0 },
                    repetition_penalty: Single { bits: 0 },
                    frequency_penalty: Single { bits: 0 },
                    presence_penalty: Single { bits: 0 },
                    repetition_window: 0,
                    seed: 0,
                    logprobs_top_n: 0,
                },
                max_tokens,
                stop_sequences,
                tools,
                tools_disabled,
                stream: self.stream,
                thinking_disabled,
            },
        )
    }
}

impl ValidatedMessages {
    /// Prompt-overflow gate; the client's cap passes through.
    pub fn effective_max_tokens(&self, prompt_tokens: u32, max_context_len: u32) -> (r: Result<
        u32,
        ApiError,
    >)
        ensures
            match r {
                Err(e) => prompt::overflows(prompt_tokens, max_context_len) && e@
                    == error::context_length_exceeded(
                    prompt::overflow_message(prompt_tokens, max_context_len),
                ),
                Ok(n) => !prompt::overflows(prompt_tokens, max_context_len) && n
                    == self.max_tokens,
            },
    {
        if max_context_len > 0 && prompt_tokens >= max_context_len {
            return Err(prompt::overflow_error(prompt_tokens, max_context_len));
        }
        Ok(self.max_tokens)
    }
}

/// A user turn that only returns tool results leaves the last of them last:
/// no empty user message follows.
pub proof fn law_tool_results_need_no_user_message(
    said: Seq<ChatMessageView>,
    blocks: Vec<RequestContentBlock>,
)
    requires
        blocks@.len() > 0,
        blocks@.last() is ToolResult,
    ensures
        with_user(said, MessageContent::Blocks(blocks)).last().role == "tool"@,
{
}

/// Replayed thinking never reaches a template: dropping it from an assistant
/// turn changes nothing.
pub proof fn law_replayed_thinking_is_dropped(
    before: Seq<RequestContentBlock>,
    thinking: RequestContentBlock,
)
    requires
        thinking is Thinking || thinking is RedactedThinking,
    ensures
        texts_of(before.push(thinking)) == texts_of(before),
        calls_of(before.push(thinking)) == calls_of(before),
{
    assert(before.push(thinking).drop_last() =~= before);
}

#[derive(Debug, Clone, Copy, PartialEq, Eq, Structural)]
pub struct Usage {
    pub input_tokens: u32,
    pub output_tokens: u32,
}

/// A response content block; also the payload of a block's start in a stream.
#[derive(Debug)]
pub enum ContentBlock {
    /// The replay signature is always empty: there is nothing to sign.
    Thinking { thinking: String, signature: &'static str },
    Text { text: String },
    ToolUse { id: String, name: String, input: Value },
}

#[derive(Debug)]
pub struct MessagesResponse {
    pub id: String,
    pub response_type: &'static str,
    pub role: &'static str,
    pub model: String,
    pub content: Vec<ContentBlock>,
    /// Null only in the skeleton that starts a stream.
    pub stop_reason: Option<&'static str>,
    pub stop_sequence: Option<String>,
    pub usage: Usage,
}

#[derive(Debug)]
pub struct ContentBlockStartEvent {
    pub index: u64,
    pub content_block: ContentBlock,
}

#[derive(Debug)]
pub struct ContentBlockDeltaEvent {
    pub index: u64,
    pub delta: BlockDelta,
}

#[derive(Debug)]
pub enum BlockDelta {
    Thinking { thinking: String },
    Text { text: String },
    InputJson { partial_json: String },
}

#[derive(Debug)]
pub struct ContentBlockStopEvent {
    pub index: u64,
}

#[derive(Debug)]
pub struct MessageDeltaEvent {
    pub delta: MessageDelta,
    pub usage: MessageDeltaUsage,
}

#[derive(Debug)]
pub struct MessageDelta {
    pub stop_reason: &'static str,
    pub stop_sequence: Option<String>,
}

#[derive(Debug, Clone, Copy, PartialEq, Eq, Structural)]
pub struct MessageDeltaUsage {
    pub output_tokens: u32,
}

#[derive(Debug, Clone, Copy, PartialEq, Eq, Structural)]
pub struct MessageStopEvent {}

impl Usage {
    pub open spec fn spec_json(self) -> JsonView {
        JsonView::Object(
            map![
                "input_tokens"@ => openai::num(self.input_tokens as int),
                "output_tokens"@ => openai::num(self.output_tokens as int)
            ],
        )
    }

    pub fn to_json(&self) -> (r: Value)
        ensures
            json::contents(r) == self.spec_json(),
    {
        let o: Value = json::with(
            json::object(),
            "input_tokens",
            json::unsigned(self.input_tokens as u64),
        );
        json::with(o, "output_tokens", json::unsigned(self.output_tokens as u64))
    }
}

impl ContentBlock {
    pub open spec fn spec_json(self) -> JsonView {
        match self {
            ContentBlock::Thinking { thinking, signature } => JsonView::Object(
                map![
                    "type"@ => JsonView::Str("thinking"@),
                    "thinking"@ => JsonView::Str(thinking@),
                    "signature"@ => JsonView::Str(signature@)
                ],
            ),
            ContentBlock::Text { text } => JsonView::Object(
                map![
                    "type"@ => JsonView::Str("text"@),
                    "text"@ => JsonView::Str(text@)
                ],
            ),
            ContentBlock::ToolUse { id, name, input } => JsonView::Object(
                map![
                    "type"@ => JsonView::Str("tool_use"@),
                    "id"@ => JsonView::Str(id@),
                    "name"@ => JsonView::Str(name@),
                    "input"@ => json::contents(input)
                ],
            ),
        }
    }

    pub fn to_json(&self) -> (r: Value)
        ensures
            json::contents(r) == self.spec_json(),
    {
        match self {
            ContentBlock::Thinking { thinking, signature } => {
                let o: Value = json::with(json::object(), "type", json::string("thinking"));
                let o: Value = json::with(o, "thinking", json::string(thinking.as_str()));
                json::with(o, "signature", json::string(signature))
            },
            ContentBlock::Text { text } => {
                let o: Value = json::with(json::object(), "type", json::string("text"));
                json::with(o, "text", json::string(text.as_str()))
            },
            ContentBlock::ToolUse { id, name, input } => {
                let o: Value = json::with(json::object(), "type", json::string("tool_use"));
                let o: Value = json::with(o, "id", json::string(id.as_str()));
                let o: Value = json::with(o, "name", json::string(name.as_str()));
                json::with(o, "input", json::duplicate(input))
            },
        }
    }
}

impl MessagesResponse {
    pub open spec fn spec_json(self) -> JsonView {
        JsonView::Object(
            map![
                "id"@ => JsonView::Str(self.id@),
                "type"@ => JsonView::Str(self.response_type@),
                "role"@ => JsonView::Str(self.role@),
                "model"@ => JsonView::Str(self.model@),
                "content"@ => JsonView::Array(
                    Seq::new(self.content@.len(), |i: int| self.content@[i].spec_json()),
                ),
                "stop_reason"@ => openai::opt_static(self.stop_reason),
                "stop_sequence"@ => json::opt_str(text::opt_view(self.stop_sequence)),
                "usage"@ => self.usage.spec_json()
            ],
        )
    }

    /// The response body.
    pub fn to_json(&self) -> (r: Value)
        ensures
            json::contents(r) == self.spec_json(),
    {
        let mut content: Vec<Value> = Vec::new();
        let mut i: usize = 0;
        while i < self.content.len()
            invariant
                i <= self.content@.len(),
                content@.len() == i,
                forall|j: int|
                    0 <= j < i ==> json::contents(#[trigger] content@[j])
                        == self.content@[j].spec_json(),
            decreases self.content@.len() - i,
        {
            content.push(self.content[i].to_json());
            i = i + 1;
        }
        assert(json::list_contents(content@) =~= Seq::new(
            self.content@.len(),
            |i: int| self.content@[i].spec_json(),
        ));
        let o: Value = json::with(json::object(), "id", json::string(self.id.as_str()));
        let o: Value = json::with(o, "type", json::string(self.response_type));
        let o: Value = json::with(o, "role", json::string(self.role));
        let o: Value = json::with(o, "model", json::string(self.model.as_str()));
        let o: Value = json::with(o, "content", json::array(content));
        let reason: Value = match self.stop_reason {
            Some(s) => json::string(s),
            None => json::null(),
        };
        let o: Value = json::with(o, "stop_reason", reason);
        let o: Value = json::with(o, "stop_sequence", json::opt_string(&self.stop_sequence));
        json::with(o, "usage", self.usage.to_json())
    }

    pub open spec fn spec_start_event(self) -> JsonView {
        JsonView::Object(
            map![
                "type"@ => JsonView::Str("message_start"@),
                "message"@ => self.spec_json()
            ],
        )
    }

    /// The event that starts a stream with this skeleton.
    pub fn start_event(&self) -> (r: Value)
        ensures
            json::contents(r) == self.spec_start_event(),
    {
        let o: Value = json::with(json::object(), "type", json::string("message_start"));
        json::with(o, "message", self.to_json())
    }
}

impl ContentBlockStartEvent {
    pub open spec fn spec_json(self) -> JsonView {
        JsonView::Object(
            map![
                "type"@ => JsonView::Str("content_block_start"@),
                "index"@ => openai::num(self.index as int),
                "content_block"@ => self.content_block.spec_json()
            ],
        )
    }

    pub fn to_json(&self) -> (r: Value)
        ensures
            json::contents(r) == self.spec_json(),
    {
        let o: Value = json::with(json::object(), "type", json::string("content_block_start"));
        let o: Value = json::with(o, "index", json::unsigned(self.index));
        json::with(o, "content_block", self.content_block.to_json())
    }
}

impl BlockDelta {
    pub open spec fn spec_json(self) -> JsonView {
        match self {
            BlockDelta::Thinking { thinking } => JsonView::Object(
                map![
                    "type"@ => JsonView::Str("thinking_delta"@),
                    "thinking"@ => JsonView::Str(thinking@)
                ],
            ),
            BlockDelta::Text { text } => JsonView::Object(
                map![
                    "type"@ => JsonView::Str("text_delta"@),
                    "text"@ => JsonView::Str(text@)
                ],
            ),
            BlockDelta::InputJson { partial_json } => JsonView::Object(
                map![
                    "type"@ => JsonView::Str("input_json_delta"@),
                    "partial_json"@ => JsonView::Str(partial_json@)
                ],
            ),
        }
    }

    pub fn to_json(&self) -> (r: Value)
        ensures
            json::contents(r) == self.spec_json(),
    {
        match self {
            BlockDelta::Thinking { thinking } => {
                let o: Value = json::with(json::object(), "type", json::string("thinking_delta"));
                json::with(o, "thinking", json::string(thinking.as_str()))
            },
            BlockDelta::Text { text } => {
                let o: Value = json::with(json::object(), "type", json::string("text_delta"));
                json::with(o, "text", json::string(text.as_str()))
            },
            BlockDelta::InputJson { partial_json } => {
                let o: Value = json::with(
                    json::object(),
                    "type",
                    json::string("input_json_delta"),
                );
                json::with(o, "partial_json", json::string(partial_json.as_str()))
            },
        }
    }
}

impl ContentBlockDeltaEvent {
    pub open spec fn spec_json(self) -> JsonView {
        JsonView::Object(
            map![
                "type"@ => JsonView::Str("content_block_delta"@),
                "index"@ => openai::num(self.index as int),
                "delta"@ => self.delta.spec_json()
            ],
        )
    }

    pub fn to_json(&self) -> (r: Value)
        ensures
            json::contents(r) == self.spec_json(),
    {
        let o: Value = json::with(json::object(), "type", json::string("content_block_delta"));
        let o: Value = json::with(o, "index", json::unsigned(self.index));
        json::with(o, "delta", self.delta.to_json())
    }
}

impl ContentBlockStopEvent {
    pub open spec fn spec_json(self) -> JsonView {
        JsonView::Object(
            map![
                "type"@ => JsonView::Str("content_block_stop"@),
                "index"@ => openai::num(self.index as int)
            ],
        )
    }

    pub fn to_json(&self) -> (r: Value)
        ensures
            json::contents(r) == self.spec_json(),
    {
        let o: Value = json::with(json::object(), "type", json::string("content_block_stop"));
        json::with(o, "index", json::unsigned(self.index))
    }
}

impl MessageDeltaEvent {
    pub open spec fn spec_json(self) -> JsonView {
        JsonView::Object(
            map![
                "type"@ => JsonView::Str("message_delta"@),
                "delta"@ => JsonView::Object(map![
                    "stop_reason"@ => JsonView::Str(self.delta.stop_reason@),
                    "stop_sequence"@ => json::opt_str(text::opt_view(self.delta.stop_sequence))
                ]),
                "usage"@ => JsonView::Object(map![
                    "output_tokens"@ => openai::num(self.usage.output_tokens as int)
                ])
            ],
        )
    }

    pub fn to_json(&self) -> (r: Value)
        ensures
            json::contents(r) == self.spec_json(),
    {
        let d: Value = json::with(
            json::object(),
            "stop_reason",
            json::string(self.delta.stop_reason),
        );
        let d: Value = json::with(
            d,
            "stop_sequence",
            json::opt_string(&self.delta.stop_sequence),
        );
        let u: Value = json::with(
            json::object(),
            "output_tokens",
            json::unsigned(self.usage.output_tokens as u64),
        );
        let o: Value = json::with(json::object(), "type", json::string("message_delta"));
        let o: Value = json::with(o, "delta", d);
        json::with(o, "usage", u)
    }
}

impl MessageStopEvent {
    pub open spec fn spec_json(self) -> JsonView {
        JsonView::Object(map!["type"@ => JsonView::Str("message_stop"@)])
    }

    pub fn to_json(&self) -> (r: Value)
        ensures
            json::contents(r) == self.spec_json(),
    {
        json::with(json::object(), "type", json::string("message_stop"))
    }
}

/// An assistant's turn stays the assistant's, in either form of its content; a text is
/// what it said, and calls nothing.
pub proof fn law_assistants_speak_for_themselves(content: MessageContent)
    ensures
        assistant_says(content).role == "assistant"@,
        content is Text ==> assistant_says(content).content == content->Text_0@
            && assistant_says(content).tool_calls is None,
        content is Blocks ==> assistant_says(content).content == texts_of(
            content->Blocks_0@,
        ),
{
}

/// An assistant's turn in blocks says its text blocks, one behind the other, and makes
/// its calls, in order, each with its own name and input.
pub proof fn law_assistant_turns_keep_texts_and_calls(
    before: Seq<RequestContentBlock>,
    block: RequestContentBlock,
)
    ensures
        block is Text ==> texts_of(before.push(block)) == texts_of(before) + block->Text_text@,
        !(block is Text) ==> texts_of(before.push(block)) == texts_of(before),
        block is ToolUse ==> {
            let calls = calls_of(before.push(block));
            &&& calls.drop_last() == calls_of(before)
            &&& calls.len() == calls_of(before).len() + 1
            &&& calls.last().name == block->name@
            &&& calls.last().arguments == json::contents(block->input)
        },
        !(block is ToolUse) ==> calls_of(before.push(block)) == calls_of(before),
        texts_of(Seq::empty()).len() == 0,
        calls_of(Seq::empty()).len() == 0,
{
    assert(before.push(block).drop_last() =~= before);
    if block is ToolUse {
        assert(calls_of(before.push(block)).drop_last() =~= calls_of(before));
    }
}

/// The calls of an assistant's turn reach the template with it, and a turn without
/// calls has none.
pub proof fn law_calls_travel_with_the_turn(blocks: Vec<RequestContentBlock>)
    ensures
        calls_of(blocks@).len() > 0 ==> assistant_says(MessageContent::Blocks(blocks)).tool_calls
            == Some(calls_of(blocks@)),
        calls_of(blocks@).len() == 0 ==> assistant_says(MessageContent::Blocks(blocks)).tool_calls
            is None,
{
}

/// Each message of the assistant adds exactly one to the conversation, under the role
/// of the assistant, behind everything that was said before.
pub proof fn law_assistant_messages_add_one(
    said: Seq<ChatMessageView>,
    before: Seq<RequestMessage>,
    m: RequestMessage,
)
    requires
        m.role@ == "assistant"@,
    ensures
        ({
            let all = conversation(said, before.push(m));
            &&& all.len() == conversation(said, before).len() + 1
            &&& all.drop_last() == conversation(said, before)
            &&& all.last().role == "assistant"@
            &&& m.content is Text ==> all.last().content == m.content->Text_0@
        }),
{
    lemma_roles();
    assert(before.push(m).drop_last() =~= before);
    assert(conversation(said, before.push(m)).drop_last() =~= conversation(said, before));
}

/// Each text message of the user adds exactly one to the conversation, under the role
/// of the user, with that text.
pub proof fn law_user_texts_add_one(
    said: Seq<ChatMessageView>,
    before: Seq<RequestMessage>,
    m: RequestMessage,
)
    requires
        m.role@ == "user"@,
        m.content is Text,
    ensures
        ({
            let all = conversation(said, before.push(m));
            &&& all.len() == conversation(said, before).len() + 1
            &&& all.drop_last() == conversation(said, before)
            &&& all.last().role == "user"@
            &&& all.last().content == m.content->Text_0@
            &&& all.last().tool_calls is None
        }),
{
    assert(before.push(m).drop_last() =~= before);
    assert(conversation(said, before.push(m)).drop_last() =~= conversation(said, before));
}

/// A conversation of texts is kept message by message: the same number, in the same
/// order, each under its own role with its own text, behind the system prompt.
pub proof fn law_text_conversations_are_kept(
    request: MessagesRequest,
    v: ValidatedMessages,
    i: int,
)
    requires
        request.accepts(v),
        forall|k: int| 0 <= k < request.messages@.len() ==> (
        #[trigger] request.messages@[k]).content is Text,
        0 <= i < request.messages@.len(),
    ensures
        ({
            let first: int = if request.system is Some {
                1
            } else {
                0
            };
            &&& v.messages@.len() == first + request.messages@.len()
            &&& v.messages@[first + i].role@ == request.messages@[i].role@
            &&& v.messages@[first + i].content@ == request.messages@[i].content->Text_0@
        }),
{
    let first = request.opening().len() as int;
    lemma_messages_sound(request.messages@, 0);
    lemma_texts_kept(request.opening(), request.messages@, i);
    let seen = prompt::messages_view(v.messages@);
    assert(seen.len() == v.messages@.len());
    assert(seen[first + i] == v.messages@[first + i]@);
}

proof fn lemma_roles()
    ensures
        "user"@ != "assistant"@,
        "user"@ != "tool"@,
        "tool"@ != "assistant"@,
{
    reveal_strlit("user");
    reveal_strlit("assistant");
    reveal_strlit("tool");
    assert("user"@.len() != "assistant"@.len());
    assert("user"@[0] != "tool"@[0]);
    assert("tool"@.len() != "assistant"@.len());
}

proof fn lemma_messages_sound(messages: Seq<RequestMessage>, i: int)
    requires
        0 <= i <= messages.len(),
        messages_problem(messages, i) is None,
    ensures
        forall|k: int| i <= k < messages.len() ==> message_problem(#[trigger] messages[k]) is None,
    decreases messages.len() - i,
{
    if i < messages.len() {
        lemma_messages_sound(messages, i + 1);
    }
}

proof fn lemma_texts_kept(said: Seq<ChatMessageView>, messages: Seq<RequestMessage>, i: int)
    requires
        forall|k: int|
            0 <= k < messages.len() ==> (#[trigger] messages[k]).content is Text
                && message_problem(messages[k]) is None,
        0 <= i < messages.len(),
    ensures
        conversation(said, messages).len() == said.len() + messages.len(),
        conversation(said, messages)[said.len() + i].role == messages[i].role@,
        conversation(said, messages)[said.len() + i].content == messages[i].content->Text_0@,
    decreases messages.len(),
{
    lemma_roles();
    let rest = messages.drop_last();
    assert(messages[messages.len() - 1].content is Text);
    assert forall|k: int| 0 <= k < rest.len() implies (#[trigger] rest[k]).content is Text
        && message_problem(rest[k]) is None by {
        assert(rest[k] == messages[k]);
    }
    if rest.len() > 0 {
        let k = if i < rest.len() {
            i
        } else {
            0
        };
        lemma_texts_kept(said, rest, k);
    } else {
        assert(conversation(said, rest) == said);
    }
}

/// A system prompt is the first message, under its own role; without one the
/// conversation begins with the messages.
pub proof fn law_system_prompt_comes_first(request: MessagesRequest)
    ensures
        request.system is None ==> request.opening().len() == 0,
        request.system is Some ==> {
            &&& request.opening().len() == 1
            &&& request.opening()[0].role == "system"@
            &&& request.opening()[0].content == system_says(request.system->0)
        },
        request.system is Some && request.system->0 is Text ==> request.opening()[0].content
            == request.system->0->Text_0@,
{
}

/// A system prompt in blocks is their texts, one behind the other.
pub proof fn law_system_blocks_are_joined(blocks: Seq<SystemBlock>, block: SystemBlock)
    ensures
        block.text is Some ==> system_blocks_text(blocks.push(block)) == system_blocks_text(blocks)
            + block.text->0@,
        block.text is None ==> system_blocks_text(blocks.push(block)) == system_blocks_text(
            blocks,
        ),
        system_blocks_text(Seq::empty()).len() == 0,
{
    assert(blocks.push(block).drop_last() =~= blocks);
    assert(system_blocks_text(blocks) + Seq::<char>::empty() =~= system_blocks_text(blocks));
}

/// What was said before a user's turn stays, whatever the turn holds.
pub proof fn law_user_turns_keep_what_was_said(
    said: Seq<ChatMessageView>,
    content: MessageContent,
)
    ensures
        said.is_prefix_of(with_user(said, content)),
        content is Text || said.len() == 0 || said.last().role != "tool"@ ==> with_user(
            said,
            content,
        ).len() > said.len(),
{
    match content {
        MessageContent::Text(t) => {
            assert(said =~= with_user(said, content).take(said.len() as int));
        },
        MessageContent::Blocks(blocks) => {
            lemma_user_turn_prefix(said, blocks@);
            let out = user_turn(said, blocks@).0;
            let all = with_user(said, content);
            assert(said =~= out.take(said.len() as int));
            assert(said =~= all.take(said.len() as int));
            if out.len() == said.len() {
                assert(out =~= said);
            }
        },
    }
}

proof fn lemma_user_turn_prefix(said: Seq<ChatMessageView>, blocks: Seq<RequestContentBlock>)
    ensures
        user_turn(said, blocks).0.len() >= said.len(),
        user_turn(said, blocks).0.take(said.len() as int) == said,
    decreases blocks.len(),
{
    if blocks.len() == 0 {
        assert(said.take(said.len() as int) =~= said);
    } else {
        lemma_user_turn_prefix(said, blocks.drop_last());
        let out = user_turn(said, blocks.drop_last()).0;
        assert(user_turn(said, blocks).0.take(said.len() as int) =~= out.take(said.len() as int));
    }
}

/// A tool result in a user's turn becomes a tool message with what the tool said,
/// behind the text that came before it; text is gathered until then.
pub proof fn law_tool_results_become_tool_messages(
    said: Seq<ChatMessageView>,
    before: Seq<RequestContentBlock>,
    block: RequestContentBlock,
)
    ensures
        ({
            let (out, pending) = user_turn(said, before);
            let (all, left) = user_turn(said, before.push(block));
            &&& block is Text ==> all == out && left == pending + block->Text_text@
            &&& block is ToolResult ==> {
                &&& left.len() == 0
                &&& all.last().role == "tool"@
                &&& all.last().content == result_says(block->ToolResult_content)
                &&& pending.len() == 0 ==> all.drop_last() == out
                &&& pending.len() > 0 ==> all.len() == out.len() + 2 && all[out.len() as int].role
                    == "user"@ && all[out.len() as int].content == pending && out.is_prefix_of(all)
            }
        }),
        user_turn(said, Seq::empty()).0 == said,
        user_turn(said, Seq::empty()).1.len() == 0,
{
    assert(before.push(block).drop_last() =~= before);
    let (out, pending) = user_turn(said, before);
    let (all, left) = user_turn(said, before.push(block));
    if block is ToolResult {
        if pending.len() == 0 {
            assert(all.drop_last() =~= out);
        } else {
            assert(out =~= all.take(out.len() as int));
        }
    }
}

/// The text that a user's turn ends with becomes a user message.
pub proof fn law_closing_text_becomes_a_user_message(
    said: Seq<ChatMessageView>,
    blocks: Vec<RequestContentBlock>,
)
    ensures
        user_turn(said, blocks@).1.len() > 0 ==> {
            let all = with_user(said, MessageContent::Blocks(blocks));
            &&& all.last().role == "user"@
            &&& all.last().content == user_turn(said, blocks@).1
            &&& all.drop_last() == user_turn(said, blocks@).0
        },
{
    let all = with_user(said, MessageContent::Blocks(blocks));
    if user_turn(said, blocks@).1.len() > 0 {
        assert(all.drop_last() =~= user_turn(said, blocks@).0);
    }
}

/// A tool's result is its text, or its text blocks one behind the other; a result in
/// blocks that are not all text is refused.
pub proof fn law_tool_results_say_their_text(content: Option<ToolResultContent>)
    ensures
        content is None ==> result_says(content).len() == 0 && result_problem(content) is None,
        content is Some && content->0 is Text ==> result_says(content) == content->0->Text_0@
            && result_problem(content) is None,
        content is Some && content->0 is Blocks ==> result_says(content) == texts_of(
            content->0->Blocks_0@,
        ) && (result_problem(content) is None <==> forall|i: int|
            0 <= i < content->0->Blocks_0@.len() ==> #[trigger] content->0->Blocks_0@[i] is Text),
{
    if content is Some && content->0 is Blocks {
        lemma_all_text(content->0->Blocks_0@, 0);
    }
}

proof fn lemma_all_text(blocks: Seq<RequestContentBlock>, i: int)
    requires
        0 <= i <= blocks.len(),
    ensures
        all_text(blocks, i) <==> forall|k: int|
            i <= k < blocks.len() ==> #[trigger] blocks[k] is Text,
    decreases blocks.len() - i,
{
    if i < blocks.len() {
        lemma_all_text(blocks, i + 1);
    }
}

/// A request samples with exactly what it asked for, field by field; what it leaves out
/// is neutral, and nothing else narrows what is sampled.
pub proof fn law_messages_sample_as_asked(request: MessagesRequest, v: ValidatedMessages)
    requires
        request.accepts(v),
    ensures
        v.sampling.temperature == (match request.temperature {
            Some(x) => x,
            None => Single { bits: 0x3f80_0000 },
        }),
        v.sampling.top_p == (match request.top_p {
            Some(x) => x,
            None => Single { bits: 0x3f80_0000 },
        }),
        request.top_k is Some ==> v.sampling.top_k == request.top_k->0,
        request.top_k is None ==> v.sampling.top_k == 0,
        v.sampling.min_p == (Single { bits: 0 }),
        v.sampling.repetition_penalty == (Single { bits: 0 }),
        v.sampling.frequency_penalty == (Single { bits: 0 }),
        v.sampling.presence_penalty == (Single { bits: 0 }),
        v.sampling.repetition_window == 0,
        v.sampling.seed == 0,
        v.sampling.logprobs_top_n == 0,
        v.max_tokens > 0,
        Some(v.max_tokens) == request.max_tokens,
        v.stream == request.stream,
        request.stop_sequences is None ==> v.stop_sequences@.len() == 0,
        request.stop_sequences is Some ==> v.stop_sequences@.len()
            == request.stop_sequences->0@.len() && forall|i: int|
            0 <= i < v.stop_sequences@.len() ==> (#[trigger] v.stop_sequences@[i])@
                == request.stop_sequences->0@[i]@,
        v.thinking_disabled <==> request.thinking is Some && request.thinking->0.thinking_type@
            == "disabled"@,
{
    let stops = text::list_view(v.stop_sequences@);
    assert(stops.len() == v.stop_sequences@.len());
    assert forall|i: int| 0 <= i < v.stop_sequences@.len() implies (
    #[trigger] v.stop_sequences@[i])@ == stops[i] by {}
}

/// A request is refused without a cap, with a cap of nothing, without messages, with a
/// temperature or a nucleus that is not from 0 to 1, by their bits, and with a number
/// of candidates that is negative or too large.
pub proof fn law_unsound_messages_are_refused(request: MessagesRequest)
    ensures
        request.max_tokens is None || request.max_tokens == Some(0u32) ==> request.problem()
            is Some,
        request.messages@.len() == 0 ==> request.problem() is Some,
        request.temperature is Some && request.temperature->0.bits > 0x3f80_0000
            && request.temperature->0.bits != 0x8000_0000 ==> request.problem() is Some,
        request.top_p is Some && request.top_p->0.bits > 0x3f80_0000 && request.top_p->0.bits
            != 0x8000_0000 ==> request.problem() is Some,
        request.top_k is Some && (request.top_k->0 < 0 || request.top_k->0 > u32::MAX)
            ==> request.problem() is Some,
        request.thinking is Some && request.thinking->0.thinking_type@ != "enabled"@
            && request.thinking->0.thinking_type@ != "adaptive"@
            && request.thinking->0.thinking_type@ != "disabled"@ ==> request.problem() is Some,
{
    crate::float::law_single_ranges(prompt::or_one(request.temperature));
    crate::float::law_single_ranges(prompt::or_one(request.top_p));
}

/// A request of sound parameters, tools, system prompt and messages is accepted.
pub proof fn law_sound_messages_are_accepted(request: MessagesRequest)
    requires
        request.max_tokens is Some,
        request.max_tokens->0 > 0,
        request.messages@.len() > 0,
        request.temperature is None || request.temperature->0.bits <= 0x3f80_0000,
        request.top_p is None || request.top_p->0.bits <= 0x3f80_0000,
        request.top_k is None || 0 <= request.top_k->0 <= u32::MAX,
        request.thinking is None,
        request.tools is None,
        request.tool_choice is None,
        request.system is None || request.system->0 is Text,
        forall|i: int|
            0 <= i < request.messages@.len() ==> {
                let m = #[trigger] request.messages@[i];
                (m.role@ == "user"@ || m.role@ == "assistant"@) && m.content is Text
            },
    ensures
        request.problem() is None,
{
    crate::float::law_single_ranges(prompt::or_one(request.temperature));
    crate::float::law_single_ranges(prompt::or_one(request.top_p));
    lemma_no_problem(request.messages@, 0);
}

proof fn lemma_no_problem(messages: Seq<RequestMessage>, i: int)
    requires
        0 <= i <= messages.len(),
        forall|k: int|
            0 <= k < messages.len() ==> {
                let m = #[trigger] messages[k];
                (m.role@ == "user"@ || m.role@ == "assistant"@) && m.content is Text
            },
    ensures
        messages_problem(messages, i) is None,
    decreases messages.len() - i,
{
    if i < messages.len() {
        assert(messages[i].content is Text);
        lemma_no_problem(messages, i + 1);
    }
}

/// Blocks stand where they belong: calls and thinking on the assistant's turns, tool
/// results on the user's, text on both and images on none.
pub proof fn law_blocks_stand_where_they_belong(block: RequestContentBlock)
    ensures
        block is Text ==> user_block_problem(block) is None && assistant_block_problem(block)
            is None,
        block is Image ==> user_block_problem(block) is Some && assistant_block_problem(block)
            is Some,
        block is ToolUse || block is Thinking || block is RedactedThinking ==> user_block_problem(
            block,
        ) is Some && assistant_block_problem(block) is None,
        block is ToolResult ==> assistant_block_problem(block) is Some && user_block_problem(block)
            == result_problem(block->ToolResult_content),
{
}

/// A message of another role than the user's and the assistant's is refused, and so is
/// one with a block that does not belong.
pub proof fn law_strange_messages_are_refused(m: RequestMessage, k: int)
    ensures
        m.role@ != "user"@ && m.role@ != "assistant"@ ==> message_problem(m) is Some,
        m.role@ == "user"@ && m.content is Blocks && 0 <= k < m.content->Blocks_0@.len()
            && user_block_problem(m.content->Blocks_0@[k]) is Some ==> message_problem(m) is Some,
        m.role@ == "assistant"@ && m.content is Blocks && 0 <= k < m.content->Blocks_0@.len()
            && assistant_block_problem(m.content->Blocks_0@[k]) is Some ==> message_problem(m)
            is Some,
{
    lemma_roles();
    if m.content is Blocks && 0 <= k < m.content->Blocks_0@.len() {
        lemma_bad_block(m.content->Blocks_0@, m.role@ != "user"@, 0, k);
    }
}

proof fn lemma_bad_block(blocks: Seq<RequestContentBlock>, assistant: bool, i: int, k: int)
    requires
        0 <= i <= k < blocks.len(),
    ensures
        (if assistant {
            assistant_block_problem(blocks[k])
        } else {
            user_block_problem(blocks[k])
        }) is Some ==> blocks_problem(blocks, assistant, i) is Some,
    decreases blocks.len() - i,
{
    if i < k {
        lemma_bad_block(blocks, assistant, i + 1, k);
    }
}

/// The client's tools reach the model as functions with their own names, descriptions
/// and schemas, as many as there are and in order, unless the client turned tools off.
pub proof fn law_tools_reach_the_model(request: MessagesRequest, v: ValidatedMessages, i: int)
    requires
        request.accepts(v),
        request.tools is Some,
        0 <= i < request.tools->0@.len(),
    ensures
        v.tools_disabled <==> request.tool_choice is Some && json::str_field(
            json::contents(request.tool_choice->0),
            "type"@,
        ) == Some("none"@),
        v.tools_disabled ==> v.tools@.len() == 0,
        !v.tools_disabled ==> {
            let given = request.tools->0@[i];
            let tool = json::contents(v.tools@[i]);
            let f = json::field(tool, "function"@)->0;
            &&& v.tools@.len() == request.tools->0@.len()
            &&& json::str_field(tool, "type"@) == Some("function"@)
            &&& json::field(tool, "function"@) is Some
            &&& given.name is Some && json::str_field(f, "name"@) == Some(given.name->0@)
            &&& json::str_field(f, "description"@) == text::opt_view(given.description)
            &&& given.input_schema is Some ==> json::field(f, "parameters"@) == Some(
                json::contents(given.input_schema->0),
            )
            &&& json::field(f, "parameters"@) is Some
        },
{
    lemma_definition_keys();
    let listed = json::list_contents(v.tools@);
    assert(listed.len() == v.tools@.len());
    if !v.tools_disabled {
        assert(listed[i] == json::contents(v.tools@[i]));
        lemma_tools_sound(request.tools->0@, 0, i);
    }
}

proof fn lemma_tools_sound(tools: Seq<RequestTool>, i: int, k: int)
    requires
        0 <= i <= k < tools.len(),
        tools_problem(tools, i) is None,
    ensures
        tool_problem(tools[k]) is None,
    decreases tools.len() - i,
{
    if i < k {
        lemma_tools_sound(tools, i + 1, k);
    }
}

/// A tool without a name, or of a kind that the client does not run itself, is refused;
/// any other is taken.
pub proof fn law_only_named_client_tools(tool: RequestTool)
    ensures
        tool_problem(tool) is None <==> (tool.tool_type is None || tool.tool_type->0@
            == "custom"@) && tool.name is Some && tool.name->0@.len() > 0,
{
}

/// Of the tool choices only `auto` and `none` are served, and only where calls are not
/// to be made one at a time.
pub proof fn law_forced_tool_choices_are_refused(choice: JsonView)
    ensures
        choice_problem(Some(choice)) is None <==> choice is Object && (json::str_field(
            choice,
            "type"@,
        ) == Some("auto"@) || json::str_field(choice, "type"@) == Some("none"@)) && json::field(
            choice,
            "disable_parallel_tool_use"@,
        ) != Some(JsonView::Bool(true)),
        choice_problem(None) is None,
        !choice_none(None),
{
}
/// The keys of a tool's definition are told apart.
proof fn lemma_definition_keys()
    ensures
        "type"@ != "function"@,
        "type"@ != "name"@,
        "type"@ != "description"@,
        "type"@ != "parameters"@,
        "function"@ != "name"@,
        "function"@ != "description"@,
        "function"@ != "parameters"@,
        "name"@ != "description"@,
        "name"@ != "parameters"@,
        "description"@ != "parameters"@,
{
    reveal_strlit("type");
    reveal_strlit("function");
    reveal_strlit("name");
    reveal_strlit("description");
    reveal_strlit("parameters");
    assert("type"@.len() != "function"@.len());
    assert("type"@[0] != "name"@[0]);
    assert("type"@.len() != "description"@.len());
    assert("type"@.len() != "parameters"@.len());
    assert("function"@.len() != "name"@.len());
    assert("function"@.len() != "description"@.len());
    assert("function"@.len() != "parameters"@.len());
    assert("name"@.len() != "description"@.len());
    assert("name"@.len() != "parameters"@.len());
    assert("description"@.len() != "parameters"@.len());
}

/// The keys of a response are told apart.
proof fn lemma_response_keys()
    ensures
        "id"@ != "type"@,
        "id"@ != "role"@,
        "id"@ != "model"@,
        "id"@ != "content"@,
        "id"@ != "stop_reason"@,
        "id"@ != "stop_sequence"@,
        "id"@ != "usage"@,
        "id"@ != "message"@,
        "type"@ != "role"@,
        "type"@ != "model"@,
        "type"@ != "content"@,
        "type"@ != "stop_reason"@,
        "type"@ != "stop_sequence"@,
        "type"@ != "usage"@,
        "type"@ != "message"@,
        "role"@ != "model"@,
        "role"@ != "content"@,
        "role"@ != "stop_reason"@,
        "role"@ != "stop_sequence"@,
        "role"@ != "usage"@,
        "role"@ != "message"@,
        "model"@ != "content"@,
        "model"@ != "stop_reason"@,
        "model"@ != "stop_sequence"@,
        "model"@ != "usage"@,
        "model"@ != "message"@,
        "content"@ != "stop_reason"@,
        "content"@ != "stop_sequence"@,
        "content"@ != "usage"@,
        "content"@ != "message"@,
        "stop_reason"@ != "stop_sequence"@,
        "stop_reason"@ != "usage"@,
        "stop_reason"@ != "message"@,
        "stop_sequence"@ != "usage"@,
        "stop_sequence"@ != "message"@,
        "usage"@ != "message"@,
{
    reveal_strlit("id");
    reveal_strlit("type");
    reveal_strlit("role");
    reveal_strlit("model");
    reveal_strlit("content");
    reveal_strlit("stop_reason");
    reveal_strlit("stop_sequence");
    reveal_strlit("usage");
    reveal_strlit("message");
    assert("id"@.len() != "type"@.len());
    assert("id"@.len() != "role"@.len());
    assert("id"@.len() != "model"@.len());
    assert("id"@.len() != "content"@.len());
    assert("id"@.len() != "stop_reason"@.len());
    assert("id"@.len() != "stop_sequence"@.len());
    assert("id"@.len() != "usage"@.len());
    assert("id"@.len() != "message"@.len());
    assert("type"@[0] != "role"@[0]);
    assert("type"@.len() != "model"@.len());
    assert("type"@.len() != "content"@.len());
    assert("type"@.len() != "stop_reason"@.len());
    assert("type"@.len() != "stop_sequence"@.len());
    assert("type"@.len() != "usage"@.len());
    assert("type"@.len() != "message"@.len());
    assert("role"@.len() != "model"@.len());
    assert("role"@.len() != "content"@.len());
    assert("role"@.len() != "stop_reason"@.len());
    assert("role"@.len() != "stop_sequence"@.len());
    assert("role"@.len() != "usage"@.len());
    assert("role"@.len() != "message"@.len());
    assert("model"@.len() != "content"@.len());
    assert("model"@.len() != "stop_reason"@.len());
    assert("model"@.len() != "stop_sequence"@.len());
    assert("model"@[0] != "usage"@[0]);
    assert("model"@.len() != "message"@.len());
    assert("content"@.len() != "stop_reason"@.len());
    assert("content"@.len() != "stop_sequence"@.len());
    assert("content"@.len() != "usage"@.len());
    assert("content"@[0] != "message"@[0]);
    assert("stop_reason"@.len() != "stop_sequence"@.len());
    assert("stop_reason"@.len() != "usage"@.len());
    assert("stop_reason"@.len() != "message"@.len());
    assert("stop_sequence"@.len() != "usage"@.len());
    assert("stop_sequence"@.len() != "message"@.len());
    assert("usage"@.len() != "message"@.len());
}

/// The keys of a block are told apart.
proof fn lemma_block_keys()
    ensures
        "type"@ != "thinking"@,
        "type"@ != "signature"@,
        "type"@ != "text"@,
        "type"@ != "id"@,
        "type"@ != "name"@,
        "type"@ != "input"@,
        "type"@ != "partial_json"@,
        "thinking"@ != "signature"@,
        "thinking"@ != "text"@,
        "thinking"@ != "id"@,
        "thinking"@ != "name"@,
        "thinking"@ != "input"@,
        "thinking"@ != "partial_json"@,
        "signature"@ != "text"@,
        "signature"@ != "id"@,
        "signature"@ != "name"@,
        "signature"@ != "input"@,
        "signature"@ != "partial_json"@,
        "text"@ != "id"@,
        "text"@ != "name"@,
        "text"@ != "input"@,
        "text"@ != "partial_json"@,
        "id"@ != "name"@,
        "id"@ != "input"@,
        "id"@ != "partial_json"@,
        "name"@ != "input"@,
        "name"@ != "partial_json"@,
        "input"@ != "partial_json"@,
{
    reveal_strlit("type");
    reveal_strlit("thinking");
    reveal_strlit("signature");
    reveal_strlit("text");
    reveal_strlit("id");
    reveal_strlit("name");
    reveal_strlit("input");
    reveal_strlit("partial_json");
    assert("type"@.len() != "thinking"@.len());
    assert("type"@.len() != "signature"@.len());
    assert("type"@[1] != "text"@[1]);
    assert("type"@.len() != "id"@.len());
    assert("type"@[0] != "name"@[0]);
    assert("type"@.len() != "input"@.len());
    assert("type"@.len() != "partial_json"@.len());
    assert("thinking"@.len() != "signature"@.len());
    assert("thinking"@.len() != "text"@.len());
    assert("thinking"@.len() != "id"@.len());
    assert("thinking"@.len() != "name"@.len());
    assert("thinking"@.len() != "input"@.len());
    assert("thinking"@.len() != "partial_json"@.len());
    assert("signature"@.len() != "text"@.len());
    assert("signature"@.len() != "id"@.len());
    assert("signature"@.len() != "name"@.len());
    assert("signature"@.len() != "input"@.len());
    assert("signature"@.len() != "partial_json"@.len());
    assert("text"@.len() != "id"@.len());
    assert("text"@[0] != "name"@[0]);
    assert("text"@.len() != "input"@.len());
    assert("text"@.len() != "partial_json"@.len());
    assert("id"@.len() != "name"@.len());
    assert("id"@.len() != "input"@.len());
    assert("id"@.len() != "partial_json"@.len());
    assert("name"@.len() != "input"@.len());
    assert("name"@.len() != "partial_json"@.len());
    assert("input"@.len() != "partial_json"@.len());
}

/// The keys of an event are told apart.
proof fn lemma_event_keys()
    ensures
        "type"@ != "index"@,
        "type"@ != "content_block"@,
        "type"@ != "delta"@,
        "type"@ != "usage"@,
        "type"@ != "stop_reason"@,
        "type"@ != "stop_sequence"@,
        "type"@ != "input_tokens"@,
        "type"@ != "output_tokens"@,
        "index"@ != "content_block"@,
        "index"@ != "delta"@,
        "index"@ != "usage"@,
        "index"@ != "stop_reason"@,
        "index"@ != "stop_sequence"@,
        "index"@ != "input_tokens"@,
        "index"@ != "output_tokens"@,
        "content_block"@ != "delta"@,
        "content_block"@ != "usage"@,
        "content_block"@ != "stop_reason"@,
        "content_block"@ != "stop_sequence"@,
        "content_block"@ != "input_tokens"@,
        "content_block"@ != "output_tokens"@,
        "delta"@ != "usage"@,
        "delta"@ != "stop_reason"@,
        "delta"@ != "stop_sequence"@,
        "delta"@ != "input_tokens"@,
        "delta"@ != "output_tokens"@,
        "usage"@ != "stop_reason"@,
        "usage"@ != "stop_sequence"@,
        "usage"@ != "input_tokens"@,
        "usage"@ != "output_tokens"@,
        "stop_reason"@ != "stop_sequence"@,
        "stop_reason"@ != "input_tokens"@,
        "stop_reason"@ != "output_tokens"@,
        "stop_sequence"@ != "input_tokens"@,
        "stop_sequence"@ != "output_tokens"@,
        "input_tokens"@ != "output_tokens"@,
{
    reveal_strlit("type");
    reveal_strlit("index");
    reveal_strlit("content_block");
    reveal_strlit("delta");
    reveal_strlit("usage");
    reveal_strlit("stop_reason");
    reveal_strlit("stop_sequence");
    reveal_strlit("input_tokens");
    reveal_strlit("output_tokens");
    assert("type"@.len() != "index"@.len());
    assert("type"@.len() != "content_block"@.len());
    assert("type"@.len() != "delta"@.len());
    assert("type"@.len() != "usage"@.len());
    assert("type"@.len() != "stop_reason"@.len());
    assert("type"@.len() != "stop_sequence"@.len());
    assert("type"@.len() != "input_tokens"@.len());
    assert("type"@.len() != "output_tokens"@.len());
    assert("index"@.len() != "content_block"@.len());
    assert("index"@[0] != "delta"@[0]);
    assert("index"@[0] != "usage"@[0]);
    assert("index"@.len() != "stop_reason"@.len());
    assert("index"@.len() != "stop_sequence"@.len());
    assert("index"@.len() != "input_tokens"@.len());
    assert("index"@.len() != "output_tokens"@.len());
    assert("content_block"@.len() != "delta"@.len());
    assert("content_block"@.len() != "usage"@.len());
    assert("content_block"@.len() != "stop_reason"@.len());
    assert("content_block"@[0] != "stop_sequence"@[0]);
    assert("content_block"@.len() != "input_tokens"@.len());
    assert("content_block"@[0] != "output_tokens"@[0]);
    assert("delta"@[0] != "usage"@[0]);
    assert("delta"@.len() != "stop_reason"@.len());
    assert("delta"@.len() != "stop_sequence"@.len());
    assert("delta"@.len() != "input_tokens"@.len());
    assert("delta"@.len() != "output_tokens"@.len());
    assert("usage"@.len() != "stop_reason"@.len());
    assert("usage"@.len() != "stop_sequence"@.len());
    assert("usage"@.len() != "input_tokens"@.len());
    assert("usage"@.len() != "output_tokens"@.len());
    assert("stop_reason"@.len() != "stop_sequence"@.len());
    assert("stop_reason"@.len() != "input_tokens"@.len());
    assert("stop_reason"@.len() != "output_tokens"@.len());
    assert("stop_sequence"@.len() != "input_tokens"@.len());
    assert("stop_sequence"@[0] != "output_tokens"@[0]);
    assert("input_tokens"@.len() != "output_tokens"@.len());
}


/// A response says how many tokens went in and how many came out, each under its own
/// name.
pub proof fn law_usage_is_reported_under_its_names(usage: Usage)
    ensures
        json::u64_field(usage.spec_json(), "input_tokens"@) == Some(usage.input_tokens as u64),
        json::u64_field(usage.spec_json(), "output_tokens"@) == Some(usage.output_tokens as u64),
{
    lemma_event_keys();
}

/// A block of a response is of its own kind and carries what it holds.
pub proof fn law_blocks_are_reported_whole(block: ContentBlock)
    ensures
        match block {
            ContentBlock::Thinking { thinking, signature } => json::str_field(
                block.spec_json(),
                "type"@,
            ) == Some("thinking"@) && json::str_field(block.spec_json(), "thinking"@) == Some(
                thinking@,
            ) && json::str_field(block.spec_json(), "signature"@) == Some(signature@),
            ContentBlock::Text { text } => json::str_field(block.spec_json(), "type"@) == Some(
                "text"@,
            ) && json::str_field(block.spec_json(), "text"@) == Some(text@),
            ContentBlock::ToolUse { id, name, input } => json::str_field(
                block.spec_json(),
                "type"@,
            ) == Some("tool_use"@) && json::str_field(block.spec_json(), "id"@) == Some(id@)
                && json::str_field(block.spec_json(), "name"@) == Some(name@) && json::field(
                block.spec_json(),
                "input"@,
            ) == Some(json::contents(input)),
        },
{
    lemma_block_keys();
}

/// A response carries its id, kind, role and model, its blocks in order, why it ended,
/// by which stop sequence if by one, and the usage; the event that starts a stream
/// carries the same.
pub proof fn law_responses_are_whole(r: MessagesResponse, i: int)
    ensures
        json::str_field(r.spec_json(), "id"@) == Some(r.id@),
        json::str_field(r.spec_json(), "type"@) == Some(r.response_type@),
        json::str_field(r.spec_json(), "role"@) == Some(r.role@),
        json::str_field(r.spec_json(), "model"@) == Some(r.model@),
        r.stop_reason is Some ==> json::str_field(r.spec_json(), "stop_reason"@) == Some(
            r.stop_reason->0@,
        ),
        r.stop_reason is None ==> json::field(r.spec_json(), "stop_reason"@) == Some(
            JsonView::Null,
        ),
        r.stop_sequence is Some ==> json::str_field(r.spec_json(), "stop_sequence"@) == Some(
            r.stop_sequence->0@,
        ),
        r.stop_sequence is None ==> json::field(r.spec_json(), "stop_sequence"@) == Some(
            JsonView::Null,
        ),
        json::field(r.spec_json(), "usage"@) == Some(r.usage.spec_json()),
        json::field(r.spec_json(), "content"@) is Some,
        json::field(r.spec_json(), "content"@)->0 is Array,
        json::field(r.spec_json(), "content"@)->0->Array_0.len() == r.content@.len(),
        0 <= i < r.content@.len() ==> json::field(r.spec_json(), "content"@)->0->Array_0[i]
            == r.content@[i].spec_json(),
        json::str_field(r.spec_start_event(), "type"@) == Some("message_start"@),
        json::field(r.spec_start_event(), "message"@) == Some(r.spec_json()),
{
    lemma_response_keys();
}

/// The events of a stream say what they are, which block they are about, and what is
/// new.
pub proof fn law_events_are_whole(
    start: ContentBlockStartEvent,
    delta: ContentBlockDeltaEvent,
    stop: ContentBlockStopEvent,
    end: MessageDeltaEvent,
)
    ensures
        json::str_field(start.spec_json(), "type"@) == Some("content_block_start"@),
        json::u64_field(start.spec_json(), "index"@) == Some(start.index),
        json::field(start.spec_json(), "content_block"@) == Some(start.content_block.spec_json()),
        json::str_field(delta.spec_json(), "type"@) == Some("content_block_delta"@),
        json::u64_field(delta.spec_json(), "index"@) == Some(delta.index),
        json::field(delta.spec_json(), "delta"@) == Some(delta.delta.spec_json()),
        json::str_field(stop.spec_json(), "type"@) == Some("content_block_stop"@),
        json::u64_field(stop.spec_json(), "index"@) == Some(stop.index),
        json::str_field(end.spec_json(), "type"@) == Some("message_delta"@),
        json::field(end.spec_json(), "delta"@) is Some,
        json::field(end.spec_json(), "usage"@) is Some,
        json::str_field(json::field(end.spec_json(), "delta"@)->0, "stop_reason"@) == Some(
            end.delta.stop_reason@,
        ),
        json::str_field(json::field(end.spec_json(), "delta"@)->0, "stop_sequence"@)
            == text::opt_view(end.delta.stop_sequence),
        json::u64_field(json::field(end.spec_json(), "usage"@)->0, "output_tokens"@) == Some(
            end.usage.output_tokens as u64,
        ),
        json::str_field((MessageStopEvent {  }).spec_json(), "type"@) == Some("message_stop"@),
{
    lemma_event_keys();
}

/// A delta is of its own kind and carries its piece.
pub proof fn law_block_deltas_are_whole(delta: BlockDelta)
    ensures
        match delta {
            BlockDelta::Thinking { thinking } => json::str_field(delta.spec_json(), "type"@)
                == Some("thinking_delta"@) && json::str_field(delta.spec_json(), "thinking"@)
                == Some(thinking@),
            BlockDelta::Text { text } => json::str_field(delta.spec_json(), "type"@) == Some(
                "text_delta"@,
            ) && json::str_field(delta.spec_json(), "text"@) == Some(text@),
            BlockDelta::InputJson { partial_json } => json::str_field(delta.spec_json(), "type"@)
                == Some("input_json_delta"@) && json::str_field(
                delta.spec_json(),
                "partial_json"@,
            ) == Some(partial_json@),
        },
{
    lemma_block_keys();
}

/// A request is sound where each of its parts is, and its first fault is told in its own words.
pub proof fn law_faults_of_requests_are_told(r: MessagesRequest)
    ensures
        ({
            let choice = opt_contents(r.tool_choice);
            let a = r.max_tokens is Some;
            let b = a && r.max_tokens->0 > 0;
            let c = b && r.messages@.len() > 0;
            let d = c && prompt::or_one(r.temperature).in_0_to_1();
            let e = d && prompt::or_one(r.top_p).in_0_to_1();
            let f = e && (r.top_k is None || 0 <= r.top_k->0 <= u32::MAX);
            let g = f && thinking_problem(r.thinking) is None;
            let h = g && tools_problem(tools_of(r.tools), 0) is None;
            let i = h && choice_problem(choice) is None;
            let j = i && (r.system is None || system_problem(r.system->0) is None);
            &&& !a ==> r.problem() == Some("'max_tokens' is required"@)
            &&& a && !b ==> r.problem() == Some("'max_tokens' must be >= 1"@)
            &&& b && !c ==> r.problem() == Some("'messages' must be a non-empty array"@)
            &&& c && !d ==> r.problem() == Some("'temperature' must be in [0, 1]"@)
            &&& d && !e ==> r.problem() == Some("'top_p' must be in (0, 1]"@)
            &&& e && !f ==> r.problem() == Some("'top_k' must be a non-negative integer"@)
            &&& f && !g ==> r.problem() == thinking_problem(r.thinking)
            &&& g && !h ==> r.problem() == tools_problem(tools_of(r.tools), 0)
            &&& h && !i ==> r.problem() == choice_problem(choice)
            &&& i && !j ==> r.problem() == system_problem(r.system->0)
            &&& j ==> r.problem() == messages_problem(r.messages@, 0)
        }),
{
}

/// Thinking has three modes, of which one turns it off; without a mode it is on.
pub proof fn law_thinking_has_three_modes(spec: ThinkingSpec)
    ensures
        thinking_problem(None) is None,
        !thinking_off(None),
        ({
            let t = spec.thinking_type@;
            let known = t == "enabled"@ || t == "adaptive"@ || t == "disabled"@;
            &&& known ==> thinking_problem(Some(spec)) is None
            &&& !known ==> thinking_problem(Some(spec)) == Some(
                "unsupported 'thinking.type' '"@ + t
                    + "' (expected 'enabled', 'adaptive', or 'disabled')"@,
            )
            &&& thinking_off(Some(spec)) <==> t == "disabled"@
        }),
{
}

/// The first tool with a fault is the one that is told.
pub proof fn law_the_first_faulty_tool_is_told(tools: Seq<RequestTool>, i: int, j: int)
    requires
        0 <= i <= j <= tools.len(),
        forall|k: int| i <= k < j ==> tool_problem(#[trigger] tools[k]) is None,
    ensures
        j == tools.len() ==> tools_problem(tools, i) is None,
        j < tools.len() && tool_problem(tools[j]) is Some ==> tools_problem(tools, i)
            == tool_problem(tools[j]),
    decreases j - i,
{
    if i < j {
        assert(tool_problem(tools[i]) is None);
        law_the_first_faulty_tool_is_told(tools, i + 1, j);
    }
}

/// What is wrong with a tool is told in its own words.
pub proof fn law_faults_of_tools_are_told(tool: RequestTool)
    ensures
        ({
            let own = tool.tool_type is None || tool.tool_type->0@ == "custom"@;
            let named = tool.name is Some && tool.name->0@.len() > 0;
            &&& !own ==> tool_problem(tool) == Some(
                "unsupported tool type '"@ + tool.tool_type->0@
                    + "' (only client tools; Anthropic server tools are not available)"@,
            )
            &&& own && !named ==> tool_problem(tool) == Some(
                "each tool requires a non-empty 'name'"@,
            )
            &&& own && named ==> tool_problem(tool) is None
        }),
{
}

/// A tool choice is an object of the type `auto` or `none` that does not bound parallel calls;
/// each other is told in its own words.
pub proof fn law_faults_of_tool_choices_are_told(c: JsonView)
    ensures
        choice_problem(None) is None,
        ({
            let bounded = json::field(c, "disable_parallel_tool_use"@) == Some(
                JsonView::Bool(true),
            );
            let t = json::str_field(c, "type"@);
            let free = c is Object && !bounded;
            &&& c !is Object ==> choice_problem(Some(c)) == Some(
                "'tool_choice' must be an object"@,
            )
            &&& c is Object && bounded ==> choice_problem(Some(c)) == Some(
                "'tool_choice.disable_parallel_tool_use' is not supported (the gateway cannot bound how many calls a model emits)"@,
            )
            &&& free && (t == Some("auto"@) || t == Some("none"@)) ==> choice_problem(Some(c))
                is None
            &&& free && t is Some && t->0 != "auto"@ && t->0 != "none"@ && (t->0 == "any"@ || t->0
                == "tool"@) ==> choice_problem(Some(c)) == Some(
                "'tool_choice' type '"@ + t->0
                    + "' is not supported (forced tool calls need grammar-coupled decoding)"@,
            )
            &&& free && t is Some && t->0 != "auto"@ && t->0 != "none"@ && t->0 != "any"@ && t->0
                != "tool"@ ==> choice_problem(Some(c)) == Some(
                "unsupported 'tool_choice' type '"@ + t->0 + "'"@,
            )
            &&& free && t is None ==> choice_problem(Some(c)) is Some
        }),
{
}

/// The first system block that is no text is the one that is told.
pub proof fn law_the_first_odd_system_block_is_told(blocks: Seq<SystemBlock>, i: int, j: int)
    requires
        0 <= i <= j <= blocks.len(),
        forall|k: int| i <= k < j ==> (#[trigger] blocks[k]).block_type@ == "text"@,
    ensures
        j == blocks.len() ==> odd_system_block(blocks, i) is None,
        j < blocks.len() && blocks[j].block_type@ != "text"@ ==> odd_system_block(blocks, i)
            == Some(blocks[j].block_type@),
    decreases j - i,
{
    if i < j {
        assert(blocks[i].block_type@ == "text"@);
        law_the_first_odd_system_block_is_told(blocks, i + 1, j);
    }
}

/// A system prompt is text: a block of another kind is told by name.
pub proof fn law_faults_of_system_prompts_are_told(t: String, blocks: Vec<SystemBlock>)
    ensures
        system_problem(SystemSpec::Text(t)) is None,
        odd_system_block(blocks@, 0) is None ==> system_problem(SystemSpec::Blocks(blocks)) is None,
        odd_system_block(blocks@, 0) is Some ==> system_problem(SystemSpec::Blocks(blocks)) == Some(
            "unsupported 'system' block type '"@ + odd_system_block(blocks@, 0)->0
                + "' (only 'text')"@,
        ),
{
}

/// The first block with a fault is the one that is told, as the role of its turn has it.
pub proof fn law_the_first_faulty_block_is_told(
    blocks: Seq<RequestContentBlock>,
    assistant: bool,
    i: int,
    j: int,
)
    requires
        0 <= i <= j <= blocks.len(),
        forall|k: int|
            i <= k < j ==> (if assistant {
                assistant_block_problem(#[trigger] blocks[k]) is None
            } else {
                user_block_problem(blocks[k]) is None
            }),
    ensures
        j == blocks.len() ==> blocks_problem(blocks, assistant, i) is None,
        j < blocks.len() && assistant && assistant_block_problem(blocks[j]) is Some
            ==> blocks_problem(blocks, assistant, i) == assistant_block_problem(blocks[j]),
        j < blocks.len() && !assistant && user_block_problem(blocks[j]) is Some ==> blocks_problem(
            blocks,
            assistant,
            i,
        ) == user_block_problem(blocks[j]),
    decreases j - i,
{
    if i < j {
        assert(if assistant {
            assistant_block_problem(blocks[i]) is None
        } else {
            user_block_problem(blocks[i]) is None
        });
        law_the_first_faulty_block_is_told(blocks, assistant, i + 1, j);
    }
}

/// The first message with a fault is the one that is told.
pub proof fn law_the_first_faulty_message_is_told(
    messages: Seq<RequestMessage>,
    i: int,
    j: int,
)
    requires
        0 <= i <= j <= messages.len(),
        forall|k: int| i <= k < j ==> message_problem(#[trigger] messages[k]) is None,
    ensures
        j == messages.len() ==> messages_problem(messages, i) is None,
        j < messages.len() && message_problem(messages[j]) is Some ==> messages_problem(messages, i)
            == message_problem(messages[j]),
    decreases j - i,
{
    if i < j {
        assert(message_problem(messages[i]) is None);
        law_the_first_faulty_message_is_told(messages, i + 1, j);
    }
}

/// A message of the user is judged as a user turn and one of the assistant as an assistant turn;
/// no other role is known.
pub proof fn law_messages_are_judged_by_their_role(
    role: String,
    content: MessageContent,
    blocks: Vec<RequestContentBlock>,
)
    ensures
        ({
            let m = RequestMessage { role, content };
            let listed = RequestMessage { role, content: MessageContent::Blocks(blocks) };
            let known = role@ == "user"@ || role@ == "assistant"@;
            &&& !known ==> message_problem(m) == Some(
                "unsupported message role '"@ + role@ + "' (expected 'user' or 'assistant')"@,
            )
            &&& known && content is Text ==> message_problem(m) is None
            &&& role@ == "user"@ ==> message_problem(listed) == blocks_problem(blocks@, false, 0)
            &&& role@ == "assistant"@ ==> message_problem(listed) == blocks_problem(
                blocks@,
                true,
                0,
            )
        }),
{
    reveal_strlit("user");
    reveal_strlit("assistant");
    assert("user"@.len() != "assistant"@.len());
}

/// Blocks that stand where they do not belong are told in their own words.
pub proof fn law_misplaced_blocks_are_told(block: RequestContentBlock)
    ensures
        block is Image ==> user_block_problem(block) == Some(
            "image content is not supported (no vision models in v1)"@,
        ) && assistant_block_problem(block) == user_block_problem(block),
        block is ToolUse ==> user_block_problem(block) == Some(
            "'tool_use' blocks are only valid on assistant messages"@,
        ),
        block is Thinking || block is RedactedThinking ==> user_block_problem(block) == Some(
            "thinking blocks are only valid on assistant messages"@,
        ),
        block is ToolResult ==> assistant_block_problem(block) == Some(
            "'tool_result' blocks are only valid on user messages"@,
        ),
{
}

/// A message of the user adds to the conversation as a user turn, and any other as one message of
/// the assistant.
pub proof fn law_messages_add_by_their_role(said: Seq<ChatMessageView>, m: RequestMessage)
    ensures
        m.role@ == "user"@ ==> with_message(said, m) == with_user(said, m.content),
        m.role@ != "user"@ ==> with_message(said, m) == said.push(assistant_says(m.content)),
{
}

/// A tool without a schema takes an object of any properties.
pub proof fn law_open_schemas_take_any_object()
    ensures
        json::str_field(open_schema(), "type"@) == Some("object"@),
        json::field(open_schema(), "properties"@) == Some(JsonView::Object(Map::empty())),
{
    reveal_strlit("type");
    reveal_strlit("properties");
    assert("type"@.len() != "properties"@.len());
}

} // verus!
