//! Legacy text completions. Everything behind validation is the chat
//! machinery ([`crate::chat`]); only the prompt, which no template rendered,
//! and the wire shapes differ.

use crate::chat;
use crate::chat::ResponseHead;
use crate::chat::StreamEnd;
use crate::chat::SubmitPlan;
use crate::chat::TextPipeline;
use crate::error;
use crate::error::ApiError;
use crate::error::ApiErrorView;
use crate::json;
use crate::lifecycle::Command;
use crate::lifecycle::Lifecycle;
use crate::openai;
use crate::openai::CompletionChoice;
use crate::openai::CompletionRequest;
use crate::openai::TextCompletion;
use crate::openai::Usage;
use crate::openai::ValidatedCompletion;
use crate::prompt;
use crate::registry::ModelEntry;
use crate::registry::Registry;
use crate::text;
use crate::worker::Finished;
use vstd::prelude::*;
use vstd::string::*;

verus! {

/// Opens a text completion: the gates, then the checks on the request.
pub fn open_completion(
    registry: &Registry,
    ledger: &mut Lifecycle,
    request: &CompletionRequest,
    now_ms: u64,
) -> (r: (Result<(usize, ValidatedCompletion), ApiError>, Option<Command>))
    requires
        old(ledger).wf(),
        old(ledger)@.sums_fit(),
    ensures
        final(ledger).wf(),
        final(ledger)@.sums_fit(),
        final(ledger)@ == chat::after_entry(*registry, old(ledger)@, request.model@, now_ms),
        r.1 == chat::entry_command(*registry, old(ledger)@, request.model@),
        match r.0 {
            Ok((i, v)) => {
                &&& chat::entry_refusal(*registry, old(ledger)@, request.model@, now_ms) is None
                &&& registry.finds(i as int, request.model@)
                &&& request.accepts(v)
            },
            Err(e) => match chat::entry_refusal(
                *registry,
                old(ledger)@,
                request.model@,
                now_ms,
            ) {
                Some(refused) => e@ == refused,
                None => request.problem() is Some && e@ == error::invalid_request(
                    request.problem()->0,
                ),
            },
        },
{
    let (found, command) = chat::open_request(registry, ledger, request.model.as_str(), now_ms);
    match found {
        Err(e) => (Err(e), command),
        Ok(i) => match request.validate() {
            Err(e) => (Err(e), command),
            Ok(v) => (Ok((i, v)), command),
        },
    }
}

/// The submission of a validated text completion, once its prompt is
/// tokenized.
pub fn plan_completion(
    validated: &ValidatedCompletion,
    entry: &ModelEntry,
    request_id: &str,
    token_ids: Vec<u32>,
    max_context_len: u32,
) -> (r: Result<SubmitPlan, ApiError>)
    requires
        token_ids@.len() <= u32::MAX,
    ensures
        match r {
            Ok(plan) => {
                let n = token_ids@.len() as u32;
                &&& n > 0
                &&& !prompt::overflows(n, max_context_len)
                &&& chat::carries(
                    plan,
                    request_id@,
                    token_ids@,
                    validated.sampling,
                    openai::completion_cap(validated.max_tokens) as int,
                    chat::matched_by_worker(*entry, text::list_view(validated.stop_strings@)),
                )
            },
            Err(e) => if token_ids@.len() == 0 {
                e@ == error::invalid_request("prompt tokenized to no tokens"@)
            } else {
                prompt::overflows(token_ids@.len() as u32, max_context_len) && e@
                    == error::context_length_exceeded(
                    prompt::overflow_message(token_ids@.len() as u32, max_context_len),
                )
            },
        },
{
    if token_ids.len() == 0 {
        return Err(ApiError::invalid_request("prompt tokenized to no tokens".to_owned()));
    }
    let prompt_tokens: u32 = token_ids.len() as u32;
    let max_tokens: u32 = match validated.effective_max_tokens(prompt_tokens, max_context_len) {
        Ok(n) => n,
        Err(e) => return Err(e),
    };
    Ok(
        SubmitPlan {
            request_id: request_id.to_owned(),
            token_ids,
            sampling: validated.sampling,
            max_tokens,
            stop_strings: chat::worker_stop_strings(entry, &validated.stop_strings),
        },
    )
}

/// A body around one choice.
pub open spec fn is_text_body(
    c: TextCompletion,
    head: ResponseHead,
    text: Seq<char>,
    reason: Option<Seq<char>>,
    usage: Option<Option<Usage>>,
) -> bool {
    &&& is_text_frame(c, head, usage)
    &&& c.choices@.len() == 1
    &&& c.choices@[0].index == 0
    &&& c.choices@[0].text@ == text
    &&& match (c.choices@[0].finish_reason, reason) {
        (Some(a), Some(b)) => a@ == b,
        (None, None) => true,
        _ => false,
    }
}

/// What every body of a response carries.
pub open spec fn is_text_frame(
    c: TextCompletion,
    head: ResponseHead,
    usage: Option<Option<Usage>>,
) -> bool {
    &&& c.id@ == head.id@
    &&& c.object@ == "text_completion"@
    &&& c.created == head.created
    &&& c.model@ == head.model@
    &&& c.usage == usage
}

fn frame(head: &ResponseHead, choices: Vec<CompletionChoice>, usage: Option<Option<Usage>>) -> (r:
    TextCompletion)
    ensures
        is_text_frame(r, *head, usage),
        r.choices == choices,
{
    TextCompletion {
        id: head.id.clone(),
        object: "text_completion",
        created: head.created,
        model: head.model.clone(),
        choices,
        usage,
    }
}

fn body(
    head: &ResponseHead,
    text: String,
    finish_reason: Option<&'static str>,
    usage: Option<Option<Usage>>,
) -> (r: TextCompletion)
    ensures
        is_text_body(
            r,
            *head,
            text@,
            match finish_reason {
                Some(s) => Some(s@),
                None => None,
            },
            usage,
        ),
{
    let mut choices: Vec<CompletionChoice> = Vec::new();
    choices.push(CompletionChoice { index: 0, text, finish_reason });
    frame(head, choices, usage)
}

/// The chunk of a piece of text; an empty piece has none.
pub fn text_delta(head: &ResponseHead, text: String, include_usage: bool) -> (r: Option<
    TextCompletion,
>)
    ensures
        match r {
            None => text@.len() == 0,
            Some(c) => text@.len() > 0 && is_text_body(
                c,
                *head,
                text@,
                None,
                chat::usage_slot(include_usage),
            ),
        },
{
    if text.as_str().is_empty() {
        None
    } else {
        let usage: Option<Option<Usage>> = chat::usage_slot_of(include_usage);
        Some(body(head, text, None, usage))
    }
}

/// The usage a finished request reports.
pub open spec fn usage(finished: Finished) -> Usage {
    Usage {
        prompt_tokens: finished.prompt_tokens,
        completion_tokens: finished.completion_tokens,
        total_tokens: (finished.prompt_tokens + finished.completion_tokens) as u32,
    }
}

/// The full response of a text completion that was collected.
pub fn finish_text(head: &ResponseHead, text: String, pipeline: &TextPipeline, finished: Finished)
    -> (r: Result<TextCompletion, ApiError>)
    requires
        finished.prompt_tokens + chat::final_count(pipeline@, finished) <= u32::MAX,
    ensures
        match r {
            Err(e) => chat::outcome(finished, pipeline@.matched()) == Err::<
                Seq<char>,
                ApiErrorView,
            >(e@),
            Ok(c) => chat::outcome(finished, pipeline@.matched()) is Ok && is_text_body(
                c,
                *head,
                text@,
                Some(chat::outcome(finished, pipeline@.matched())->Ok_0),
                Some(
                    Some(
                        usage(
                            Finished {
                                completion_tokens: chat::final_count(pipeline@, finished),
                                ..finished
                            },
                        ),
                    ),
                ),
            ),
        },
{
    match chat::settle_stream(pipeline, finished) {
        StreamEnd::Failed(e) => Err(e),
        StreamEnd::Done { finished, finish_reason } => {
            let u: Usage = chat::usage_of(&finished);
            Ok(body(head, text, Some(finish_reason), Some(Some(u))))
        },
    }
}

/// One event of a stream.
#[derive(Debug)]
pub enum TextItem {
    Chunk(TextCompletion),
    Error(ApiError),
    /// The end marker of a stream that completed.
    Done,
}

/// What a stream's event carries on the wire.
pub open spec fn item_data(item: TextItem) -> Seq<char> {
    match item {
        TextItem::Chunk(c) => json::printed(c.spec_json()),
        TextItem::Error(e) => json::printed(e@.body()),
        TextItem::Done => "[DONE]"@,
    }
}

impl TextItem {
    /// The payload of the event.
    pub fn data(&self) -> (r: String)
        ensures
            r@ == item_data(*self),
    {
        match self {
            TextItem::Chunk(c) => json::print(&c.to_json()),
            TextItem::Error(e) => json::print(&e.body()),
            TextItem::Done => "[DONE]".to_owned(),
        }
    }
}

/// The events that end a stream: on success the finish reason, the usage where
/// the client asked for it and the end marker; otherwise the error and no end
/// marker.
pub open spec fn is_ending(
    items: Seq<TextItem>,
    head: ResponseHead,
    finished: Finished,
    result: Result<Seq<char>, ApiErrorView>,
    include_usage: bool,
) -> bool {
    match result {
        Err(e) => items.len() == 1 && items[0] is Error && items[0]->Error_0@ == e,
        Ok(reason) => {
            &&& items.len() == (if include_usage {
                3int
            } else {
                2
            })
            &&& items[0] is Chunk
            &&& is_text_body(
                items[0]->Chunk_0,
                head,
                Seq::empty(),
                Some(reason),
                chat::usage_slot(include_usage),
            )
            &&& include_usage ==> {
                &&& items[1] is Chunk
                &&& (items[1]->Chunk_0).choices@.len() == 0
                &&& is_text_frame(items[1]->Chunk_0, head, Some(Some(usage(finished))))
            }
            &&& items.last() is Done
        },
    }
}

/// Ends a text completion stream.
pub fn finish_text_stream(
    head: &ResponseHead,
    pipeline: &TextPipeline,
    finished: Finished,
    include_usage: bool,
) -> (r: Vec<TextItem>)
    requires
        finished.prompt_tokens + chat::final_count(pipeline@, finished) <= u32::MAX,
    ensures
        is_ending(
            r@,
            *head,
            Finished { completion_tokens: chat::final_count(pipeline@, finished), ..finished },
            chat::outcome(finished, pipeline@.matched()),
            include_usage,
        ),
{
    let mut items: Vec<TextItem> = Vec::new();
    match chat::settle_stream(pipeline, finished) {
        StreamEnd::Failed(e) => {
            items.push(TextItem::Error(e));
        },
        StreamEnd::Done { finished, finish_reason } => {
            let empty: String = String::new();
            assert(empty@ =~= Seq::<char>::empty());
            let slot: Option<Option<Usage>> = chat::usage_slot_of(include_usage);
            items.push(TextItem::Chunk(body(head, empty, Some(finish_reason), slot)));
            if include_usage {
                let u: Usage = chat::usage_of(&finished);
                items.push(TextItem::Chunk(frame(head, Vec::new(), Some(Some(u)))));
            }
            items.push(TextItem::Done);
        },
    }
    items
}

/// A body carries the request's head, one choice with its text, and why it ended where
/// it ended.
pub proof fn law_bodies_carry_the_text(
    c: TextCompletion,
    head: ResponseHead,
    text: Seq<char>,
    reason: Option<Seq<char>>,
    usage: Option<Option<Usage>>,
)
    requires
        is_text_body(c, head, text, reason, usage),
    ensures
        c.id@ == head.id@,
        c.object@ == "text_completion"@,
        c.created == head.created,
        c.model@ == head.model@,
        c.usage == usage,
        c.choices@.len() == 1,
        c.choices@[0].index == 0,
        c.choices@[0].text@ == text,
        reason is Some ==> c.choices@[0].finish_reason is Some && c.choices@[0].finish_reason->0@
            == reason->0,
        reason is None ==> c.choices@[0].finish_reason is None,
{
}

/// Usage is what the prompt took, what was generated, and the sum of both.
pub proof fn law_usage_adds_up(finished: Finished)
    requires
        finished.prompt_tokens + finished.completion_tokens <= u32::MAX,
    ensures
        usage(finished).prompt_tokens == finished.prompt_tokens,
        usage(finished).completion_tokens == finished.completion_tokens,
        usage(finished).total_tokens == finished.prompt_tokens + finished.completion_tokens,
{
}

/// A stream that completed ends with why it ended, with the usage where the client asked
/// for it, and with the end marker; one that failed ends with the error and without the
/// marker.
pub proof fn law_streams_end_once(
    items: Seq<TextItem>,
    head: ResponseHead,
    finished: Finished,
    result: Result<Seq<char>, ApiErrorView>,
    include_usage: bool,
)
    requires
        is_ending(items, head, finished, result, include_usage),
    ensures
        result is Err ==> items.len() == 1 && items[0] is Error && items[0]->Error_0@
            == result->Err_0,
        result is Ok ==> {
            let last = items[0]->Chunk_0;
            &&& items.last() is Done
            &&& items.len() == (if include_usage {
                3int
            } else {
                2
            })
            &&& items[0] is Chunk
            &&& last.choices@.len() == 1
            &&& last.choices@[0].text@.len() == 0
            &&& last.choices@[0].finish_reason is Some
            &&& last.choices@[0].finish_reason->0@ == result->Ok_0
        },
        result is Ok && include_usage ==> items[1] is Chunk && (items[1]->Chunk_0).choices@.len()
            == 0 && (items[1]->Chunk_0).usage == Some(Some(usage(finished))),
{
}

/// On the wire a chunk is its JSON, an error its envelope, and the end marker `[DONE]`.
pub proof fn law_events_are_written_as_json(item: TextItem)
    ensures
        item is Chunk ==> item_data(item) == json::printed(item->Chunk_0.spec_json()),
        item is Error ==> item_data(item) == json::printed(item->Error_0@.body()),
        item is Done ==> item_data(item) == "[DONE]"@,
{
}

} // verus!
