//! A chat completion from its first chunk to its last: as a stream of events,
//! and as one collected response. Detokenization and tool-call parsing happen
//! outside between the steps; each step says what is to happen next.

use crate::chat;
use crate::chat::ChatItem;
use crate::chat::PipelineView;
use crate::chat::Released;
use crate::chat::ResponseHead;
use crate::chat::TailRelease;
use crate::chat::TextPipeline;
use crate::chat::ToolEvent;
use crate::chat::ToolEventView;
use crate::chat::ToolRoute;
use crate::chat::Turn;
use crate::chat::TurnView;
use crate::error::ApiError;
use crate::error::ApiErrorView;
use crate::openai::ChatCompletion;
use crate::openai::ChatCompletionChunk;
use crate::registry::ModelEntry;
use crate::text;
use crate::worker::Finished;
use vstd::prelude::*;
use vstd::string::*;

verus! {

/// What follows a chunk of tokens.
#[derive(Debug)]
pub enum ChunkStep {
    /// Route the text; cancel the worker where that is asked for.
    Route { text: String, cancel: bool },
    /// The request is over with this error.
    Fail(ApiError),
}

/// What a chunk of tokens leads to.
pub open spec fn is_chunk_step(
    step: ChunkStep,
    before: PipelineView,
    after: PipelineView,
    expected: Result<Seq<char>, ApiErrorView>,
) -> bool {
    match step {
        ChunkStep::Route { text, cancel } => expected == Ok::<Seq<char>, ApiErrorView>(text@)
            && cancel == (!before.matched() && after.matched()),
        ChunkStep::Fail(e) => expected == Err::<Seq<char>, ApiErrorView>(e@),
    }
}

fn take_chunk(
    pipeline: &mut TextPipeline,
    chunk: String,
    count: u32,
    decoded: Option<Result<Released, String>>,
) -> (r: ChunkStep)
    requires
        old(pipeline)@.wants() ==> decoded is Some && old(pipeline)@.seen + count <= u32::MAX,
    ensures
        old(pipeline)@.wants() ==> final(pipeline)@ == old(pipeline)@.after_push(
            count,
            chat::decoded_view(decoded->0),
        ),
        !old(pipeline)@.wants() ==> final(pipeline)@ == old(pipeline)@,
        is_chunk_step(
            r,
            old(pipeline)@,
            final(pipeline)@,
            old(pipeline)@.text_of(chunk@, chat::decoded_view(decoded->0)),
        ),
{
    match pipeline.step(chunk, count, decoded) {
        Ok((text, cancel)) => ChunkStep::Route { text, cancel },
        Err(e) => ChunkStep::Fail(e),
    }
}

/// A response that is streamed.
#[derive(Debug)]
pub struct ChatStream {
    pub head: ResponseHead,
    pub pipeline: TextPipeline,
    pub route: ToolRoute,
    pub include_usage: bool,
}

/// The events of a stream are the deltas of a run of parsed output.
pub open spec fn are_deltas(
    items: Seq<ChatItem>,
    head: ResponseHead,
    include_usage: bool,
    events: Seq<ToolEventView>,
) -> bool {
    &&& items.len() == chat::visible(events).len()
    &&& forall|i: int|
        0 <= i < items.len() ==> {
            let item = #[trigger] items[i];
            &&& item is Chunk
            &&& is_delta(item->Chunk_0, head, include_usage, chat::visible(events)[i])
        }
}

/// A chunk carries the delta of one event.
pub open spec fn is_delta(
    c: ChatCompletionChunk,
    head: ResponseHead,
    include_usage: bool,
    e: ToolEventView,
) -> bool {
    &&& chat::is_delta_chunk(c, head, chat::usage_slot(include_usage))
    &&& c.choices@.len() == 1
    &&& c.choices@[0].index == 0
    &&& c.choices@[0].finish_reason is None
    &&& chat::fresh_delta(c.choices@[0].delta, e)
}

/// The opening event of a stream: it names the role, with no text.
pub open spec fn is_opening(item: ChatItem, head: ResponseHead, include_usage: bool) -> bool {
    &&& item is Chunk
    &&& ({
        let c = item->Chunk_0;
        &&& chat::is_delta_chunk(c, head, chat::usage_slot(include_usage))
        &&& c.choices@.len() == 1
        &&& c.choices@[0].index == 0
        &&& c.choices@[0].finish_reason is None
        &&& c.choices@[0].delta.role is Some
        &&& c.choices@[0].delta.role->0@ == "assistant"@
        &&& text::opt_view(c.choices@[0].delta.content) == Some(Seq::<char>::empty())
        &&& c.choices@[0].delta.tool_calls is None
    })
}

impl ChatStream {
    /// Opens a stream, with its first event.
    pub fn open(head: ResponseHead, entry: &ModelEntry, parses: bool, include_usage: bool) -> (r: (
        Self,
        ChatItem,
    ))
        ensures
            r.0.head == head,
            r.0.pipeline@ == chat::fresh_pipeline(*entry),
            r.0.route == (ToolRoute { parses, calls_completed: 0 }),
            r.0.include_usage == include_usage,
            is_opening(r.1, head, include_usage),
    {
        let first: ChatItem = ChatItem::Chunk(chat::chat_preamble(&head, include_usage));
        let stream: ChatStream = ChatStream {
            head,
            pipeline: TextPipeline::for_entry(entry),
            route: ToolRoute::new(parses),
            include_usage,
        };
        (stream, first)
    }

    /// Takes a chunk of `count` tokens: `chunk` is the text a worker with its
    /// own tokenizer sent, `decoded` what the tokens decoded to where decoding
    /// is wanted.
    pub fn on_tokens(
        &mut self,
        chunk: String,
        count: u32,
        decoded: Option<Result<Released, String>>,
    ) -> (r: ChunkStep)
        requires
            old(self).pipeline@.wants() ==> decoded is Some && old(self).pipeline@.seen + count
                <= u32::MAX,
        ensures
            old(self).pipeline@.wants() ==> final(self).pipeline@ == old(
                self,
            ).pipeline@.after_push(count, chat::decoded_view(decoded->0)),
            !old(self).pipeline@.wants() ==> final(self).pipeline@ == old(self).pipeline@,
            final(self).head == old(self).head,
            final(self).route == old(self).route,
            final(self).include_usage == old(self).include_usage,
            is_chunk_step(
                r,
                old(self).pipeline@,
                final(self).pipeline@,
                old(self).pipeline@.text_of(chunk@, chat::decoded_view(decoded->0)),
            ),
    {
        take_chunk(&mut self.pipeline, chunk, count, decoded)
    }

    /// The events of a text: `parsed` is what the tool-call parser made of it,
    /// where there is one.
    pub fn on_routed(&mut self, text: String, parsed: Vec<ToolEvent>) -> (r: Vec<ChatItem>)
        requires
            old(self).route.parses ==> old(self).route.calls_completed + chat::ends(
                chat::events_view(parsed@),
            ) <= usize::MAX,
        ensures
            final(self).head == old(self).head,
            final(self).pipeline == old(self).pipeline,
            final(self).include_usage == old(self).include_usage,
            final(self).route.parses == old(self).route.parses,
            final(self).route.calls_completed == old(self).route.calls_completed + (if old(
                self,
            ).route.parses {
                chat::ends(chat::events_view(parsed@))
            } else {
                0
            }),
            are_deltas(
                r@,
                old(self).head,
                old(self).include_usage,
                chat::routed(old(self).route.parses, text@, chat::events_view(parsed@)),
            ),
    {
        let events: Vec<ToolEvent> = self.route.push(text, parsed);
        let ghost all = chat::events_view(events@);
        let mut chunks: Vec<ChatCompletionChunk> = chat::chat_deltas(
            &self.head,
            events,
            self.include_usage,
        );
        let ghost made = chunks@;
        let mut items: Vec<ChatItem> = Vec::new();
        let n: usize = chunks.len();
        let mut i: usize = 0;
        assert(made.subrange(0, n as int) =~= made);
        while i < n
            invariant
                i <= n,
                n == made.len(),
                chunks@ == made.subrange(i as int, n as int),
                items@.len() == i,
                forall|j: int| 0 <= j < i ==> #[trigger] items@[j] == ChatItem::Chunk(made[j]),
            decreases n - i,
        {
            let c: ChatCompletionChunk = chunks.remove(0);
            assert(c == made[i as int]);
            assert(chunks@ =~= made.subrange(i + 1, n as int));
            items.push(ChatItem::Chunk(c));
            i = i + 1;
        }
        assert forall|j: int| 0 <= j < items@.len() implies ({
            let item = #[trigger] items@[j];
            &&& item is Chunk
            &&& is_delta(
                item->Chunk_0,
                self.head,
                self.include_usage,
                chat::visible(all)[j],
            )
        }) by {
            let c = made[j];
            assert(items@[j] == ChatItem::Chunk(c));
        }
        items
    }

    /// The text that ends a stream whose worker finished; it is routed like
    /// any other.
    pub fn on_tail(&mut self, tail: Option<Result<TailRelease, String>>) -> (r: Result<
        String,
        ApiError,
    >)
        requires
            old(self).pipeline@.wants() ==> tail is Some,
        ensures
            old(self).pipeline@.wants() ==> final(self).pipeline@ == old(
                self,
            ).pipeline@.after_push(0, chat::tail_view(tail->0)),
            !old(self).pipeline@.wants() ==> final(self).pipeline@ == old(self).pipeline@,
            final(self).head == old(self).head,
            final(self).route == old(self).route,
            final(self).include_usage == old(self).include_usage,
            ({
                let expected = old(self).pipeline@.text_of(
                    Seq::empty(),
                    chat::tail_view(tail->0),
                );
                match r {
                    Ok(s) => expected == Ok::<Seq<char>, ApiErrorView>(s@),
                    Err(e) => expected == Err::<Seq<char>, ApiErrorView>(e@),
                }
            }),
    {
        self.pipeline.finish(tail)
    }

    /// The events that end the stream, once the worker finished and its tail
    /// is routed.
    pub fn end(self, finished: Finished) -> (r: Vec<ChatItem>)
        requires
            finished.prompt_tokens + chat::final_count(self.pipeline@, finished) <= u32::MAX,
        ensures
            chat::is_ending(
                r@,
                self.head,
                self.route.calls_completed,
                Finished {
                    completion_tokens: chat::final_count(self.pipeline@, finished),
                    ..finished
                },
                chat::outcome(finished, self.pipeline@.matched()),
                self.include_usage,
            ),
    {
        chat::finish_stream(
            &self.head,
            &self.pipeline,
            &self.route,
            finished,
            self.include_usage,
        )
    }
}

/// A response that is collected.
#[derive(Debug)]
pub struct ChatCollector {
    pub head: ResponseHead,
    pub pipeline: TextPipeline,
    pub route: ToolRoute,
    pub turn: Turn,
}

fn fresh_ids(n: usize) -> (r: Vec<String>)
    ensures
        r@.len() == n,
        chat::all_tagged(text::list_view(r@), "call_"@),
{
    let mut ids: Vec<String> = Vec::new();
    let mut i: usize = 0;
    while i < n
        invariant
            i <= n,
            ids@.len() == i,
            chat::all_tagged(text::list_view(ids@), "call_"@),
        decreases n - i,
    {
        let ghost before = text::list_view(ids@);
        let id: String = chat::new_call_id();
        ids.push(id);
        assert(text::list_view(ids@) =~= before.push(id@));
        i = i + 1;
    }
    ids
}

impl ChatCollector {
    pub fn open(head: ResponseHead, entry: &ModelEntry, parses: bool) -> (r: Self)
        ensures
            r.head == head,
            r.pipeline@ == chat::fresh_pipeline(*entry),
            r.route == (ToolRoute { parses, calls_completed: 0 }),
            r.turn@ == (TurnView { content: Seq::empty(), calls: Seq::empty() }),
    {
        ChatCollector {
            head,
            pipeline: TextPipeline::for_entry(entry),
            route: ToolRoute::new(parses),
            turn: Turn::new(),
        }
    }

    /// Takes a chunk of `count` tokens, as a stream does.
    pub fn on_tokens(
        &mut self,
        chunk: String,
        count: u32,
        decoded: Option<Result<Released, String>>,
    ) -> (r: ChunkStep)
        requires
            old(self).pipeline@.wants() ==> decoded is Some && old(self).pipeline@.seen + count
                <= u32::MAX,
        ensures
            old(self).pipeline@.wants() ==> final(self).pipeline@ == old(
                self,
            ).pipeline@.after_push(count, chat::decoded_view(decoded->0)),
            !old(self).pipeline@.wants() ==> final(self).pipeline@ == old(self).pipeline@,
            final(self).head == old(self).head,
            final(self).route == old(self).route,
            final(self).turn == old(self).turn,
            is_chunk_step(
                r,
                old(self).pipeline@,
                final(self).pipeline@,
                old(self).pipeline@.text_of(chunk@, chat::decoded_view(decoded->0)),
            ),
    {
        take_chunk(&mut self.pipeline, chunk, count, decoded)
    }

    /// Adds a text to the response: `parsed` is what the tool-call parser made
    /// of it, where there is one. A parser whose arguments belong to no call
    /// that has started is at fault, and nothing is added.
    pub fn on_routed(&mut self, text: String, parsed: Vec<ToolEvent>) -> (known: bool)
        requires
            old(self).route.parses ==> old(self).route.calls_completed + chat::ends(
                chat::events_view(parsed@),
            ) <= usize::MAX,
            old(self).turn.calls@.len() + parsed@.len() < usize::MAX,
        ensures
            final(self).head == old(self).head,
            final(self).pipeline == old(self).pipeline,
            ({
                let events = chat::routed(
                    old(self).route.parses,
                    text@,
                    chat::events_view(parsed@),
                );
                &&& known == chat::calls_known(old(self).turn@.calls.len(), events)
                &&& final(self).turn@ == (if known {
                    chat::with_events(old(self).turn@, events)
                } else {
                    old(self).turn@
                })
            }),
            final(self).route.parses == old(self).route.parses,
            final(self).route.calls_completed == old(self).route.calls_completed + (if old(
                self,
            ).route.parses {
                chat::ends(chat::events_view(parsed@))
            } else {
                0
            }),
    {
        let ghost n = parsed@.len();
        let ghost given = chat::events_view(parsed@);
        let events: Vec<ToolEvent> = self.route.push(text, parsed);
        proof {
            let all = chat::events_view(events@);
            assert(all.len() == events@.len());
            assert(given.len() == n);
            assert(all.len() <= n || all.len() <= 1);
        }
        let known: bool = chat::known_calls(self.turn.calls.len(), &events);
        if known {
            self.turn.apply(&events);
        }
        known
    }

    /// The text that ends the response of a worker that finished.
    pub fn on_tail(&mut self, tail: Option<Result<TailRelease, String>>) -> (r: Result<
        String,
        ApiError,
    >)
        requires
            old(self).pipeline@.wants() ==> tail is Some,
        ensures
            old(self).pipeline@.wants() ==> final(self).pipeline@ == old(
                self,
            ).pipeline@.after_push(0, chat::tail_view(tail->0)),
            !old(self).pipeline@.wants() ==> final(self).pipeline@ == old(self).pipeline@,
            final(self).head == old(self).head,
            final(self).route == old(self).route,
            final(self).turn == old(self).turn,
            ({
                let expected = old(self).pipeline@.text_of(
                    Seq::empty(),
                    chat::tail_view(tail->0),
                );
                match r {
                    Ok(s) => expected == Ok::<Seq<char>, ApiErrorView>(s@),
                    Err(e) => expected == Err::<Seq<char>, ApiErrorView>(e@),
                }
            }),
    {
        self.pipeline.finish(tail)
    }

    /// The response, once the worker finished and its tail is routed. Every
    /// call gets a fresh id.
    pub fn end(self, finished: Finished) -> (r: Result<ChatCompletion, ApiError>)
        requires
            finished.prompt_tokens + chat::final_count(self.pipeline@, finished) <= u32::MAX,
        ensures
            match r {
                Err(e) => chat::outcome(finished, self.pipeline@.matched()) == Err::<
                    Seq<char>,
                    ApiErrorView,
                >(e@),
                Ok(c) => chat::outcome(finished, self.pipeline@.matched()) is Ok && exists|
                    ids: Seq<Seq<char>>,
                | #[trigger]
                    chat::is_chat_completion(
                        c,
                        self.head,
                        self.turn,
                        self.route.calls_completed,
                        Finished {
                            completion_tokens: chat::final_count(self.pipeline@, finished),
                            ..finished
                        },
                        chat::outcome(finished, self.pipeline@.matched())->Ok_0,
                        ids,
                    ) && ids.len() == self.turn.calls@.len() && chat::all_tagged(ids, "call_"@),
            },
    {
        let ids: Vec<String> = fresh_ids(self.turn.calls.len());
        chat::finish_collected(
            self.head,
            self.turn,
            &self.pipeline,
            &self.route,
            finished,
            ids,
        )
    }
}

/// A step lets the chunk's text through and asks for the worker's end at the chunk that
/// completes a stop string, and only there; a chunk that does not decode ends the
/// request.
pub proof fn law_workers_are_cancelled_at_the_match(
    step: ChunkStep,
    before: PipelineView,
    after: PipelineView,
    expected: Result<Seq<char>, ApiErrorView>,
)
    requires
        is_chunk_step(step, before, after, expected),
    ensures
        step is Route <==> expected is Ok,
        step is Route ==> step->text@ == expected->Ok_0 && (step->cancel <==> !before.matched()
            && after.matched()),
        step is Fail ==> step->Fail_0@ == expected->Err_0,
{
}

/// A stream opens with the role of the assistant and no text.
pub proof fn law_streams_open_with_the_role(
    item: ChatItem,
    head: ResponseHead,
    include_usage: bool,
)
    requires
        is_opening(item, head, include_usage),
    ensures
        item is Chunk,
        (item->Chunk_0).id@ == head.id@,
        (item->Chunk_0).model@ == head.model@,
        (item->Chunk_0).choices@.len() == 1,
        (item->Chunk_0).choices@[0].delta.role is Some,
        (item->Chunk_0).choices@[0].delta.role->0@ == "assistant"@,
        (item->Chunk_0).choices@[0].delta.content is Some,
        (item->Chunk_0).choices@[0].delta.content->0@.len() == 0,
        (item->Chunk_0).choices@[0].finish_reason is None,
{
}

/// Every visible event has its chunk, in order; a chunk of content carries that text.
pub proof fn law_chunks_follow_the_events(
    items: Seq<ChatItem>,
    head: ResponseHead,
    include_usage: bool,
    events: Seq<ToolEventView>,
    i: int,
)
    requires
        are_deltas(items, head, include_usage, events),
        0 <= i < chat::visible(events).len(),
    ensures
        items.len() == chat::visible(events).len(),
        items[i] is Chunk,
        (items[i]->Chunk_0).choices@.len() == 1,
        (items[i]->Chunk_0).choices@[0].finish_reason is None,
        (items[i]->Chunk_0).model@ == head.model@,
        chat::visible(events)[i] is Content ==> {
            let d = (items[i]->Chunk_0).choices@[0].delta;
            d.content is Some && d.content->0@ == chat::visible(events)[i]->Content_0
                && d.tool_calls is None
        },
        chat::visible(events)[i] is CallStart ==> {
            let d = (items[i]->Chunk_0).choices@[0].delta;
            &&& d.tool_calls is Some && d.tool_calls->0@.len() == 1
            &&& d.tool_calls->0@[0].name is Some
            &&& d.tool_calls->0@[0].name->0@ == chat::visible(events)[i]->name
            &&& d.tool_calls->0@[0].id is Some
            &&& chat::is_tagged_id(d.tool_calls->0@[0].id->0@, "call_"@)
        },
        chat::visible(events)[i] is CallArgs ==> {
            let d = (items[i]->Chunk_0).choices@[0].delta;
            &&& d.tool_calls is Some && d.tool_calls->0@.len() == 1
            &&& d.tool_calls->0@[0].arguments@ == chat::visible(events)[i]->delta
            &&& d.tool_calls->0@[0].index == chat::visible(events)[i]->CallArgs_index
        },
{
    let item = items[i];
    let e = chat::visible(events)[i];
    assert(is_delta(item->Chunk_0, head, include_usage, e));
    let d = (item->Chunk_0).choices@[0].delta;
    let id = choose|id: Seq<char>| #[trigger]
        chat::delta_ok(d, e, id) && (e is CallStart ==> chat::is_tagged_id(id, "call_"@));
    chat::law_deltas_carry_the_event(d, e, id);
}

/// The opening event calls no tool, and carries what every event of the stream does.
pub proof fn law_openings_call_no_tool(item: ChatItem, head: ResponseHead, include_usage: bool)
    requires
        is_opening(item, head, include_usage),
    ensures
        (item->Chunk_0).choices@[0].delta.tool_calls is None,
        (item->Chunk_0).choices@[0].index == 0,
        (item->Chunk_0).created == head.created,
{
}

} // verus!
