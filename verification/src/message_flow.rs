//! How a messages response runs its course: collected into one body or sent as
//! named events, in one round or over the rounds in which tools are executed.

use crate::anthropic::ContentBlock;
use crate::anthropic::MessageDelta;
use crate::anthropic::MessageDeltaEvent;
use crate::anthropic::MessageDeltaUsage;
use crate::anthropic::MessageStopEvent;
use crate::anthropic::MessagesResponse;
use crate::anthropic::Usage;
use crate::chat;
use crate::chat::CallText;
use crate::chat::CallTextView;
use crate::chat::StreamEnd;
use crate::chat::TextPipeline;
use crate::error::ApiError;
use crate::error::ApiErrorView;
use crate::json;
use crate::json::JsonView;
use crate::mcp;
use crate::mcp::McpRounds;
use crate::messages;
use crate::messages::BlockAssembler;
use crate::messages::BlockFrame;
use crate::messages::BlockStreamer;
use crate::messages::FrameView;
use crate::messages::Segment;
use crate::messages::SegmentView;
use crate::text;
use crate::worker::Finished;
use serde_json::Value;
use vstd::prelude::*;
use vstd::string::*;

verus! {

/// What every response of a request carries.
#[derive(Debug)]
pub struct MessageHead {
    pub id: String,
    pub model: String,
}

/// The body of a response.
pub open spec fn is_message(
    r: MessagesResponse,
    head: MessageHead,
    content: Seq<JsonView>,
    stop: Option<(Seq<char>, Option<Seq<char>>)>,
    usage: Usage,
) -> bool {
    &&& r.id@ == head.id@
    &&& r.response_type@ == "message"@
    &&& r.role@ == "assistant"@
    &&& r.model@ == head.model@
    &&& messages::content_json(r.content@) == content
    &&& match (r.stop_reason, stop) {
        (None, None) => r.stop_sequence is None,
        (Some(a), Some((reason, sequence))) => a@ == reason && text::opt_view(r.stop_sequence)
            == sequence,
        _ => false,
    }
    &&& r.usage == usage
}

fn body(
    head: &MessageHead,
    content: Vec<ContentBlock>,
    stop_reason: &'static str,
    stop_sequence: Option<String>,
    usage: Usage,
) -> (r: MessagesResponse)
    ensures
        is_message(
            r,
            *head,
            messages::content_json(content@),
            Some((stop_reason@, text::opt_view(stop_sequence))),
            usage,
        ),
{
    MessagesResponse {
        id: head.id.clone(),
        response_type: "message",
        role: "assistant",
        model: head.model.clone(),
        content,
        stop_reason: Some(stop_reason),
        stop_sequence,
        usage,
    }
}

/// One event of a stream.
#[derive(Debug)]
pub enum MessageItem {
    /// The skeleton that the other events fill in.
    Start(MessagesResponse),
    Block(BlockFrame),
    Delta(MessageDeltaEvent),
    Stop,
    Error(ApiError),
}

/// The mathematical value of a [`MessageItem`].
#[verifier::ext_equal]
pub enum ItemView {
    Start(JsonView),
    Block(FrameView),
    Delta { reason: Seq<char>, sequence: Option<Seq<char>>, output_tokens: u32 },
    Stop,
    Error(ApiErrorView),
}

impl View for MessageItem {
    type V = ItemView;

    open spec fn view(&self) -> ItemView {
        match self {
            MessageItem::Start(r) => ItemView::Start(r.spec_json()),
            MessageItem::Block(f) => ItemView::Block(f@),
            MessageItem::Delta(e) => ItemView::Delta {
                reason: e.delta.stop_reason@,
                sequence: text::opt_view(e.delta.stop_sequence),
                output_tokens: e.usage.output_tokens,
            },
            MessageItem::Stop => ItemView::Stop,
            MessageItem::Error(e) => ItemView::Error(e@),
        }
    }
}

pub open spec fn items_view(items: Seq<MessageItem>) -> Seq<ItemView> {
    Seq::new(items.len(), |i: int| items[i]@)
}

/// The name of an event.
pub open spec fn event_name(item: MessageItem) -> Seq<char> {
    match item {
        MessageItem::Start(_) => "message_start"@,
        MessageItem::Block(BlockFrame::Start(_)) => "content_block_start"@,
        MessageItem::Block(BlockFrame::Delta(_)) => "content_block_delta"@,
        MessageItem::Block(BlockFrame::Stop(_)) => "content_block_stop"@,
        MessageItem::Delta(_) => "message_delta"@,
        MessageItem::Stop => "message_stop"@,
        MessageItem::Error(_) => "error"@,
    }
}

/// The payload of an event.
pub open spec fn event_payload(item: MessageItem) -> JsonView {
    match item {
        MessageItem::Start(r) => r.spec_start_event(),
        MessageItem::Block(BlockFrame::Start(e)) => e.spec_json(),
        MessageItem::Block(BlockFrame::Delta(e)) => e.spec_json(),
        MessageItem::Block(BlockFrame::Stop(e)) => e.spec_json(),
        MessageItem::Delta(e) => e.spec_json(),
        MessageItem::Stop => (MessageStopEvent {  }).spec_json(),
        MessageItem::Error(e) => e@.anthropic_body(),
    }
}

impl MessageItem {
    /// The name of the event, which its payload repeats as its type.
    pub fn event(&self) -> (r: &'static str)
        ensures
            r@ == event_name(*self),
    {
        match self {
            MessageItem::Start(_) => "message_start",
            MessageItem::Block(f) => match f {
                BlockFrame::Start(_) => "content_block_start",
                BlockFrame::Delta(_) => "content_block_delta",
                BlockFrame::Stop(_) => "content_block_stop",
            },
            MessageItem::Delta(_) => "message_delta",
            MessageItem::Stop => "message_stop",
            MessageItem::Error(_) => "error",
        }
    }

    /// The payload of the event.
    pub fn payload(&self) -> (r: Value)
        ensures
            json::contents(r) == event_payload(*self),
    {
        match self {
            MessageItem::Start(m) => m.start_event(),
            MessageItem::Block(f) => match f {
                BlockFrame::Start(e) => e.to_json(),
                BlockFrame::Delta(e) => e.to_json(),
                BlockFrame::Stop(e) => e.to_json(),
            },
            MessageItem::Delta(e) => e.to_json(),
            MessageItem::Stop => {
                let stop: MessageStopEvent = MessageStopEvent {  };
                stop.to_json()
            },
            MessageItem::Error(e) => e.anthropic_body(),
        }
    }

    /// The payload of the event, as it goes over the wire.
    pub fn data(&self) -> (r: String)
        ensures
            r@ == json::printed(event_payload(*self)),
    {
        json::print(&self.payload())
    }
}

/// An event's payload names its type as the event is named.
pub proof fn law_events_name_themselves(item: MessageItem)
    ensures
        json::str_field(event_payload(item), "type"@) == Some(event_name(item)),
{
    reveal_strlit("type");
    reveal_strlit("message");
    reveal_strlit("index");
    reveal_strlit("content_block");
    reveal_strlit("delta");
    reveal_strlit("usage");
    reveal_strlit("error");
    assert("type"@.len() == 4);
    assert("message"@.len() == 7);
    assert("index"@.len() == 5);
    assert("content_block"@.len() == 13);
    assert("delta"@.len() == 5);
    assert("usage"@.len() == 5);
    assert("error"@.len() == 5);
}

/// The event that starts a stream: the message without content.
pub fn start_stream(head: &MessageHead, prompt_tokens: u32) -> (r: MessageItem)
    ensures
        r is Start,
        is_message(
            r->Start_0,
            *head,
            Seq::empty(),
            None,
            Usage { input_tokens: prompt_tokens, output_tokens: 0 },
        ),
{
    let content: Vec<ContentBlock> = Vec::new();
    assert(messages::content_json(content@) =~= Seq::empty());
    MessageItem::Start(
        MessagesResponse {
            id: head.id.clone(),
            response_type: "message",
            role: "assistant",
            model: head.model.clone(),
            content,
            stop_reason: None,
            stop_sequence: None,
            usage: Usage { input_tokens: prompt_tokens, output_tokens: 0 },
        },
    )
}

/// The frames as events.
pub open spec fn block_items(frames: Seq<FrameView>) -> Seq<ItemView> {
    Seq::new(frames.len(), |i: int| ItemView::Block(frames[i]))
}

fn push_frames(frames: Vec<BlockFrame>, out: &mut Vec<MessageItem>)
    ensures
        items_view(final(out)@) == items_view(old(out)@) + block_items(
            messages::frames_view(frames@),
        ),
{
    let mut frames: Vec<BlockFrame> = frames;
    let ghost all = frames@;
    let ghost before = items_view(out@);
    let ghost views = block_items(messages::frames_view(all));
    let n: usize = frames.len();
    let mut i: usize = 0;
    assert(items_view(out@) =~= before + views.take(0));
    while i < n
        invariant
            i <= n,
            n == all.len(),
            frames@ == all.subrange(i as int, n as int),
            views == block_items(messages::frames_view(all)),
            items_view(out@) == before + views.take(i as int),
        decreases n - i,
    {
        let ghost old_out = out@;
        let frame: BlockFrame = frames.remove(0);
        assert(frame == all[i as int]);
        assert(frames@ =~= all.subrange(i + 1, n as int));
        out.push(MessageItem::Block(frame));
        assert(items_view(out@) =~= items_view(old_out).push(ItemView::Block(frame@)));
        assert(views[i as int] == ItemView::Block(frame@));
        assert(items_view(out@) =~= before + views.take(i + 1));
        i = i + 1;
    }
    assert(views.take(i as int) =~= views);
}

/// The events of a run of segments.
pub fn stream_segments(streamer: &mut BlockStreamer, segments: &Vec<Segment>) -> (r: Vec<
    MessageItem,
>)
    requires
        old(streamer).wf(),
        old(streamer).next_index + segments@.len() <= u64::MAX,
    ensures
        final(streamer).wf(),
        final(streamer)@ == old(streamer)@.after_all(messages::segments_view(segments@)),
        items_view(r@) == block_items(
            old(streamer)@.all_frames(messages::segments_view(segments@)),
        ),
{
    let mut frames: Vec<BlockFrame> = Vec::new();
    assert(messages::frames_view(frames@) =~= Seq::empty());
    streamer.on_segments(segments, &mut frames);
    assert(messages::frames_view(frames@) =~= old(streamer)@.all_frames(
        messages::segments_view(segments@),
    ));
    let mut out: Vec<MessageItem> = Vec::new();
    assert(items_view(out@) =~= Seq::empty());
    push_frames(frames, &mut out);
    assert(items_view(out@) =~= block_items(
        old(streamer)@.all_frames(messages::segments_view(segments@)),
    ));
    out
}

/// The events that end a stream: why it stopped and what it generated, or the
/// error.
pub open spec fn ending(
    result: Result<Seq<char>, ApiErrorView>,
    calls_completed: usize,
    matched: Option<Seq<char>>,
    stop_sequences: Seq<Seq<char>>,
    output_tokens: u32,
) -> Seq<ItemView> {
    match result {
        Err(e) => seq![ItemView::Error(e)],
        Ok(reason) => {
            let stop = messages::stop_reason_of(reason, calls_completed, matched, stop_sequences);
            seq![
                ItemView::Delta { reason: stop.0, sequence: stop.1, output_tokens },
                ItemView::Stop,
            ]
        },
    }
}

fn push_ending(
    out: &mut Vec<MessageItem>,
    finish_reason: &'static str,
    calls_completed: usize,
    matched: Option<String>,
    stop_sequences: &Vec<String>,
    output_tokens: u32,
)
    ensures
        items_view(final(out)@) == items_view(old(out)@) + ending(
            Ok(finish_reason@),
            calls_completed,
            text::opt_view(matched),
            text::list_view(stop_sequences@),
            output_tokens,
        ),
{
    let ghost before = out@;
    let ghost tail = ending(
        Ok(finish_reason@),
        calls_completed,
        text::opt_view(matched),
        text::list_view(stop_sequences@),
        output_tokens,
    );
    let (stop_reason, stop_sequence) = messages::anthropic_stop_reason(
        finish_reason,
        calls_completed,
        matched,
        stop_sequences,
    );
    out.push(
        MessageItem::Delta(
            MessageDeltaEvent {
                delta: MessageDelta { stop_reason, stop_sequence },
                usage: MessageDeltaUsage { output_tokens },
            },
        ),
    );
    out.push(MessageItem::Stop);
    assert(items_view(out@) =~= items_view(before) + tail);
}

/// The events that close a stream: those of the segments that are still to come,
/// the stop of the block that is open, and the ending.
pub open spec fn last_items(
    s: messages::StreamerView,
    segments: Seq<SegmentView>,
    end: Seq<ItemView>,
) -> Seq<ItemView> {
    block_items(s.all_frames(segments) + s.after_all(segments).close_frames()) + end
}

/// The usage of a stream of one round.
pub open spec fn settled_usage(pipeline: chat::PipelineView, finished: Finished) -> Usage {
    Usage {
        input_tokens: finished.prompt_tokens,
        output_tokens: chat::final_count(pipeline, finished),
    }
}

/// Ends a stream of one round: what the tail of the text still brings, the end
/// of the open block, and why the response stopped. On failure the error comes
/// in place of the reason, and the frames already sent stand.
pub fn finish_stream(
    streamer: &mut BlockStreamer,
    segments: &Vec<Segment>,
    pipeline: &TextPipeline,
    calls_completed: usize,
    finished: Finished,
    stop_sequences: &Vec<String>,
) -> (r: Vec<MessageItem>)
    requires
        old(streamer).wf(),
        old(streamer).next_index + segments@.len() <= u64::MAX,
    ensures
        items_view(r@) == last_items(
            old(streamer)@,
            messages::segments_view(segments@),
            ending(
                chat::outcome(finished, pipeline@.matched()),
                calls_completed,
                messages::matched_stop(pipeline@, finished),
                text::list_view(stop_sequences@),
                chat::final_count(pipeline@, finished),
            ),
        ),
        final(streamer).wf(),
        final(streamer)@ == old(streamer)@.after_all(messages::segments_view(segments@)).closed(),
{
    let ghost segs = messages::segments_view(segments@);
    let ghost close = old(streamer)@.after_all(segs).close_frames();
    let ghost all = old(streamer)@.all_frames(segs) + close;
    let mut frames: Vec<BlockFrame> = Vec::new();
    assert(messages::frames_view(frames@) =~= Seq::empty());
    streamer.on_segments(segments, &mut frames);
    streamer.close(&mut frames);
    assert(messages::frames_view(frames@) =~= all);
    let mut out: Vec<MessageItem> = Vec::new();
    assert(items_view(out@) =~= Seq::empty());
    push_frames(frames, &mut out);
    assert(items_view(out@) =~= block_items(all));
    let matched: Option<String> = messages::matched_stop_of(pipeline, &finished);
    let ghost before = out@;
    match chat::settle_stream(pipeline, finished) {
        StreamEnd::Failed(e) => {
            out.push(MessageItem::Error(e));
            assert(items_view(out@) =~= items_view(before) + seq![ItemView::Error(e@)]);
        },
        StreamEnd::Done { finished, finish_reason } => {
            push_ending(
                &mut out,
                finish_reason,
                calls_completed,
                matched,
                stop_sequences,
                finished.completion_tokens,
            );
        },
    }
    out
}

/// The response of one round that was collected.
pub fn finish_response(
    head: &MessageHead,
    assembler: BlockAssembler,
    pipeline: &TextPipeline,
    calls_completed: usize,
    finished: Finished,
    stop_sequences: &Vec<String>,
) -> (r: Result<MessagesResponse, ApiError>)
    ensures
        match r {
            Err(e) => chat::outcome(finished, pipeline@.matched()) == Err::<
                Seq<char>,
                ApiErrorView,
            >(e@),
            Ok(m) => chat::outcome(finished, pipeline@.matched()) is Ok && is_message(
                m,
                *head,
                messages::content_of(assembler@),
                Some(
                    messages::stop_reason_of(
                        chat::outcome(finished, pipeline@.matched())->Ok_0,
                        calls_completed,
                        messages::matched_stop(pipeline@, finished),
                        text::list_view(stop_sequences@),
                    ),
                ),
                settled_usage(pipeline@, finished),
            ),
        },
{
    let matched: Option<String> = messages::matched_stop_of(pipeline, &finished);
    match chat::settle_stream(pipeline, finished) {
        StreamEnd::Failed(e) => Err(e),
        StreamEnd::Done { finished, finish_reason } => {
            let (stop_reason, stop_sequence) = messages::anthropic_stop_reason(
                finish_reason,
                calls_completed,
                matched,
                stop_sequences,
            );
            let usage: Usage = messages::usage_of(&finished);
            Ok(body(head, assembler.into_content(), stop_reason, stop_sequence, usage))
        },
    }
}

/// What one round brought so far: the text for the history, the calls, and the
/// tool segments withheld until the round settles.
#[derive(Debug)]
pub struct RoundParts {
    pub text_content: String,
    pub calls: Vec<CallText>,
    pub tool_segments: Vec<Segment>,
}

/// The mathematical value of [`RoundParts`].
#[verifier::ext_equal]
pub struct PartsView {
    pub text: Seq<char>,
    pub calls: Seq<CallTextView>,
    pub tools: Seq<SegmentView>,
}

impl View for RoundParts {
    type V = PartsView;

    open spec fn view(&self) -> PartsView {
        PartsView {
            text: self.text_content@,
            calls: chat::call_texts(self.calls@),
            tools: messages::segments_view(self.tool_segments@),
        }
    }
}

impl PartsView {
    /// What a run of segments adds.
    pub open spec fn with(self, segments: Seq<SegmentView>) -> PartsView {
        PartsView {
            text: self.text + messages::text_of(segments),
            calls: messages::calls_with(self.calls, segments),
            tools: self.tools + messages::tools_of(segments),
        }
    }
}

impl RoundParts {
    pub fn new() -> (r: Self)
        ensures
            r@ == (PartsView { text: Seq::empty(), calls: Seq::empty(), tools: Seq::empty() }),
    {
        let r: RoundParts = RoundParts {
            text_content: String::new(),
            calls: Vec::new(),
            tool_segments: Vec::new(),
        };
        assert(r@ =~= (PartsView { text: Seq::empty(), calls: Seq::empty(), tools: Seq::empty() }));
        r
    }

    /// Takes a run of segments; what goes out at once is returned.
    pub fn take(&mut self, segments: Vec<Segment>) -> (r: Vec<Segment>)
        ensures
            ({
                let segs = messages::segments_view(segments@);
                &&& messages::segments_view(r@) == messages::live_of(segs)
                &&& final(self)@ == old(self)@.with(segs)
            }),
    {
        messages::split_segments(
            segments,
            &mut self.text_content,
            &mut self.calls,
            &mut self.tool_segments,
        )
    }
}

/// How a round settled.
#[derive(Debug)]
pub enum RoundEnd {
    /// Its calls are executed here and another round follows.
    Execute(Finished),
    /// It is the last: the response goes to the client.
    Respond { finished: Finished, finish_reason: &'static str },
    Failed(ApiError),
}

/// The rounds with a finished one counted.
pub open spec fn counted(rounds: McpRounds, prompt: u32, completion: u32, after: McpRounds) -> bool {
    &&& after.messages == rounds.messages
    &&& after.mcp == rounds.mcp
    &&& after.round == rounds.round
    &&& after.prompt_tokens_total == rounds.prompt_tokens_total + prompt
    &&& after.completion_tokens_total == rounds.completion_tokens_total + completion
}

/// How a round settles: a failed one changes nothing; another is counted, and its
/// calls are executed here or the response goes to the client.
pub open spec fn round_settled(
    before: McpRounds,
    parts: PartsView,
    pipeline: chat::PipelineView,
    calls_completed: usize,
    finished: Finished,
    end: RoundEnd,
    after: McpRounds,
) -> bool {
    let settled = chat::counted(pipeline, finished);
    match chat::outcome(finished, pipeline.matched()) {
        Err(e) => end is Failed && end->Failed_0@ == e && after == before,
        Ok(reason) => {
            &&& counted(before, settled.prompt_tokens, settled.completion_tokens, after)
            &&& if mcp::executes(
                before,
                reason,
                pipeline.matched(),
                parts.calls,
                calls_completed,
            ) {
                end == RoundEnd::Execute(settled)
            } else {
                end is Respond && end->finished == settled && end->finish_reason@ == reason
            }
        },
    }
}

/// Settles a round.
pub fn end_round(
    rounds: &mut McpRounds,
    parts: &RoundParts,
    pipeline: &TextPipeline,
    calls_completed: usize,
    finished: Finished,
) -> (r: RoundEnd)
    requires
        old(rounds).prompt_tokens_total <= u64::MAX - u32::MAX,
        old(rounds).completion_tokens_total <= u64::MAX - u32::MAX,
    ensures
        round_settled(
            *old(rounds),
            parts@,
            pipeline@,
            calls_completed,
            finished,
            r,
            *final(rounds),
        ),
{
    match chat::settle_stream(pipeline, finished) {
        StreamEnd::Failed(e) => RoundEnd::Failed(e),
        StreamEnd::Done { finished, finish_reason } => {
            rounds.count(&finished);
            if rounds.should_execute(
                finish_reason,
                pipeline.stop_matched(),
                &parts.calls,
                calls_completed,
            ) {
                RoundEnd::Execute(finished)
            } else {
                RoundEnd::Respond { finished, finish_reason }
            }
        },
    }
}

/// A total as the wire has room for it.
pub open spec fn clamped(n: u64) -> u32 {
    if n <= u32::MAX {
        n as u32
    } else {
        u32::MAX
    }
}

/// The usage over every round.
pub open spec fn totals(rounds: McpRounds) -> Usage {
    Usage {
        input_tokens: clamped(rounds.prompt_tokens_total),
        output_tokens: clamped(rounds.completion_tokens_total),
    }
}

fn clamp(n: u64) -> (r: u32)
    ensures
        r == clamped(n),
{
    if n <= u32::MAX as u64 {
        n as u32
    } else {
        u32::MAX
    }
}

/// The response of the last round: the withheld tool blocks surface, and the
/// usage sums every round.
pub fn respond_round(
    head: &MessageHead,
    assembler: BlockAssembler,
    parts: &RoundParts,
    rounds: &McpRounds,
    finish_reason: &'static str,
    calls_completed: usize,
    matched: Option<String>,
    stop_sequences: &Vec<String>,
) -> (r: MessagesResponse)
    ensures
        is_message(
            r,
            *head,
            messages::content_of(messages::blocks_of(assembler@, parts@.tools)),
            Some(
                messages::stop_reason_of(
                    finish_reason@,
                    calls_completed,
                    text::opt_view(matched),
                    text::list_view(stop_sequences@),
                ),
            ),
            totals(*rounds),
        ),
{
    let mut assembler: BlockAssembler = assembler;
    assembler.push_all(&parts.tool_segments);
    let (stop_reason, stop_sequence) = messages::anthropic_stop_reason(
        finish_reason,
        calls_completed,
        matched,
        stop_sequences,
    );
    let usage: Usage = Usage {
        input_tokens: clamp(rounds.prompt_tokens_total),
        output_tokens: clamp(rounds.completion_tokens_total),
    };
    body(head, assembler.into_content(), stop_reason, stop_sequence, usage)
}

/// The events of the last round's end: the withheld tool blocks surface, and
/// the usage sums every round.
pub fn stream_round_end(
    streamer: &mut BlockStreamer,
    parts: &RoundParts,
    rounds: &McpRounds,
    finish_reason: &'static str,
    calls_completed: usize,
    matched: Option<String>,
    stop_sequences: &Vec<String>,
) -> (r: Vec<MessageItem>)
    requires
        old(streamer).wf(),
        old(streamer).next_index + parts.tool_segments@.len() <= u64::MAX,
    ensures
        final(streamer).wf(),
        final(streamer)@ == old(streamer)@.after_all(parts@.tools).closed(),
        items_view(r@) == last_items(
            old(streamer)@,
            parts@.tools,
            ending(
                Ok(finish_reason@),
                calls_completed,
                text::opt_view(matched),
                text::list_view(stop_sequences@),
                totals(*rounds).output_tokens,
            ),
        ),
{
    let ghost all = old(streamer)@.all_frames(parts@.tools) + old(streamer)@.after_all(
        parts@.tools,
    ).close_frames();
    let mut frames: Vec<BlockFrame> = Vec::new();
    assert(messages::frames_view(frames@) =~= Seq::empty());
    streamer.on_segments(&parts.tool_segments, &mut frames);
    streamer.close(&mut frames);
    assert(messages::frames_view(frames@) =~= all);
    let mut out: Vec<MessageItem> = Vec::new();
    assert(items_view(out@) =~= Seq::empty());
    push_frames(frames, &mut out);
    assert(items_view(out@) =~= block_items(all));
    push_ending(
        &mut out,
        finish_reason,
        calls_completed,
        matched,
        stop_sequences,
        clamp(rounds.completion_tokens_total),
    );
    out
}

/// A stream that fails ends with its error; the frames already sent stand.
pub fn fail_stream(error: ApiError) -> (r: Vec<MessageItem>)
    ensures
        r@.len() == 1,
        r@[0] == MessageItem::Error(error),
{
    let mut items: Vec<MessageItem> = Vec::new();
    items.push(MessageItem::Error(error));
    items
}

/// A response carries its head, the content, why it stopped and the usage, and
/// speaks for the assistant.
pub proof fn law_responses_carry_what_was_said(
    r: MessagesResponse,
    head: MessageHead,
    content: Seq<JsonView>,
    stop: Option<(Seq<char>, Option<Seq<char>>)>,
    usage: Usage,
    i: int,
)
    requires
        is_message(r, head, content, stop, usage),
    ensures
        r.id@ == head.id@,
        r.model@ == head.model@,
        r.response_type@ == "message"@,
        r.role@ == "assistant"@,
        r.content@.len() == content.len(),
        0 <= i < content.len() ==> r.content@[i].spec_json() == content[i],
        stop is None <==> r.stop_reason is None,
        match stop {
            None => r.stop_sequence is None,
            Some((reason, sequence)) => r.stop_reason->0@ == reason && text::opt_view(
                r.stop_sequence,
            ) == sequence,
        },
        r.usage == usage,
{
    assert(0 <= i < content.len() ==> messages::content_json(r.content@)[i] == content[i]);
}

/// The events have the names of the wire format.
pub proof fn law_events_have_their_names(item: MessageItem)
    ensures
        match item {
            MessageItem::Start(_) => event_name(item) == "message_start"@,
            MessageItem::Block(f) => match f {
                BlockFrame::Start(_) => event_name(item) == "content_block_start"@,
                BlockFrame::Delta(_) => event_name(item) == "content_block_delta"@,
                BlockFrame::Stop(_) => event_name(item) == "content_block_stop"@,
            },
            MessageItem::Delta(_) => event_name(item) == "message_delta"@,
            MessageItem::Stop => event_name(item) == "message_stop"@,
            MessageItem::Error(_) => event_name(item) == "error"@,
        },
{
}

/// An event's payload is the event's own: the message that starts, the frame, the
/// delta or the error.
pub proof fn law_payloads_are_the_events_own(
    m: MessagesResponse,
    f: BlockFrame,
    d: MessageDeltaEvent,
    e: ApiError,
)
    ensures
        event_payload(MessageItem::Start(m)) == m.spec_start_event(),
        match f {
            BlockFrame::Start(s) => event_payload(MessageItem::Block(f)) == s.spec_json(),
            BlockFrame::Delta(s) => event_payload(MessageItem::Block(f)) == s.spec_json(),
            BlockFrame::Stop(s) => event_payload(MessageItem::Block(f)) == s.spec_json(),
        },
        event_payload(MessageItem::Delta(d)) == d.spec_json(),
        event_payload(MessageItem::Error(e)) == e@.anthropic_body(),
{
}

/// A stream that succeeds ends with why it stopped and what it generated, and then
/// the stop; one that fails ends with its error alone.
pub proof fn law_streams_end_once(
    reason: Seq<char>,
    error: ApiErrorView,
    calls_completed: usize,
    matched: Option<Seq<char>>,
    stop_sequences: Seq<Seq<char>>,
    output_tokens: u32,
)
    ensures
        ({
            let end = ending(Ok(reason), calls_completed, matched, stop_sequences, output_tokens);
            let stop = messages::stop_reason_of(reason, calls_completed, matched, stop_sequences);
            &&& end.len() == 2
            &&& end[0] == (ItemView::Delta { reason: stop.0, sequence: stop.1, output_tokens })
            &&& end[1] is Stop
        }),
        ({
            let end = ending(Err(error), calls_completed, matched, stop_sequences, output_tokens);
            end.len() == 1 && end[0] == ItemView::Error(error)
        }),
{
}

/// The last events of a stream are the frames of what is still to come, the stop of
/// the block that is open, if any, and the ending, in that order.
pub proof fn law_last_events_have_their_order(
    s: messages::StreamerView,
    segments: Seq<SegmentView>,
    end: Seq<ItemView>,
    i: int,
)
    ensures
        ({
            let items = last_items(s, segments, end);
            let frames = s.all_frames(segments);
            let open = s.after_all(segments).open is Some;
            let stops = if open {
                1int
            } else {
                0int
            };
            &&& items.len() == frames.len() + stops + end.len()
            &&& 0 <= i < frames.len() ==> items[i] == ItemView::Block(frames[i])
            &&& open ==> items[frames.len() as int] == ItemView::Block(
                FrameView::Stop { index: s.after_all(segments).next - 1 },
            )
            &&& 0 <= i < end.len() ==> items[frames.len() + stops + i] == end[i]
        }),
{
}

/// The usage of one round is the worker's, up to a stop match; over several rounds
/// it is the totals of both counts, as far as the wire has room for them.
pub proof fn law_usage_is_told_under_its_names(
    pipeline: chat::PipelineView,
    finished: Finished,
    rounds: McpRounds,
)
    ensures
        settled_usage(pipeline, finished).input_tokens == finished.prompt_tokens,
        !pipeline.matched() ==> settled_usage(pipeline, finished).output_tokens
            == finished.completion_tokens,
        pipeline.matched() ==> settled_usage(pipeline, finished).output_tokens
            == pipeline.at_match->0,
        rounds.prompt_tokens_total <= u32::MAX ==> totals(rounds).input_tokens
            == rounds.prompt_tokens_total,
        rounds.prompt_tokens_total > u32::MAX ==> totals(rounds).input_tokens == u32::MAX,
        rounds.completion_tokens_total <= u32::MAX ==> totals(rounds).output_tokens
            == rounds.completion_tokens_total,
        rounds.completion_tokens_total > u32::MAX ==> totals(rounds).output_tokens == u32::MAX,
{
}

/// What a round brings is kept in order: its text, its calls and the segments that
/// are withheld.
pub proof fn law_rounds_keep_what_came(parts: PartsView, segments: Seq<SegmentView>)
    ensures
        parts.with(segments).text == parts.text + messages::text_of(segments),
        parts.with(segments).calls == messages::calls_with(parts.calls, segments),
        parts.with(segments).tools == parts.tools + messages::tools_of(segments),
{
}

/// A round that fails leaves the rounds as they were and tells its error; one that
/// succeeds adds its tokens to the totals and nothing else, and is executed or
/// answered with its own reason.
pub proof fn law_rounds_settle(
    before: McpRounds,
    parts: PartsView,
    pipeline: chat::PipelineView,
    calls_completed: usize,
    finished: Finished,
    end: RoundEnd,
    after: McpRounds,
)
    requires
        round_settled(before, parts, pipeline, calls_completed, finished, end, after),
    ensures
        after.messages == before.messages,
        after.round == before.round,
        after.mcp == before.mcp,
        match chat::outcome(finished, pipeline.matched()) {
            Err(e) => {
                &&& end is Failed
                &&& end->Failed_0@ == e
                &&& after.prompt_tokens_total == before.prompt_tokens_total
                &&& after.completion_tokens_total == before.completion_tokens_total
            },
            Ok(reason) => {
                let runs = mcp::executes(
                    before,
                    reason,
                    pipeline.matched(),
                    parts.calls,
                    calls_completed,
                );
                &&& end !is Failed
                &&& end is Execute <==> runs
                &&& end is Respond ==> end->finish_reason@ == reason
                &&& end is Respond ==> end->finished == chat::counted(pipeline, finished)
                &&& end is Execute ==> end->Execute_0 == chat::counted(pipeline, finished)
                &&& after.prompt_tokens_total == before.prompt_tokens_total
                    + finished.prompt_tokens
                &&& !pipeline.matched() ==> after.completion_tokens_total
                    == before.completion_tokens_total + finished.completion_tokens
                &&& pipeline.matched() ==> after.completion_tokens_total
                    == before.completion_tokens_total + pipeline.at_match->0
            },
        },
{
}

} // verus!
