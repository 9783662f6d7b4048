//! The Anthropic messages responses: content blocks over the same pipeline as
//! chat completions.
//!
//! What this module owns is the framing. Models that reason in think tags have
//! those regions surfaced as thinking blocks; and a response names the stop
//! sequence that fired. A worker that owns its tokenizer reports the text it
//! stopped at even when that is its own end token, so the text counts only if
//! it is one of the request's stop sequences.

use crate::anthropic::BlockDelta;
use crate::anthropic::ContentBlock;
use crate::anthropic::ContentBlockDeltaEvent;
use crate::anthropic::ContentBlockStartEvent;
use crate::anthropic::ContentBlockStopEvent;
use crate::anthropic::MessagesRequest;
use crate::anthropic::Usage;
use crate::anthropic::ValidatedMessages;
use crate::chat;
use crate::chat::CallText;
use crate::chat::CallTextView;
use crate::chat::SubmitPlan;
use crate::chat::TextPipeline;
use crate::chat::ToolEvent;
use crate::chat::ToolEventView;
use crate::error;
use crate::error::ApiError;
use crate::json;
use crate::json::JsonView;
use crate::lifecycle::Command;
use crate::lifecycle::Lifecycle;
use crate::mcp;
use crate::prompt;
use crate::registry::ModelEntry;
use crate::registry::Registry;
use crate::text;
use crate::worker::Finished;
use serde_json::Value;
use vstd::prelude::*;
use vstd::string::*;

verus! {

/// Opens a messages request: the gates, then the checks on the request.
pub fn open_messages(
    registry: &Registry,
    ledger: &mut Lifecycle,
    request: &MessagesRequest,
    now_ms: u64,
) -> (r: (Result<(usize, ValidatedMessages), ApiError>, Option<Command>))
    requires
        old(ledger).wf(),
        old(ledger)@.sums_fit(),
    ensures
        final(ledger).wf(),
        final(ledger)@.sums_fit(),
        final(ledger)@ == chat::after_entry(*registry, old(ledger)@, request.model@, now_ms),
        r.1 == chat::entry_command(*registry, old(ledger)@, request.model@),
        match r.0 {
            Ok((i, v)) => {
                &&& chat::entry_refusal(*registry, old(ledger)@, request.model@, now_ms) is None
                &&& registry.finds(i as int, request.model@)
                &&& request.accepts(v)
            },
            Err(e) => match chat::entry_refusal(
                *registry,
                old(ledger)@,
                request.model@,
                now_ms,
            ) {
                Some(refused) => e@ == refused,
                None => request.problem() is Some && e@ == error::invalid_request(
                    request.problem()->0,
                ),
            },
        },
{
    let (found, command) = chat::open_request(registry, ledger, request.model.as_str(), now_ms);
    match found {
        Err(e) => (Err(e), command),
        Ok(i) => match request.validate() {
            Err(e) => (Err(e), command),
            Ok(v) => (Ok((i, v)), command),
        },
    }
}

/// The submission of a validated messages request, once its prompt is
/// tokenized.
pub fn plan_messages(
    validated: &ValidatedMessages,
    entry: &ModelEntry,
    request_id: &str,
    token_ids: Vec<u32>,
    max_context_len: u32,
) -> (r: Result<SubmitPlan, ApiError>)
    requires
        token_ids@.len() <= u32::MAX,
    ensures
        match r {
            Ok(plan) => {
                let n = token_ids@.len() as u32;
                &&& n > 0
                &&& !prompt::overflows(n, max_context_len)
                &&& chat::carries(
                    plan,
                    request_id@,
                    token_ids@,
                    validated.sampling,
                    validated.max_tokens as int,
                    chat::matched_by_worker(*entry, text::list_view(validated.stop_sequences@)),
                )
            },
            Err(e) => if token_ids@.len() == 0 {
                e@ == error::invalid_request("rendered prompt is empty"@)
            } else {
                prompt::overflows(token_ids@.len() as u32, max_context_len) && e@
                    == error::context_length_exceeded(
                    prompt::overflow_message(token_ids@.len() as u32, max_context_len),
                )
            },
        },
{
    if token_ids.len() == 0 {
        return Err(ApiError::invalid_request("rendered prompt is empty".to_owned()));
    }
    let prompt_tokens: u32 = token_ids.len() as u32;
    let max_tokens: u32 = match validated.effective_max_tokens(prompt_tokens, max_context_len) {
        Ok(n) => n,
        Err(e) => return Err(e),
    };
    Ok(
        SubmitPlan {
            request_id: request_id.to_owned(),
            token_ids,
            sampling: validated.sampling,
            max_tokens,
            stop_strings: chat::worker_stop_strings(entry, &validated.stop_sequences),
        },
    )
}

/// The gates on tools and template, in the order of this endpoint.
pub fn require_template_and_tools(entry: &ModelEntry, has_tools: bool, has_format: bool) -> (r:
    Result<(), ApiError>)
    ensures
        match r {
            Ok(()) => (!has_tools || has_format) && entry.has_template,
            Err(e) => if has_tools && !has_format {
                chat::format_refusal(entry.id@, has_tools, has_format) == Some(e@)
            } else {
                chat::template_refusal(*entry, "messages"@) == Some(e@)
            },
        },
{
    match chat::require_tool_format(entry.id.as_str(), has_tools, has_format) {
        Err(e) => Err(e),
        Ok(()) => chat::require_template(entry, "messages"),
    }
}

/// One increment of the response.
#[derive(Debug)]
pub enum Segment {
    Thinking(String),
    Text(String),
    ToolStart { id: String, name: String },
    ToolArgs { delta: String },
    ToolEnd,
}

/// The mathematical value of a [`Segment`].
#[verifier::ext_equal]
pub enum SegmentView {
    Thinking(Seq<char>),
    Text(Seq<char>),
    ToolStart { id: Seq<char>, name: Seq<char> },
    ToolArgs { delta: Seq<char> },
    ToolEnd,
}

impl View for Segment {
    type V = SegmentView;

    open spec fn view(&self) -> SegmentView {
        match self {
            Segment::Thinking(t) => SegmentView::Thinking(t@),
            Segment::Text(t) => SegmentView::Text(t@),
            Segment::ToolStart { id, name } => SegmentView::ToolStart { id: id@, name: name@ },
            Segment::ToolArgs { delta } => SegmentView::ToolArgs { delta: delta@ },
            Segment::ToolEnd => SegmentView::ToolEnd,
        }
    }
}

pub open spec fn segments_view(segments: Seq<Segment>) -> Seq<SegmentView> {
    Seq::new(segments.len(), |i: int| segments[i]@)
}

impl Segment {
    fn duplicate(&self) -> (r: Self)
        ensures
            r@ == self@,
    {
        match self {
            Segment::Thinking(t) => Segment::Thinking(t.clone()),
            Segment::Text(t) => Segment::Text(t.clone()),
            Segment::ToolStart { id, name } => Segment::ToolStart {
                id: id.clone(),
                name: name.clone(),
            },
            Segment::ToolArgs { delta } => Segment::ToolArgs { delta: delta.clone() },
            Segment::ToolEnd => Segment::ToolEnd,
        }
    }
}

/// A piece of content, told apart by the model's think tags.
#[derive(Debug)]
pub enum ThinkPiece {
    Thinking(String),
    Text(String),
}

/// The piece as a segment.
pub open spec fn piece_segment(piece: ThinkPiece) -> SegmentView {
    match piece {
        ThinkPiece::Thinking(t) => SegmentView::Thinking(t@),
        ThinkPiece::Text(t) => SegmentView::Text(t@),
    }
}

pub open spec fn piece_segments(pieces: Seq<ThinkPiece>) -> Seq<SegmentView> {
    Seq::new(pieces.len(), |i: int| piece_segment(pieces[i]))
}

/// The pieces as segments, in order.
pub fn segments_of_pieces(pieces: &Vec<ThinkPiece>) -> (r: Vec<Segment>)
    ensures
        segments_view(r@) == piece_segments(pieces@),
{
    let mut out: Vec<Segment> = Vec::new();
    let mut i: usize = 0;
    while i < pieces.len()
        invariant
            i <= pieces@.len(),
            out@.len() == i,
            forall|j: int| 0 <= j < i ==> (#[trigger] out@[j])@ == piece_segment(pieces@[j]),
        decreases pieces@.len() - i,
    {
        out.push(
            match &pieces[i] {
                ThinkPiece::Thinking(t) => Segment::Thinking(t.clone()),
                ThinkPiece::Text(t) => Segment::Text(t.clone()),
            },
        );
        i = i + 1;
    }
    assert(segments_view(out@) =~= piece_segments(pieces@));
    out
}

/// What one tool event becomes. `pieces` are what the think parser made of a
/// content event, or what it still held when a call starts: held text lands
/// before the tool block.
pub open spec fn event_segments(
    event: ToolEventView,
    thinks: bool,
    pieces: Seq<SegmentView>,
    id: Seq<char>,
) -> Seq<SegmentView> {
    match event {
        ToolEventView::Content(t) => if thinks {
            pieces
        } else {
            seq![SegmentView::Text(t)]
        },
        ToolEventView::CallStart { name, .. } => (if thinks {
            pieces
        } else {
            Seq::empty()
        }).push(SegmentView::ToolStart { id, name }),
        ToolEventView::CallArgs { delta, .. } => seq![SegmentView::ToolArgs { delta }],
        ToolEventView::CallEnd { .. } => seq![SegmentView::ToolEnd],
    }
}

/// What one tool event becomes. `id` names the call that starts.
pub fn segments_of(event: ToolEvent, thinks: bool, pieces: &Vec<ThinkPiece>, id: String) -> (r:
    Vec<Segment>)
    ensures
        segments_view(r@) == event_segments(event@, thinks, piece_segments(pieces@), id@),
{
    let ghost goal = event_segments(event@, thinks, piece_segments(pieces@), id@);
    let mut out: Vec<Segment> = Vec::new();
    match event {
        ToolEvent::Content(t) => {
            if thinks {
                return segments_of_pieces(pieces);
            }
            out.push(Segment::Text(t));
        },
        ToolEvent::CallStart { name, .. } => {
            if thinks {
                out = segments_of_pieces(pieces);
            } else {
                assert(segments_view(out@) =~= Seq::empty());
            }
            let ghost before = out@;
            out.push(Segment::ToolStart { id, name });
            assert(segments_view(out@) =~= segments_view(before).push(out@.last()@));
        },
        ToolEvent::CallArgs { delta, .. } => {
            out.push(Segment::ToolArgs { delta });
        },
        ToolEvent::CallEnd { .. } => {
            out.push(Segment::ToolEnd);
        },
    }
    assert(segments_view(out@) =~= goal);
    out
}

/// A fresh tool-use id.
pub fn new_tool_use_id() -> (r: String)
    ensures
        chat::is_tagged_id(r@, "toolu_"@),
{
    let mut id: String = "toolu_".to_owned();
    id.append(chat::fresh_uuid().as_str());
    assert(id@.subrange(0, "toolu_"@.len() as int) =~= "toolu_"@);
    id
}

/// The id under which a round is submitted.
pub open spec fn round_id(base: Seq<char>, round: usize) -> Seq<char> {
    if round == 0 {
        base
    } else {
        base + "-r"@ + text::decimal(round as nat)
    }
}

/// The id under which a round is submitted: the request's own for the first, and
/// one that tells the round for those behind it.
pub fn round_request_id(base: &str, round: usize) -> (r: String)
    ensures
        r@ == round_id(base@, round),
{
    let mut id: String = base.to_owned();
    if round > 0 {
        id.append("-r");
        id.append(text::decimal_string(round as u64).as_str());
    }
    id
}

/// Every call that starts has a fresh id.
pub open spec fn ids_tagged(segments: Seq<SegmentView>) -> bool {
    forall|i: int|
        0 <= i < segments.len() && (#[trigger] segments[i]) is ToolStart ==> chat::is_tagged_id(
            segments[i]->id,
            "toolu_"@,
        )
}

/// What one tool event becomes; a call that starts gets a fresh id.
pub fn fresh_segments(event: ToolEvent, thinks: bool, pieces: &Vec<ThinkPiece>) -> (r: Vec<Segment>)
    ensures
        exists|id: Seq<char>|
            segments_view(r@) == #[trigger] event_segments(
                event@,
                thinks,
                piece_segments(pieces@),
                id,
            ) && (event@ is CallStart ==> chat::is_tagged_id(id, "toolu_"@)),
        ids_tagged(segments_view(r@)),
{
    let id: String = match &event {
        ToolEvent::CallStart { .. } => new_tool_use_id(),
        _ => String::new(),
    };
    segments_of(event, thinks, pieces, id)
}

/// Why a response stopped, and at which of the request's sequences.
pub open spec fn stop_reason_of(
    finish_reason: Seq<char>,
    calls_completed: usize,
    matched: Option<Seq<char>>,
    stop_sequences: Seq<Seq<char>>,
) -> (Seq<char>, Option<Seq<char>>) {
    if finish_reason == "length"@ {
        ("max_tokens"@, None)
    } else if calls_completed > 0 {
        ("tool_use"@, None)
    } else {
        match matched {
            Some(m) => if stop_sequences.contains(m) {
                ("stop_sequence"@, Some(m))
            } else {
                ("end_turn"@, None)
            },
            None => ("end_turn"@, None),
        }
    }
}

/// Why a response stopped. Completed tool calls upgrade a natural stop; a
/// matched stop counts only when it is one of the request's sequences.
pub fn anthropic_stop_reason(
    finish_reason: &'static str,
    calls_completed: usize,
    matched_stop: Option<String>,
    stop_sequences: &Vec<String>,
) -> (r: (&'static str, Option<String>))
    ensures
        (r.0@, text::opt_view(r.1)) == stop_reason_of(
            finish_reason@,
            calls_completed,
            text::opt_view(matched_stop),
            text::list_view(stop_sequences@),
        ),
{
    if text::same(finish_reason, "length") {
        return ("max_tokens", None);
    }
    if calls_completed > 0 {
        return ("tool_use", None);
    }
    match matched_stop {
        Some(m) => if text::contains(stop_sequences, m.as_str()) {
            ("stop_sequence", Some(m))
        } else {
            ("end_turn", None)
        },
        None => ("end_turn", None),
    }
}

/// A response never names a stop sequence the request did not give.
pub proof fn law_stop_sequence_is_the_requests_own(
    finish_reason: Seq<char>,
    calls_completed: usize,
    matched: Option<Seq<char>>,
    stop_sequences: Seq<Seq<char>>,
)
    ensures
        ({
            let r = stop_reason_of(finish_reason, calls_completed, matched, stop_sequences);
            r.1 is Some ==> stop_sequences.contains(r.1->0) && r.1 == matched && r.0
                == "stop_sequence"@
        }),
{
}

/// The matched stop string: the gateway's hit, else the worker's report.
pub open spec fn matched_stop(pipeline: chat::PipelineView, finished: Finished) -> Option<
    Seq<char>,
> {
    if pipeline.hit is Some {
        pipeline.hit
    } else if finished.matched_stop@.len() > 0 {
        Some(finished.matched_stop@)
    } else {
        None
    }
}

/// The matched stop string.
pub fn matched_stop_of(pipeline: &TextPipeline, finished: &Finished) -> (r: Option<String>)
    ensures
        text::opt_view(r) == matched_stop(pipeline@, *finished),
{
    match pipeline.matched_stop() {
        Some(hit) => Some(hit),
        None => if finished.matched_stop.as_str().is_empty() {
            None
        } else {
            Some(finished.matched_stop.clone())
        },
    }
}

/// The usage a finished request reports.
pub fn usage_of(finished: &Finished) -> (r: Usage)
    ensures
        r == (Usage {
            input_tokens: finished.prompt_tokens,
            output_tokens: finished.completion_tokens,
        }),
{
    Usage { input_tokens: finished.prompt_tokens, output_tokens: finished.completion_tokens }
}

/// The text of a run of segments.
pub open spec fn text_of(segments: Seq<SegmentView>) -> Seq<char>
    decreases segments.len(),
{
    if segments.len() == 0 {
        Seq::empty()
    } else {
        match segments.last() {
            SegmentView::Text(t) => text_of(segments.drop_last()) + t,
            _ => text_of(segments.drop_last()),
        }
    }
}

/// The thinking of a run of segments.
pub open spec fn thinking_of(segments: Seq<SegmentView>) -> Seq<char>
    decreases segments.len(),
{
    if segments.len() == 0 {
        Seq::empty()
    } else {
        match segments.last() {
            SegmentView::Thinking(t) => thinking_of(segments.drop_last()) + t,
            _ => thinking_of(segments.drop_last()),
        }
    }
}

/// The segments that reach the client at once: thinking and text.
pub open spec fn live_of(segments: Seq<SegmentView>) -> Seq<SegmentView>
    decreases segments.len(),
{
    if segments.len() == 0 {
        Seq::empty()
    } else if segments.last() is Thinking || segments.last() is Text {
        live_of(segments.drop_last()).push(segments.last())
    } else {
        live_of(segments.drop_last())
    }
}

/// The segments withheld until the round settles: those of tool calls.
pub open spec fn tools_of(segments: Seq<SegmentView>) -> Seq<SegmentView>
    decreases segments.len(),
{
    if segments.len() == 0 {
        Seq::empty()
    } else if segments.last() is Thinking || segments.last() is Text {
        tools_of(segments.drop_last())
    } else {
        tools_of(segments.drop_last()).push(segments.last())
    }
}

/// The calls with those of a run of segments added.
pub open spec fn calls_with(calls: Seq<CallTextView>, segments: Seq<SegmentView>) -> Seq<
    CallTextView,
>
    decreases segments.len(),
{
    if segments.len() == 0 {
        calls
    } else {
        let before = calls_with(calls, segments.drop_last());
        match segments.last() {
            SegmentView::ToolStart { name, .. } => before.push(
                CallTextView { name, arguments: Seq::empty() },
            ),
            SegmentView::ToolArgs { delta } => if before.len() > 0 {
                before.drop_last().push(
                    CallTextView {
                        arguments: before.last().arguments + delta,
                        ..before.last()
                    },
                )
            } else {
                before
            },
            _ => before,
        }
    }
}

/// Routes one round's segments: thinking and text are returned to go out at
/// once, and text joins the assistant's history; tool segments are withheld.
/// Thinking stays out of the history, as it does when a client replays it.
pub fn split_segments(
    segments: Vec<Segment>,
    text_content: &mut String,
    calls: &mut Vec<CallText>,
    tool_segments: &mut Vec<Segment>,
) -> (r: Vec<Segment>)
    ensures
        segments_view(r@) == live_of(segments_view(segments@)),
        final(text_content)@ == old(text_content)@ + text_of(segments_view(segments@)),
        chat::call_texts(final(calls)@) == calls_with(
            chat::call_texts(old(calls)@),
            segments_view(segments@),
        ),
        segments_view(final(tool_segments)@) == segments_view(old(tool_segments)@) + tools_of(
            segments_view(segments@),
        ),
{
    let ghost all = segments_view(segments@);
    let ghost calls0 = chat::call_texts(calls@);
    let ghost tools0 = segments_view(tool_segments@);
    let mut live: Vec<Segment> = Vec::new();
    let mut i: usize = 0;
    assert(segments_view(live@) =~= live_of(all.take(0)));
    assert(text_content@ =~= old(text_content)@ + text_of(all.take(0)));
    assert(tools0 =~= tools0 + tools_of(all.take(0)));
    while i < segments.len()
        invariant
            i <= segments@.len(),
            all == segments_view(segments@),
            segments_view(live@) == live_of(all.take(i as int)),
            text_content@ == old(text_content)@ + text_of(all.take(i as int)),
            chat::call_texts(calls@) == calls_with(calls0, all.take(i as int)),
            segments_view(tool_segments@) == tools0 + tools_of(all.take(i as int)),
        decreases segments@.len() - i,
    {
        let ghost part = all.take(i + 1);
        let ghost live1 = live@;
        let ghost tools1 = tool_segments@;
        assert(part.drop_last() =~= all.take(i as int));
        assert(part.last() == segments@[i as int]@);
        match &segments[i] {
            Segment::Thinking(t) => {
                live.push(Segment::Thinking(t.clone()));
                assert(segments_view(live@) =~= segments_view(live1).push(part.last()));
            },
            Segment::Text(t) => {
                text_content.append(t.as_str());
                assert(text_content@ =~= old(text_content)@ + text_of(part));
                live.push(Segment::Text(t.clone()));
                assert(segments_view(live@) =~= segments_view(live1).push(part.last()));
            },
            Segment::ToolStart { id, name } => {
                calls.push(CallText { name: name.clone(), arguments: String::new() });
                assert(calls@.last().arguments@ =~= Seq::<char>::empty());
                assert(chat::call_texts(calls@) =~= calls_with(calls0, part));
                tool_segments.push(Segment::ToolStart { id: id.clone(), name: name.clone() });
                assert(segments_view(tool_segments@) =~= segments_view(tools1).push(part.last()));
                assert(segments_view(tool_segments@) =~= tools0 + tools_of(part));
            },
            Segment::ToolArgs { delta } => {
                if calls.len() > 0 {
                    let n: usize = calls.len();
                    calls[n - 1].arguments.append(delta.as_str());
                    assert(chat::call_texts(calls@) =~= calls_with(calls0, part));
                }
                tool_segments.push(Segment::ToolArgs { delta: delta.clone() });
                assert(segments_view(tool_segments@) =~= segments_view(tools1).push(part.last()));
                assert(segments_view(tool_segments@) =~= tools0 + tools_of(part));
            },
            Segment::ToolEnd => {
                tool_segments.push(Segment::ToolEnd);
                assert(segments_view(tool_segments@) =~= segments_view(tools1).push(part.last()));
                assert(segments_view(tool_segments@) =~= tools0 + tools_of(part));
            },
        }
        i = i + 1;
    }
    assert(all.take(i as int) =~= all);
    live
}

/// Nothing of a round is lost or doubled: every segment goes out at once or is
/// withheld, and the history's text is the text that went out.
pub proof fn law_rounds_lose_nothing(segments: Seq<SegmentView>)
    ensures
        live_of(segments).len() + tools_of(segments).len() == segments.len(),
        text_of(live_of(segments)) == text_of(segments),
        thinking_of(live_of(segments)) == thinking_of(segments),
    decreases segments.len(),
{
    if segments.len() > 0 {
        law_rounds_lose_nothing(segments.drop_last());
        if segments.last() is Thinking || segments.last() is Text {
            assert(live_of(segments).drop_last() =~= live_of(segments.drop_last()));
        }
    }
}

/// A block of the response, as far as it has arrived.
#[derive(Debug)]
pub enum Block {
    Thinking(String),
    Text(String),
    ToolUse { id: String, name: String, arguments: String },
}

/// The mathematical value of a [`Block`].
#[verifier::ext_equal]
pub enum BlockView {
    Thinking(Seq<char>),
    Text(Seq<char>),
    ToolUse { id: Seq<char>, name: Seq<char>, arguments: Seq<char> },
}

impl View for Block {
    type V = BlockView;

    open spec fn view(&self) -> BlockView {
        match self {
            Block::Thinking(t) => BlockView::Thinking(t@),
            Block::Text(t) => BlockView::Text(t@),
            Block::ToolUse { id, name, arguments } => BlockView::ToolUse {
                id: id@,
                name: name@,
                arguments: arguments@,
            },
        }
    }
}

/// The blocks with a segment added: text joins a block of its kind, and any
/// change of kind begins a new one.
pub open spec fn blocks_with(blocks: Seq<BlockView>, segment: SegmentView) -> Seq<BlockView> {
    match segment {
        SegmentView::Thinking(t) => if blocks.len() > 0 && blocks.last() is Thinking {
            blocks.drop_last().push(BlockView::Thinking(blocks.last()->Thinking_0 + t))
        } else {
            blocks.push(BlockView::Thinking(t))
        },
        SegmentView::Text(t) => if blocks.len() > 0 && blocks.last() is Text {
            blocks.drop_last().push(BlockView::Text(blocks.last()->Text_0 + t))
        } else {
            blocks.push(BlockView::Text(t))
        },
        SegmentView::ToolStart { id, name } => blocks.push(
            BlockView::ToolUse { id, name, arguments: Seq::empty() },
        ),
        SegmentView::ToolArgs { delta } => if blocks.len() > 0 && blocks.last() is ToolUse {
            blocks.drop_last().push(
                BlockView::ToolUse {
                    id: blocks.last()->id,
                    name: blocks.last()->name,
                    arguments: blocks.last()->arguments + delta,
                },
            )
        } else {
            blocks
        },
        SegmentView::ToolEnd => blocks,
    }
}

/// The blocks of a run of segments.
pub open spec fn blocks_of(blocks: Seq<BlockView>, segments: Seq<SegmentView>) -> Seq<BlockView>
    decreases segments.len(),
{
    if segments.len() == 0 {
        blocks
    } else {
        blocks_with(blocks_of(blocks, segments.drop_last()), segments.last())
    }
}

/// A block as it stands in the response, if it does: empty text is dropped,
/// and so is a call whose arguments never became JSON.
pub open spec fn block_json(block: BlockView) -> Option<JsonView> {
    match block {
        BlockView::Thinking(t) => if t.len() == 0 {
            None
        } else {
            Some(
                JsonView::Object(
                    map![
                        "type"@ => JsonView::Str("thinking"@),
                        "thinking"@ => JsonView::Str(t),
                        "signature"@ => JsonView::Str(""@)
                    ],
                ),
            )
        },
        BlockView::Text(t) => if t.len() == 0 {
            None
        } else {
            Some(
                JsonView::Object(
                    map![
                        "type"@ => JsonView::Str("text"@),
                        "text"@ => JsonView::Str(t)
                    ],
                ),
            )
        },
        BlockView::ToolUse { id, name, arguments } => match mcp::arguments_of(arguments) {
            Ok(input) => Some(
                JsonView::Object(
                    map![
                        "type"@ => JsonView::Str("tool_use"@),
                        "id"@ => JsonView::Str(id),
                        "name"@ => JsonView::Str(name),
                        "input"@ => input
                    ],
                ),
            ),
            Err(_) => None,
        },
    }
}

/// The content of the response.
pub open spec fn content_of(blocks: Seq<BlockView>) -> Seq<JsonView>
    decreases blocks.len(),
{
    if blocks.len() == 0 {
        Seq::empty()
    } else {
        match block_json(blocks.last()) {
            Some(j) => content_of(blocks.drop_last()).push(j),
            None => content_of(blocks.drop_last()),
        }
    }
}

pub open spec fn content_json(content: Seq<ContentBlock>) -> Seq<JsonView> {
    Seq::new(content.len(), |i: int| content[i].spec_json())
}

/// Collects segments into blocks.
#[derive(Debug)]
pub struct BlockAssembler {
    pub blocks: Vec<Block>,
}

impl View for BlockAssembler {
    type V = Seq<BlockView>;

    open spec fn view(&self) -> Seq<BlockView> {
        Seq::new(self.blocks@.len(), |i: int| self.blocks@[i]@)
    }
}

impl BlockAssembler {
    pub fn new() -> (r: Self)
        ensures
            r@ == Seq::<BlockView>::empty(),
    {
        let r: BlockAssembler = BlockAssembler { blocks: Vec::new() };
        assert(r@ =~= Seq::empty());
        r
    }

    /// Adds a segment.
    pub fn push(&mut self, segment: Segment)
        ensures
            final(self)@ == blocks_with(old(self)@, segment@),
    {
        let ghost before = self@;
        let n: usize = self.blocks.len();
        match segment {
            Segment::Thinking(t) => {
                if n > 0 {
                    if let Block::Thinking(prev) = &mut self.blocks[n - 1] {
                        prev.append(t.as_str());
                        assert(self@ =~= blocks_with(before, segment@));
                        return;
                    }
                }
                self.blocks.push(Block::Thinking(t));
            },
            Segment::Text(t) => {
                if n > 0 {
                    if let Block::Text(prev) = &mut self.blocks[n - 1] {
                        prev.append(t.as_str());
                        assert(self@ =~= blocks_with(before, segment@));
                        return;
                    }
                }
                self.blocks.push(Block::Text(t));
            },
            Segment::ToolStart { id, name } => {
                let arguments: String = String::new();
                assert(arguments@ =~= Seq::<char>::empty());
                self.blocks.push(Block::ToolUse { id, name, arguments });
            },
            Segment::ToolArgs { delta } => {
                if n > 0 {
                    if let Block::ToolUse { arguments, .. } = &mut self.blocks[n - 1] {
                        arguments.append(delta.as_str());
                    }
                }
            },
            Segment::ToolEnd => {},
        }
        assert(self@ =~= blocks_with(before, segment@));
    }

    /// Adds a run of segments.
    pub fn push_all(&mut self, segments: &Vec<Segment>)
        ensures
            final(self)@ == blocks_of(old(self)@, segments_view(segments@)),
    {
        let ghost all = segments_view(segments@);
        let mut i: usize = 0;
        assert(all.take(0) =~= Seq::empty());
        while i < segments.len()
            invariant
                i <= segments@.len(),
                all == segments_view(segments@),
                self@ == blocks_of(old(self)@, all.take(i as int)),
            decreases segments@.len() - i,
        {
            assert(all.take(i + 1).drop_last() =~= all.take(i as int));
            assert(all.take(i + 1).last() == segments@[i as int]@);
            self.push(segments[i].duplicate());
            i = i + 1;
        }
        assert(all.take(i as int) =~= all);
    }

    /// The content of the response.
    pub fn into_content(self) -> (r: Vec<ContentBlock>)
        ensures
            content_json(r@) == content_of(self@),
    {
        let ghost all = self@;
        let mut content: Vec<ContentBlock> = Vec::new();
        let mut i: usize = 0;
        assert(content_json(content@) =~= content_of(all.take(0)));
        while i < self.blocks.len()
            invariant
                i <= self.blocks@.len(),
                all == self@,
                content_json(content@) == content_of(all.take(i as int)),
            decreases self.blocks@.len() - i,
        {
            assert(all.take(i + 1).drop_last() =~= all.take(i as int));
            assert(all.take(i + 1).last() == self.blocks@[i as int]@);
            let ghost before = content@;
            if let Some(block) = content_block(&self.blocks[i]) {
                content.push(block);
                assert(content_json(content@) =~= content_json(before).push(block.spec_json()));
            }
            i = i + 1;
        }
        assert(all.take(i as int) =~= all);
        content
    }
}

fn content_block(block: &Block) -> (r: Option<ContentBlock>)
    ensures
        match r {
            Some(b) => block_json(block@) == Some(b.spec_json()),
            None => block_json(block@) is None,
        },
{
    match block {
        Block::Thinking(t) => if t.as_str().is_empty() {
            None
        } else {
            Some(ContentBlock::Thinking { thinking: t.clone(), signature: "" })
        },
        Block::Text(t) => if t.as_str().is_empty() {
            None
        } else {
            Some(ContentBlock::Text { text: t.clone() })
        },
        Block::ToolUse { id, name, arguments } => {
            let input: Value = if arguments.as_str().is_empty() {
                json::object()
            } else {
                match json::parse(arguments.as_str()) {
                    Ok(v) => v,
                    Err(_) => return None,
                }
            };
            Some(ContentBlock::ToolUse { id: id.clone(), name: name.clone(), input })
        },
    }
}

/// The text of the blocks, in order.
pub open spec fn blocks_text(blocks: Seq<BlockView>) -> Seq<char>
    decreases blocks.len(),
{
    if blocks.len() == 0 {
        Seq::empty()
    } else {
        match blocks.last() {
            BlockView::Text(t) => blocks_text(blocks.drop_last()) + t,
            _ => blocks_text(blocks.drop_last()),
        }
    }
}

/// The thinking of the blocks, in order.
pub open spec fn blocks_thinking(blocks: Seq<BlockView>) -> Seq<char>
    decreases blocks.len(),
{
    if blocks.len() == 0 {
        Seq::empty()
    } else {
        match blocks.last() {
            BlockView::Thinking(t) => blocks_thinking(blocks.drop_last()) + t,
            _ => blocks_thinking(blocks.drop_last()),
        }
    }
}

proof fn lemma_blocks_with(blocks: Seq<BlockView>, segment: SegmentView)
    ensures
        blocks_text(blocks_with(blocks, segment)) == blocks_text(blocks) + (match segment {
            SegmentView::Text(t) => t,
            _ => Seq::empty(),
        }),
        blocks_thinking(blocks_with(blocks, segment)) == blocks_thinking(blocks) + (
        match segment {
            SegmentView::Thinking(t) => t,
            _ => Seq::empty(),
        }),
{
    let after = blocks_with(blocks, segment);
    if after.len() > blocks.len() {
        assert(after.drop_last() =~= blocks);
    } else if after != blocks {
        assert(after.drop_last() =~= blocks.drop_last());
    }
    match segment {
        SegmentView::Text(t) => {
            if after.len() == blocks.len() {
                assert(blocks_text(after) =~= blocks_text(blocks) + t);
            }
            assert(blocks_thinking(after) =~= blocks_thinking(blocks) + Seq::empty());
        },
        SegmentView::Thinking(t) => {
            if after.len() == blocks.len() {
                assert(blocks_thinking(after) =~= blocks_thinking(blocks) + t);
            }
            assert(blocks_text(after) =~= blocks_text(blocks) + Seq::empty());
        },
        _ => {
            assert(blocks_text(after) =~= blocks_text(blocks) + Seq::empty());
            assert(blocks_thinking(after) =~= blocks_thinking(blocks) + Seq::empty());
        },
    }
}

/// The kind of the block that is open.
#[derive(Debug, Clone, Copy, PartialEq, Eq, Structural)]
pub enum OpenKind {
    Thinking,
    Text,
    Tool,
}

/// What a delta adds.
#[verifier::ext_equal]
pub enum DeltaView {
    Thinking(Seq<char>),
    Text(Seq<char>),
    InputJson(Seq<char>),
}

/// A frame of the stream's blocks.
#[derive(Debug)]
pub enum BlockFrame {
    Start(ContentBlockStartEvent),
    Delta(ContentBlockDeltaEvent),
    Stop(ContentBlockStopEvent),
}

/// The mathematical value of a [`BlockFrame`].
#[verifier::ext_equal]
pub enum FrameView {
    Start { index: int, block: JsonView },
    Delta { index: int, delta: DeltaView },
    Stop { index: int },
}

impl View for BlockFrame {
    type V = FrameView;

    open spec fn view(&self) -> FrameView {
        match self {
            BlockFrame::Start(e) => FrameView::Start {
                index: e.index as int,
                block: e.content_block.spec_json(),
            },
            BlockFrame::Delta(e) => FrameView::Delta {
                index: e.index as int,
                delta: match e.delta {
                    BlockDelta::Thinking { thinking } => DeltaView::Thinking(thinking@),
                    BlockDelta::Text { text } => DeltaView::Text(text@),
                    BlockDelta::InputJson { partial_json } => DeltaView::InputJson(partial_json@),
                },
            },
            BlockFrame::Stop(e) => FrameView::Stop { index: e.index as int },
        }
    }
}

pub open spec fn frames_view(frames: Seq<BlockFrame>) -> Seq<FrameView> {
    Seq::new(frames.len(), |i: int| frames[i]@)
}

/// The mathematical value of a [`BlockStreamer`].
pub struct StreamerView {
    pub next: int,
    pub open: Option<OpenKind>,
}

/// An empty thinking block.
pub open spec fn empty_thinking() -> JsonView {
    JsonView::Object(
        map![
            "type"@ => JsonView::Str("thinking"@),
            "thinking"@ => JsonView::Str(Seq::empty()),
            "signature"@ => JsonView::Str(""@)
        ],
    )
}

/// An empty text block.
pub open spec fn empty_text() -> JsonView {
    JsonView::Object(
        map![
            "type"@ => JsonView::Str("text"@),
            "text"@ => JsonView::Str(Seq::empty())
        ],
    )
}

/// A call without arguments yet.
pub open spec fn empty_tool(id: Seq<char>, name: Seq<char>) -> JsonView {
    JsonView::Object(
        map![
            "type"@ => JsonView::Str("tool_use"@),
            "id"@ => JsonView::Str(id),
            "name"@ => JsonView::Str(name),
            "input"@ => JsonView::Object(Map::empty())
        ],
    )
}

impl StreamerView {
    /// Closing the open block, if any.
    pub open spec fn close_frames(self) -> Seq<FrameView> {
        if self.open is Some {
            seq![FrameView::Stop { index: self.next - 1 }]
        } else {
            Seq::empty()
        }
    }

    pub open spec fn closed(self) -> StreamerView {
        StreamerView { open: None, ..self }
    }

    /// Starting a block, after whatever is open was closed.
    pub open spec fn start_frames(self, block: JsonView) -> Seq<FrameView> {
        self.close_frames() + seq![FrameView::Start { index: self.next, block }]
    }

    pub open spec fn started(self, kind: OpenKind) -> StreamerView {
        StreamerView { next: self.next + 1, open: Some(kind) }
    }

    /// A piece of text of a kind: its block is opened unless it is open.
    pub open spec fn text_frames(
        self,
        kind: OpenKind,
        block: JsonView,
        delta: DeltaView,
    ) -> Seq<FrameView> {
        if self.open == Some(kind) {
            seq![FrameView::Delta { index: self.next - 1, delta }]
        } else {
            self.start_frames(block) + seq![FrameView::Delta { index: self.next, delta }]
        }
    }

    /// The streamer after a segment.
    pub open spec fn after(self, segment: SegmentView) -> StreamerView {
        match segment {
            SegmentView::Thinking(t) => if t.len() == 0 || self.open == Some(OpenKind::Thinking) {
                self
            } else {
                self.started(OpenKind::Thinking)
            },
            SegmentView::Text(t) => if t.len() == 0 || self.open == Some(OpenKind::Text) {
                self
            } else {
                self.started(OpenKind::Text)
            },
            SegmentView::ToolStart { .. } => self.started(OpenKind::Tool),
            SegmentView::ToolArgs { .. } => self,
            SegmentView::ToolEnd => self.closed(),
        }
    }

    /// The frames of a segment.
    pub open spec fn frames(self, segment: SegmentView) -> Seq<FrameView> {
        match segment {
            SegmentView::Thinking(t) => if t.len() == 0 {
                Seq::empty()
            } else {
                self.text_frames(OpenKind::Thinking, empty_thinking(), DeltaView::Thinking(t))
            },
            SegmentView::Text(t) => if t.len() == 0 {
                Seq::empty()
            } else {
                self.text_frames(OpenKind::Text, empty_text(), DeltaView::Text(t))
            },
            SegmentView::ToolStart { id, name } => self.start_frames(empty_tool(id, name)),
            SegmentView::ToolArgs { delta } => if self.open == Some(OpenKind::Tool) && delta.len()
                > 0 {
                seq![
                    FrameView::Delta { index: self.next - 1, delta: DeltaView::InputJson(delta) },
                ]
            } else {
                Seq::empty()
            },
            SegmentView::ToolEnd => self.close_frames(),
        }
    }

    /// The streamer after a run of segments.
    pub open spec fn after_all(self, segments: Seq<SegmentView>) -> StreamerView
        decreases segments.len(),
    {
        if segments.len() == 0 {
            self
        } else {
            self.after_all(segments.drop_last()).after(segments.last())
        }
    }

    /// The frames of a run of segments.
    pub open spec fn all_frames(self, segments: Seq<SegmentView>) -> Seq<FrameView>
        decreases segments.len(),
    {
        if segments.len() == 0 {
            Seq::empty()
        } else {
            self.all_frames(segments.drop_last()) + self.after_all(segments.drop_last()).frames(
                segments.last(),
            )
        }
    }
}

/// The content-block state machine: opens and closes indexed blocks as the
/// kind of segment changes, and frames deltas accordingly.
#[derive(Debug, Clone, Copy, PartialEq, Eq, Structural)]
pub struct BlockStreamer {
    pub next_index: u64,
    pub open: Option<OpenKind>,
}

impl View for BlockStreamer {
    type V = StreamerView;

    open spec fn view(&self) -> StreamerView {
        StreamerView { next: self.next_index as int, open: self.open }
    }
}

impl BlockStreamer {
    /// An open block has been numbered.
    pub open spec fn wf(self) -> bool {
        self.open is Some ==> self.next_index > 0
    }

    pub fn new() -> (r: Self)
        ensures
            r.wf(),
            r@ == (StreamerView { next: 0, open: None }),
    {
        BlockStreamer { next_index: 0, open: None }
    }

    /// The number of the last block started.
    pub fn index(&self) -> (r: u64)
        requires
            self.next_index > 0,
        ensures
            r == self.next_index - 1,
    {
        self.next_index - 1
    }

    /// Frames a segment.
    pub fn on_segment(&mut self, segment: Segment, out: &mut Vec<BlockFrame>)
        requires
            old(self).wf(),
            old(self).next_index < u64::MAX,
        ensures
            final(self).wf(),
            final(self)@ == old(self)@.after(segment@),
            final(self).next_index <= old(self).next_index + 1,
            frames_view(final(out)@) == frames_view(old(out)@) + old(self)@.frames(segment@),
    {
        let ghost before = frames_view(out@);
        match segment {
            Segment::Thinking(t) => {
                if t.as_str().is_empty() {
                    assert(frames_view(out@) =~= before + Seq::empty());
                    return;
                }
                let empty: String = String::new();
                assert(empty@ =~= Seq::<char>::empty());
                self.ensure_open(
                    OpenKind::Thinking,
                    ContentBlock::Thinking { thinking: empty, signature: "" },
                    out,
                );
                self.delta(BlockDelta::Thinking { thinking: t }, out);
                assert(frames_view(out@) =~= before + old(self)@.frames(segment@));
            },
            Segment::Text(t) => {
                if t.as_str().is_empty() {
                    assert(frames_view(out@) =~= before + Seq::empty());
                    return;
                }
                let empty: String = String::new();
                assert(empty@ =~= Seq::<char>::empty());
                self.ensure_open(OpenKind::Text, ContentBlock::Text { text: empty }, out);
                self.delta(BlockDelta::Text { text: t }, out);
                assert(frames_view(out@) =~= before + old(self)@.frames(segment@));
            },
            Segment::ToolStart { id, name } => {
                self.close(out);
                let block: ContentBlock = ContentBlock::ToolUse { id, name, input: json::object() };
                self.start(OpenKind::Tool, block, out);
                assert(frames_view(out@) =~= before + old(self)@.frames(segment@));
            },
            Segment::ToolArgs { delta } => {
                let tool_open: bool = match self.open {
                    Some(kind) => kind == OpenKind::Tool,
                    None => false,
                };
                if tool_open && !delta.as_str().is_empty() {
                    self.delta(BlockDelta::InputJson { partial_json: delta }, out);
                } else {
                    assert(frames_view(out@) =~= before + Seq::empty());
                }
            },
            Segment::ToolEnd => {
                self.close(out);
            },
        }
    }

    /// Opens a block of the kind unless one is open.
    fn ensure_open(&mut self, kind: OpenKind, block: ContentBlock, out: &mut Vec<BlockFrame>)
        requires
            old(self).wf(),
            old(self).next_index < u64::MAX,
        ensures
            final(self).wf(),
            final(self).open == Some(kind),
            final(self)@ == (if old(self).open == Some(kind) {
                old(self)@
            } else {
                old(self)@.started(kind)
            }),
            frames_view(final(out)@) == (if old(self).open == Some(kind) {
                frames_view(old(out)@)
            } else {
                frames_view(old(out)@) + old(self)@.start_frames(block.spec_json())
            }),
    {
        let ghost before = frames_view(out@);
        let is_open: bool = match self.open {
            Some(k) => k == kind,
            None => false,
        };
        if !is_open {
            self.close(out);
            self.start(kind, block, out);
            assert(frames_view(out@) =~= before + old(self)@.start_frames(block.spec_json()));
        }
    }

    /// Starts a block.
    fn start(&mut self, kind: OpenKind, block: ContentBlock, out: &mut Vec<BlockFrame>)
        requires
            old(self).next_index < u64::MAX,
        ensures
            final(self).wf(),
            final(self)@ == old(self)@.started(kind),
            frames_view(final(out)@) == frames_view(old(out)@).push(
                FrameView::Start { index: old(self)@.next, block: block.spec_json() },
            ),
    {
        let ghost before = out@;
        out.push(
            BlockFrame::Start(
                ContentBlockStartEvent { index: self.next_index, content_block: block },
            ),
        );
        assert(frames_view(out@) =~= frames_view(before).push(out@.last()@));
        self.next_index = self.next_index + 1;
        self.open = Some(kind);
    }

    /// Adds to the open block.
    fn delta(&self, delta: BlockDelta, out: &mut Vec<BlockFrame>)
        requires
            self.next_index > 0,
        ensures
            frames_view(final(out)@) == frames_view(old(out)@).push(
                FrameView::Delta {
                    index: self@.next - 1,
                    delta: match delta {
                        BlockDelta::Thinking { thinking } => DeltaView::Thinking(thinking@),
                        BlockDelta::Text { text } => DeltaView::Text(text@),
                        BlockDelta::InputJson { partial_json } => DeltaView::InputJson(
                            partial_json@,
                        ),
                    },
                },
            ),
    {
        let ghost before = out@;
        out.push(BlockFrame::Delta(ContentBlockDeltaEvent { index: self.index(), delta }));
        assert(frames_view(out@) =~= frames_view(before).push(out@.last()@));
    }

    /// Closes the open block, if any.
    pub fn close(&mut self, out: &mut Vec<BlockFrame>)
        requires
            old(self).wf(),
        ensures
            final(self).wf(),
            final(self)@ == old(self)@.closed(),
            frames_view(final(out)@) == frames_view(old(out)@) + old(self)@.close_frames(),
    {
        let ghost before = out@;
        if self.open.is_some() {
            out.push(BlockFrame::Stop(ContentBlockStopEvent { index: self.index() }));
            self.open = None;
        }
        assert(frames_view(out@) =~= frames_view(before) + old(self)@.close_frames());
    }

    /// Frames a run of segments.
    pub fn on_segments(&mut self, segments: &Vec<Segment>, out: &mut Vec<BlockFrame>)
        requires
            old(self).wf(),
            old(self).next_index + segments@.len() <= u64::MAX,
        ensures
            final(self).wf(),
            final(self)@ == old(self)@.after_all(segments_view(segments@)),
            frames_view(final(out)@) == frames_view(old(out)@) + old(self)@.all_frames(
                segments_view(segments@),
            ),
    {
        let ghost all = segments_view(segments@);
        let ghost before = frames_view(out@);
        let mut i: usize = 0;
        assert(all.take(0) =~= Seq::empty());
        assert(before =~= before + old(self)@.all_frames(all.take(0)));
        while i < segments.len()
            invariant
                i <= segments@.len(),
                all == segments_view(segments@),
                old(self).next_index + segments@.len() <= u64::MAX,
                self.wf(),
                self.next_index <= old(self).next_index + i,
                self@ == old(self)@.after_all(all.take(i as int)),
                frames_view(out@) == before + old(self)@.all_frames(all.take(i as int)),
            decreases segments@.len() - i,
        {
            assert(all.take(i + 1).drop_last() =~= all.take(i as int));
            assert(all.take(i + 1).last() == segments@[i as int]@);
            self.on_segment(segments[i].duplicate(), out);
            assert(frames_view(out@) =~= before + old(self)@.all_frames(all.take(i + 1)));
            i = i + 1;
        }
        assert(all.take(i as int) =~= all);
    }
}

/// How many blocks the frames have started and whether one is open; nothing
/// when the frames are not well bracketed.
pub open spec fn brackets(frames: Seq<FrameView>) -> Option<(int, bool)>
    decreases frames.len(),
{
    if frames.len() == 0 {
        Some((0, false))
    } else {
        bracket(brackets(frames.drop_last()), frames.last())
    }
}

/// The bracket state after one more frame: blocks are numbered from 0 without
/// gaps, one is open at a time, and deltas and stops name the open one.
pub open spec fn bracket(state: Option<(int, bool)>, frame: FrameView) -> Option<(int, bool)> {
    match state {
        None => None,
        Some((n, open)) => match frame {
            FrameView::Start { index, .. } => if !open && index == n {
                Some((n + 1, true))
            } else {
                None
            },
            FrameView::Delta { index, .. } => if open && index == n - 1 {
                state
            } else {
                None
            },
            FrameView::Stop { index } => if open && index == n - 1 {
                Some((n, false))
            } else {
                None
            },
        },
    }
}

proof fn lemma_brackets_push(frames: Seq<FrameView>, frame: FrameView)
    ensures
        brackets(frames.push(frame)) == bracket(brackets(frames), frame),
{
    assert(frames.push(frame).drop_last() =~= frames);
}

proof fn lemma_brackets_more(frames: Seq<FrameView>, more: Seq<FrameView>)
    requires
        more.len() <= 3,
    ensures
        more.len() == 0 ==> brackets(frames + more) == brackets(frames),
        more.len() == 1 ==> brackets(frames + more) == bracket(brackets(frames), more[0]),
        more.len() == 2 ==> brackets(frames + more) == bracket(
            bracket(brackets(frames), more[0]),
            more[1],
        ),
        more.len() == 3 ==> brackets(frames + more) == bracket(
            bracket(bracket(brackets(frames), more[0]), more[1]),
            more[2],
        ),
{
    if more.len() == 0 {
        assert(frames + more =~= frames);
    } else if more.len() == 1 {
        assert(frames + more =~= frames.push(more[0]));
        lemma_brackets_push(frames, more[0]);
    } else if more.len() == 2 {
        assert(frames + more =~= frames.push(more[0]).push(more[1]));
        lemma_brackets_push(frames, more[0]);
        lemma_brackets_push(frames.push(more[0]), more[1]);
    } else {
        assert(frames + more =~= frames.push(more[0]).push(more[1]).push(more[2]));
        lemma_brackets_push(frames, more[0]);
        lemma_brackets_push(frames.push(more[0]), more[1]);
        lemma_brackets_push(frames.push(more[0]).push(more[1]), more[2]);
    }
}

proof fn lemma_frames_bracketed(segments: Seq<SegmentView>)
    ensures
        ({
            let s = StreamerView { next: 0, open: None };
            brackets(s.all_frames(segments)) == Some(
                (s.after_all(segments).next, s.after_all(segments).open is Some),
            )
        }),
    decreases segments.len(),
{
    let s = StreamerView { next: 0, open: None };
    if segments.len() > 0 {
        lemma_frames_bracketed(segments.drop_last());
        let frames = s.all_frames(segments.drop_last());
        let state = s.after_all(segments.drop_last());
        let more = state.frames(segments.last());
        lemma_brackets_more(frames, more);
    }
}

/// A stream's frames are well bracketed whatever the model emits: blocks are
/// numbered from 0 without gaps, each is started once, gets its deltas while
/// it is open, and is stopped once; and when the stream is closed none is
/// open.
pub proof fn law_blocks_are_bracketed(segments: Seq<SegmentView>)
    ensures
        ({
            let s = StreamerView { next: 0, open: None };
            let end = s.after_all(segments);
            brackets(s.all_frames(segments) + end.close_frames()) == Some((end.next, false))
        }),
{
    let s = StreamerView { next: 0, open: None };
    lemma_frames_bracketed(segments);
    lemma_brackets_more(s.all_frames(segments), s.after_all(segments).close_frames());
}

/// The text the frames carry.
pub open spec fn frames_text(frames: Seq<FrameView>) -> Seq<char>
    decreases frames.len(),
{
    if frames.len() == 0 {
        Seq::empty()
    } else {
        frames_text(frames.drop_last()) + frame_text(frames.last())
    }
}

pub open spec fn frame_text(frame: FrameView) -> Seq<char> {
    match frame {
        FrameView::Delta { delta: DeltaView::Text(t), .. } => t,
        _ => Seq::empty(),
    }
}

/// The thinking the frames carry.
pub open spec fn frames_thinking(frames: Seq<FrameView>) -> Seq<char>
    decreases frames.len(),
{
    if frames.len() == 0 {
        Seq::empty()
    } else {
        frames_thinking(frames.drop_last()) + frame_thinking(frames.last())
    }
}

pub open spec fn frame_thinking(frame: FrameView) -> Seq<char> {
    match frame {
        FrameView::Delta { delta: DeltaView::Thinking(t), .. } => t,
        _ => Seq::empty(),
    }
}

proof fn lemma_frames_more(a: Seq<FrameView>, b: Seq<FrameView>)
    ensures
        frames_text(a + b) == frames_text(a) + frames_text(b),
        frames_thinking(a + b) == frames_thinking(a) + frames_thinking(b),
    decreases b.len(),
{
    if b.len() == 0 {
        assert(a + b =~= a);
        assert(frames_text(a) + frames_text(b) =~= frames_text(a));
        assert(frames_thinking(a) + frames_thinking(b) =~= frames_thinking(a));
    } else {
        assert((a + b).drop_last() =~= a + b.drop_last());
        assert((a + b).last() == b.last());
        lemma_frames_more(a, b.drop_last());
        assert(frames_text(a) + frames_text(b) =~= frames_text(a) + frames_text(b.drop_last())
            + frame_text(b.last()));
        assert(frames_thinking(a) + frames_thinking(b) =~= frames_thinking(a) + frames_thinking(
            b.drop_last(),
        ) + frame_thinking(b.last()));
    }
}

proof fn lemma_one_frame(f: FrameView)
    ensures
        frames_text(seq![f]) == frame_text(f),
        frames_thinking(seq![f]) == frame_thinking(f),
{
    assert(seq![f].drop_last() =~= Seq::empty());
    assert(frames_text(seq![f].drop_last()) =~= Seq::<char>::empty());
    assert(frames_thinking(seq![f].drop_last()) =~= Seq::<char>::empty());
    assert(Seq::<char>::empty() + frame_text(f) =~= frame_text(f));
    assert(Seq::<char>::empty() + frame_thinking(f) =~= frame_thinking(f));
}

proof fn lemma_segment_frames(s: StreamerView, segment: SegmentView)
    ensures
        frames_text(s.frames(segment)) == (match segment {
            SegmentView::Text(t) => t,
            _ => Seq::empty(),
        }),
        frames_thinking(s.frames(segment)) == (match segment {
            SegmentView::Thinking(t) => t,
            _ => Seq::empty(),
        }),
{
    let stop = FrameView::Stop { index: s.next - 1 };
    lemma_one_frame(stop);
    match segment {
        SegmentView::Thinking(t) => {
            let block = empty_thinking();
            let start = FrameView::Start { index: s.next, block };
            let d1 = FrameView::Delta { index: s.next - 1, delta: DeltaView::Thinking(t) };
            let d2 = FrameView::Delta { index: s.next, delta: DeltaView::Thinking(t) };
            lemma_one_frame(start);
            lemma_one_frame(d1);
            lemma_one_frame(d2);
            lemma_frames_more(s.close_frames(), seq![start]);
            lemma_frames_more(s.start_frames(block), seq![d2]);
            assert(Seq::<char>::empty() + Seq::<char>::empty() =~= Seq::<char>::empty());
            assert(Seq::<char>::empty() + t =~= t);
            if t.len() == 0 {
                assert(t =~= Seq::empty());
            }
        },
        SegmentView::Text(t) => {
            let block = empty_text();
            let start = FrameView::Start { index: s.next, block };
            let d1 = FrameView::Delta { index: s.next - 1, delta: DeltaView::Text(t) };
            let d2 = FrameView::Delta { index: s.next, delta: DeltaView::Text(t) };
            lemma_one_frame(start);
            lemma_one_frame(d1);
            lemma_one_frame(d2);
            lemma_frames_more(s.close_frames(), seq![start]);
            lemma_frames_more(s.start_frames(block), seq![d2]);
            assert(Seq::<char>::empty() + Seq::<char>::empty() =~= Seq::<char>::empty());
            assert(Seq::<char>::empty() + t =~= t);
            if t.len() == 0 {
                assert(t =~= Seq::empty());
            }
        },
        SegmentView::ToolStart { id, name } => {
            let start = FrameView::Start { index: s.next, block: empty_tool(id, name) };
            lemma_one_frame(start);
            lemma_frames_more(s.close_frames(), seq![start]);
            assert(Seq::<char>::empty() + Seq::<char>::empty() =~= Seq::<char>::empty());
        },
        SegmentView::ToolArgs { delta } => {
            lemma_one_frame(
                FrameView::Delta { index: s.next - 1, delta: DeltaView::InputJson(delta) },
            );
        },
        SegmentView::ToolEnd => {},
    }
}

/// A stream and a collected response carry the same text and the same
/// thinking: what the deltas concatenate to is what the blocks hold.
pub proof fn law_stream_and_response_agree(segments: Seq<SegmentView>)
    ensures
        ({
            let s = StreamerView { next: 0, open: None };
            let blocks = blocks_of(Seq::empty(), segments);
            &&& frames_text(s.all_frames(segments)) == text_of(segments)
            &&& blocks_text(blocks) == text_of(segments)
            &&& frames_thinking(s.all_frames(segments)) == thinking_of(segments)
            &&& blocks_thinking(blocks) == thinking_of(segments)
        }),
    decreases segments.len(),
{
    let s = StreamerView { next: 0, open: None };
    if segments.len() > 0 {
        let rest = segments.drop_last();
        law_stream_and_response_agree(rest);
        lemma_blocks_with(blocks_of(Seq::empty(), rest), segments.last());
        lemma_segment_frames(s.after_all(rest), segments.last());
        lemma_frames_more(s.all_frames(rest), s.after_all(rest).frames(segments.last()));
        assert(text_of(rest) + Seq::<char>::empty() =~= text_of(rest));
        assert(thinking_of(rest) + Seq::<char>::empty() =~= thinking_of(rest));
    }
}

/// A block that stands in a response or starts in a stream is no call, or its id
/// is fresh.
pub open spec fn tool_id_tagged(block: JsonView) -> bool {
    json::str_field(block, "type"@) == Some("tool_use"@) ==> {
        &&& json::str_field(block, "id"@) is Some
        &&& chat::is_tagged_id(json::str_field(block, "id"@)->0, "toolu_"@)
    }
}

/// The blocks' own ids are fresh.
pub open spec fn block_ids_tagged(blocks: Seq<BlockView>) -> bool {
    forall|i: int|
        0 <= i < blocks.len() && (#[trigger] blocks[i]) is ToolUse ==> chat::is_tagged_id(
            blocks[i]->id,
            "toolu_"@,
        )
}

proof fn lemma_block_words()
    ensures
        "type"@ != "id"@ && "type"@ != "name"@ && "type"@ != "input"@,
        "id"@ != "name"@ && "id"@ != "input"@,
        "type"@ != "thinking"@ && "type"@ != "signature"@ && "type"@ != "text"@,
        "thinking"@ != "tool_use"@ && "text"@ != "tool_use"@,
{
    reveal_strlit("type");
    reveal_strlit("id");
    reveal_strlit("name");
    reveal_strlit("input");
    reveal_strlit("thinking");
    reveal_strlit("signature");
    reveal_strlit("text");
    reveal_strlit("tool_use");
    assert("type"@.len() == 4 && "type"@[1] == 'y');
    assert("id"@.len() == 2 && "input"@.len() == 5 && "signature"@.len() == 9);
    assert("name"@.len() == 4 && "name"@[1] == 'a');
    assert("text"@.len() == 4 && "text"@[1] == 'e');
    assert("thinking"@.len() == 8 && "thinking"@[1] == 'h');
    assert("tool_use"@.len() == 8 && "tool_use"@[1] == 'o');
}

proof fn lemma_block_tagged(block: BlockView)
    requires
        block is ToolUse ==> chat::is_tagged_id(block->id, "toolu_"@),
    ensures
        block_json(block) is Some ==> tool_id_tagged(block_json(block)->0),
{
    lemma_block_words();
}

proof fn lemma_empty_blocks_tagged()
    ensures
        tool_id_tagged(empty_thinking()),
        tool_id_tagged(empty_text()),
        forall|id: Seq<char>, name: Seq<char>|
            chat::is_tagged_id(id, "toolu_"@) ==> tool_id_tagged(#[trigger] empty_tool(id, name)),
{
    lemma_block_words();
}

proof fn lemma_content_tagged(blocks: Seq<BlockView>)
    requires
        block_ids_tagged(blocks),
    ensures
        forall|i: int|
            0 <= i < content_of(blocks).len() ==> tool_id_tagged(#[trigger] content_of(blocks)[i]),
    decreases blocks.len(),
{
    if blocks.len() > 0 {
        let rest = blocks.drop_last();
        assert forall|i: int| 0 <= i < rest.len() && (#[trigger] rest[i]) is ToolUse implies
            chat::is_tagged_id(rest[i]->id, "toolu_"@) by {
            assert(rest[i] == blocks[i]);
        }
        lemma_content_tagged(rest);
        assert(blocks.last() == blocks[blocks.len() - 1]);
        lemma_block_tagged(blocks.last());
        let before = content_of(rest);
        let all = content_of(blocks);
        assert forall|i: int| 0 <= i < all.len() implies tool_id_tagged(#[trigger] all[i]) by {
            if i < before.len() {
                assert(all[i] == before[i]);
            }
        }
    }
}

/// Where every call that starts has an id with the prefix `toolu_`, so has every
/// call in the response and every call that starts in the stream.
pub proof fn law_tool_ids_are_tagged(segments: Seq<SegmentView>)
    requires
        ids_tagged(segments),
    ensures
        ({
            let blocks = blocks_of(Seq::empty(), segments);
            let frames = (StreamerView { next: 0, open: None }).all_frames(segments);
            &&& block_ids_tagged(blocks)
            &&& forall|i: int|
                0 <= i < content_of(blocks).len() ==> tool_id_tagged(
                    #[trigger] content_of(blocks)[i],
                )
            &&& forall|i: int|
                0 <= i < frames.len() && (#[trigger] frames[i]) is Start ==> tool_id_tagged(
                    frames[i]->block,
                )
        }),
    decreases segments.len(),
{
    let s = StreamerView { next: 0, open: None };
    let blocks = blocks_of(Seq::empty(), segments);
    let frames = s.all_frames(segments);
    if segments.len() > 0 {
        let rest = segments.drop_last();
        let last = segments.last();
        assert(last == segments[segments.len() - 1]);
        assert forall|i: int| 0 <= i < rest.len() && (#[trigger] rest[i]) is ToolStart implies
            chat::is_tagged_id(rest[i]->id, "toolu_"@) by {
            assert(rest[i] == segments[i]);
        }
        law_tool_ids_are_tagged(rest);
        let before = blocks_of(Seq::empty(), rest);
        assert forall|i: int| 0 <= i < blocks.len() && (#[trigger] blocks[i]) is ToolUse implies
            chat::is_tagged_id(blocks[i]->id, "toolu_"@) by {
            if i < before.len() - 1 {
                assert(blocks[i] == before[i]);
            } else if i < before.len() {
                assert(before[i] is ToolUse ==> chat::is_tagged_id(before[i]->id, "toolu_"@));
                assert(before[i] == before.last());
            }
        }
        lemma_empty_blocks_tagged();
        let old_frames = s.all_frames(rest);
        let new_frames = s.after_all(rest).frames(last);
        assert forall|i: int| 0 <= i < frames.len() && (#[trigger] frames[i]) is Start implies
            tool_id_tagged(frames[i]->block) by {
            if i < old_frames.len() {
                assert(frames[i] == old_frames[i]);
            } else {
                assert(frames[i] == new_frames[i - old_frames.len()]);
            }
        }
    }
    lemma_content_tagged(blocks);
}

/// The first round goes by the request's own id, and the rounds behind it by that
/// id, `-r` and the round's number.
pub proof fn law_rounds_go_by_their_number(base: Seq<char>, round: usize)
    ensures
        round_id(base, 0) == base,
        round > 0 ==> {
            let id = round_id(base, round);
            &&& id.len() > base.len() + 2
            &&& id.take(base.len() as int) == base
            &&& id[base.len() as int] == '-'
            &&& id[base.len() as int + 1] == 'r'
            &&& id.skip(base.len() as int + 2) == text::decimal(round as nat)
        },
{
    reveal_strlit("-r");
    if round > 0 {
        let id = round_id(base, round);
        assert(id.take(base.len() as int) =~= base);
        assert(id.skip(base.len() as int + 2) =~= text::decimal(round as nat));
        assert(text::decimal(round as nat).len() > 0);
    }
}

/// Why a response stopped: the token limit goes before tool calls, tool calls go
/// before a stop sequence, and only a sequence that the request gave counts.
pub proof fn law_stop_reasons_have_their_order(
    finish_reason: Seq<char>,
    calls_completed: usize,
    m: Seq<char>,
    stop_sequences: Seq<Seq<char>>,
)
    ensures
        finish_reason == "length"@ ==> stop_reason_of(
            finish_reason,
            calls_completed,
            Some(m),
            stop_sequences,
        ) == ("max_tokens"@, None::<Seq<char>>),
        finish_reason != "length"@ && calls_completed > 0 ==> stop_reason_of(
            finish_reason,
            calls_completed,
            Some(m),
            stop_sequences,
        ) == ("tool_use"@, None::<Seq<char>>),
        finish_reason != "length"@ && stop_sequences.contains(m) ==> stop_reason_of(
            finish_reason,
            0,
            Some(m),
            stop_sequences,
        ) == ("stop_sequence"@, Some(m)),
        finish_reason != "length"@ && !stop_sequences.contains(m) ==> stop_reason_of(
            finish_reason,
            0,
            Some(m),
            stop_sequences,
        ) == ("end_turn"@, None::<Seq<char>>),
        finish_reason != "length"@ ==> stop_reason_of(finish_reason, 0, None, stop_sequences) == (
            "end_turn"@,
            None::<Seq<char>>,
        ),
{
}

/// A match of the gateway goes before what the worker reports, and an empty report
/// is no match.
pub proof fn law_the_gateways_match_goes_first(pipeline: chat::PipelineView, finished: Finished)
    ensures
        pipeline.hit is Some ==> matched_stop(pipeline, finished) == pipeline.hit,
        pipeline.hit is None && finished.matched_stop@.len() > 0 ==> matched_stop(
            pipeline,
            finished,
        ) == Some(finished.matched_stop@),
        pipeline.hit is None && finished.matched_stop@.len() == 0 ==> matched_stop(
            pipeline,
            finished,
        ) is None,
{
}

/// What the think tags told apart stays apart and in order.
pub proof fn law_pieces_keep_their_kind(pieces: Seq<ThinkPiece>, i: int)
    requires
        0 <= i < pieces.len(),
    ensures
        piece_segments(pieces).len() == pieces.len(),
        match pieces[i] {
            ThinkPiece::Thinking(t) => piece_segments(pieces)[i] == SegmentView::Thinking(t@),
            ThinkPiece::Text(t) => piece_segments(pieces)[i] == SegmentView::Text(t@),
        },
{
}

/// What a tool event becomes: content is what the think parser made of it, or text
/// as it is; a call starts behind what the parser still held; arguments and ends
/// stand alone.
pub proof fn law_events_become_segments(
    t: Seq<char>,
    name: Seq<char>,
    index: usize,
    pieces: Seq<SegmentView>,
    id: Seq<char>,
)
    ensures
        event_segments(ToolEventView::Content(t), true, pieces, id) == pieces,
        event_segments(ToolEventView::Content(t), false, pieces, id) == seq![SegmentView::Text(t)],
        event_segments(ToolEventView::CallStart { index, name }, true, pieces, id) == pieces.push(
            SegmentView::ToolStart { id, name },
        ),
        event_segments(ToolEventView::CallStart { index, name }, false, pieces, id) == seq![
            SegmentView::ToolStart { id, name },
        ],
        forall|thinks: bool|
            #![auto]
            event_segments(ToolEventView::CallArgs { index, delta: t }, thinks, pieces, id)
                == seq![SegmentView::ToolArgs { delta: t }],
        forall|thinks: bool|
            #![auto]
            event_segments(ToolEventView::CallEnd { index }, thinks, pieces, id) == seq![
                SegmentView::ToolEnd,
            ],
{
    assert(event_segments(ToolEventView::CallStart { index, name }, false, pieces, id) =~= seq![
        SegmentView::ToolStart { id, name },
    ]);
}

/// A segment more: text and thinking go out at once and tool segments are withheld,
/// in order; only text joins the history.
pub proof fn law_segments_are_routed(segments: Seq<SegmentView>, segment: SegmentView)
    ensures
        ({
            let all = segments.push(segment);
            match segment {
                SegmentView::Text(t) => {
                    &&& live_of(all) == live_of(segments).push(segment)
                    &&& tools_of(all) == tools_of(segments)
                    &&& text_of(all) == text_of(segments) + t
                    &&& thinking_of(all) == thinking_of(segments)
                },
                SegmentView::Thinking(t) => {
                    &&& live_of(all) == live_of(segments).push(segment)
                    &&& tools_of(all) == tools_of(segments)
                    &&& text_of(all) == text_of(segments)
                    &&& thinking_of(all) == thinking_of(segments) + t
                },
                _ => {
                    &&& live_of(all) == live_of(segments)
                    &&& tools_of(all) == tools_of(segments).push(segment)
                    &&& text_of(all) == text_of(segments)
                    &&& thinking_of(all) == thinking_of(segments)
                },
            }
        }),
        live_of(Seq::empty()).len() == 0,
        tools_of(Seq::empty()).len() == 0,
        text_of(Seq::empty()).len() == 0,
        thinking_of(Seq::empty()).len() == 0,
{
    assert(segments.push(segment).drop_last() =~= segments);
}

/// The calls of a round grow with its segments: a start adds a call without
/// arguments, arguments go to the last call, and the rest changes nothing.
pub proof fn law_calls_grow_with_their_segments(
    calls: Seq<CallTextView>,
    segments: Seq<SegmentView>,
    segment: SegmentView,
    i: int,
)
    ensures
        calls_with(calls, Seq::empty()) == calls,
        ({
            let before = calls_with(calls, segments);
            let after = calls_with(calls, segments.push(segment));
            match segment {
                SegmentView::ToolStart { name, .. } => {
                    &&& after.len() == before.len() + 1
                    &&& after.last().name == name
                    &&& after.last().arguments.len() == 0
                    &&& 0 <= i < before.len() ==> after[i] == before[i]
                },
                SegmentView::ToolArgs { delta } => {
                    &&& after.len() == before.len()
                    &&& before.len() > 0 ==> after.last().name == before.last().name
                    &&& before.len() > 0 ==> after.last().arguments == before.last().arguments
                        + delta
                    &&& 0 <= i < before.len() - 1 ==> after[i] == before[i]
                },
                _ => after == before,
            }
        }),
{
    assert(segments.push(segment).drop_last() =~= segments);
}

/// The blocks of a response grow with its segments: text and thinking join a block
/// of their kind at the end or begin one, a call begins one, arguments go to the
/// call at the end, and nothing before the last block changes.
pub proof fn law_blocks_grow_with_their_segments(
    blocks: Seq<BlockView>,
    segment: SegmentView,
    i: int,
)
    ensures
        ({
            let after = blocks_with(blocks, segment);
            let joins = match segment {
                SegmentView::Thinking(_) => blocks.len() > 0 && blocks.last() is Thinking,
                SegmentView::Text(_) => blocks.len() > 0 && blocks.last() is Text,
                SegmentView::ToolStart { .. } => false,
                _ => true,
            };
            &&& after.len() == blocks.len() + (if joins {
                0int
            } else {
                1int
            })
            &&& 0 <= i < blocks.len() && (i < blocks.len() - 1 || !joins) ==> after[i] == blocks[i]
            &&& match segment {
                SegmentView::Thinking(t) => after.last() == (if joins {
                    BlockView::Thinking(blocks.last()->Thinking_0 + t)
                } else {
                    BlockView::Thinking(t)
                }),
                SegmentView::Text(t) => after.last() == (if joins {
                    BlockView::Text(blocks.last()->Text_0 + t)
                } else {
                    BlockView::Text(t)
                }),
                SegmentView::ToolStart { id, name } => {
                    &&& after.last() is ToolUse
                    &&& after.last()->id == id
                    &&& after.last()->name == name
                    &&& after.last()->arguments.len() == 0
                },
                SegmentView::ToolArgs { delta } => if blocks.len() > 0 && blocks.last() is ToolUse {
                    &&& after.last() is ToolUse
                    &&& after.last()->id == blocks.last()->id
                    &&& after.last()->name == blocks.last()->name
                    &&& after.last()->arguments == blocks.last()->arguments + delta
                } else {
                    after == blocks
                },
                SegmentView::ToolEnd => after == blocks,
            }
        }),
{
}

/// The blocks of a run of segments are those of all but the last, with the last
/// added.
pub proof fn law_blocks_take_the_segments_in_order(
    blocks: Seq<BlockView>,
    segments: Seq<SegmentView>,
    segment: SegmentView,
)
    ensures
        blocks_of(blocks, Seq::empty()) == blocks,
        blocks_of(blocks, segments.push(segment)) == blocks_with(
            blocks_of(blocks, segments),
            segment,
        ),
{
    assert(segments.push(segment).drop_last() =~= segments);
}

/// A block stands in the response under its kind and with what it holds: empty text
/// is dropped, and so is a call whose arguments are no JSON; a call without
/// arguments has an empty object for its input.
pub proof fn law_blocks_stand_whole_in_the_response(block: BlockView)
    ensures
        match block {
            BlockView::Thinking(t) => {
                &&& block_json(block) is None <==> t.len() == 0
                &&& t.len() > 0 ==> {
                    let j = block_json(block)->0;
                    &&& json::str_field(j, "type"@) == Some("thinking"@)
                    &&& json::str_field(j, "thinking"@) == Some(t)
                    &&& json::str_field(j, "signature"@) == Some(""@)
                }
            },
            BlockView::Text(t) => {
                &&& block_json(block) is None <==> t.len() == 0
                &&& t.len() > 0 ==> {
                    let j = block_json(block)->0;
                    &&& json::str_field(j, "type"@) == Some("text"@)
                    &&& json::str_field(j, "text"@) == Some(t)
                }
            },
            BlockView::ToolUse { id, name, arguments } => {
                &&& block_json(block) is None <==> arguments.len() > 0 && json::parsed(
                    arguments,
                ) is Err
                &&& block_json(block) is Some ==> {
                    let j = block_json(block)->0;
                    &&& json::str_field(j, "type"@) == Some("tool_use"@)
                    &&& json::str_field(j, "id"@) == Some(id)
                    &&& json::str_field(j, "name"@) == Some(name)
                    &&& json::field(j, "input"@) == Some(
                        if arguments.len() == 0 {
                            JsonView::Object(Map::empty())
                        } else {
                            json::parsed(arguments)->Ok_0
                        },
                    )
                }
            },
        },
{
    lemma_block_words();
    reveal_strlit("name");
    reveal_strlit("input");
    reveal_strlit("thinking");
    reveal_strlit("signature");
    assert("name"@.len() != "input"@.len());
    assert("thinking"@.len() != "signature"@.len());
}

/// The content of a response is its blocks in order, without those that are
/// dropped.
pub proof fn law_content_is_the_blocks_in_order(blocks: Seq<BlockView>, block: BlockView)
    ensures
        content_of(Seq::empty()).len() == 0,
        block_json(block) is Some ==> content_of(blocks.push(block)) == content_of(blocks).push(
            block_json(block)->0,
        ),
        block_json(block) is None ==> content_of(blocks.push(block)) == content_of(blocks),
{
    assert(blocks.push(block).drop_last() =~= blocks);
}

/// A block starts in a stream under its kind and without content.
pub proof fn law_blocks_start_empty(id: Seq<char>, name: Seq<char>)
    ensures
        json::str_field(empty_thinking(), "type"@) == Some("thinking"@),
        json::str_field(empty_thinking(), "thinking"@) == Some(Seq::<char>::empty()),
        json::str_field(empty_thinking(), "signature"@) == Some(""@),
        json::str_field(empty_text(), "type"@) == Some("text"@),
        json::str_field(empty_text(), "text"@) == Some(Seq::<char>::empty()),
        json::str_field(empty_tool(id, name), "type"@) == Some("tool_use"@),
        json::str_field(empty_tool(id, name), "id"@) == Some(id),
        json::str_field(empty_tool(id, name), "name"@) == Some(name),
        json::field(empty_tool(id, name), "input"@) == Some(JsonView::Object(Map::empty())),
{
    lemma_block_words();
    reveal_strlit("name");
    reveal_strlit("input");
    reveal_strlit("thinking");
    reveal_strlit("signature");
    assert("name"@.len() != "input"@.len());
    assert("thinking"@.len() != "signature"@.len());
}

/// The block that a segment goes to is of its kind: one of another kind is closed
/// first, and the new one is numbered next.
pub proof fn law_segments_go_to_a_block_of_their_kind(s: StreamerView, t: Seq<char>)
    requires
        t.len() > 0,
    ensures
        ({
            let frames = s.frames(SegmentView::Text(t));
            let after = s.after(SegmentView::Text(t));
            &&& after.open == Some(OpenKind::Text)
            &&& s.open == Some(OpenKind::Text) ==> after.next == s.next && frames.len() == 1
                && frames[0] == (FrameView::Delta { index: s.next - 1, delta: DeltaView::Text(t) })
            &&& s.open != Some(OpenKind::Text) ==> {
                let n = frames.len();
                &&& after.next == s.next + 1
                &&& n == (if s.open is Some {
                    3int
                } else {
                    2int
                })
                &&& s.open is Some ==> frames[0] == (FrameView::Stop { index: s.next - 1 })
                &&& frames[n - 2] == (FrameView::Start { index: s.next, block: empty_text() })
                &&& frames[n - 1] == (FrameView::Delta {
                    index: s.next,
                    delta: DeltaView::Text(t),
                })
            }
        }),
        ({
            let frames = s.frames(SegmentView::Thinking(t));
            let after = s.after(SegmentView::Thinking(t));
            &&& after.open == Some(OpenKind::Thinking)
            &&& s.open == Some(OpenKind::Thinking) ==> after.next == s.next && frames.len() == 1
                && frames[0] == (FrameView::Delta {
                index: s.next - 1,
                delta: DeltaView::Thinking(t),
            })
            &&& s.open != Some(OpenKind::Thinking) ==> {
                let n = frames.len();
                &&& after.next == s.next + 1
                &&& n == (if s.open is Some {
                    3int
                } else {
                    2int
                })
                &&& s.open is Some ==> frames[0] == (FrameView::Stop { index: s.next - 1 })
                &&& frames[n - 2] == (FrameView::Start { index: s.next, block: empty_thinking() })
                &&& frames[n - 1] == (FrameView::Delta {
                    index: s.next,
                    delta: DeltaView::Thinking(t),
                })
            }
        }),
{
}

/// Empty text and empty thinking send nothing and change nothing.
pub proof fn law_empty_text_sends_nothing(s: StreamerView, t: Seq<char>)
    requires
        t.len() == 0,
    ensures
        s.frames(SegmentView::Text(t)).len() == 0,
        s.after(SegmentView::Text(t)) == s,
        s.frames(SegmentView::Thinking(t)).len() == 0,
        s.after(SegmentView::Thinking(t)) == s,
        s.frames(SegmentView::ToolArgs { delta: t }).len() == 0,
{
}

/// A call starts a block of its own with its id and name, its arguments go to that
/// block while it is open, and its end stops it.
pub proof fn law_calls_have_blocks_of_their_own(
    s: StreamerView,
    id: Seq<char>,
    name: Seq<char>,
    delta: Seq<char>,
)
    ensures
        ({
            let frames = s.frames(SegmentView::ToolStart { id, name });
            let after = s.after(SegmentView::ToolStart { id, name });
            &&& after.open == Some(OpenKind::Tool)
            &&& after.next == s.next + 1
            &&& frames.len() == (if s.open is Some {
                2int
            } else {
                1int
            })
            &&& s.open is Some ==> frames[0] == (FrameView::Stop { index: s.next - 1 })
            &&& frames.last() == (FrameView::Start { index: s.next, block: empty_tool(id, name) })
            &&& delta.len() > 0 ==> after.frames(SegmentView::ToolArgs { delta }).len() == 1
            &&& delta.len() > 0 ==> after.frames(SegmentView::ToolArgs { delta })[0] == (
            FrameView::Delta { index: s.next, delta: DeltaView::InputJson(delta) })
            &&& after.after(SegmentView::ToolArgs { delta }) == after
            &&& after.frames(SegmentView::ToolEnd).len() == 1
            &&& after.frames(SegmentView::ToolEnd)[0] == (FrameView::Stop { index: s.next })
            &&& after.after(SegmentView::ToolEnd).open is None
            &&& after.after(SegmentView::ToolEnd).next == s.next + 1
        }),
        s.open != Some(OpenKind::Tool) ==> s.frames(SegmentView::ToolArgs { delta }).len() == 0,
{
}

/// A run of segments sends the frames of each in order, each as the ones before it
/// left the stream.
pub proof fn law_frames_follow_the_segments(
    s: StreamerView,
    segments: Seq<SegmentView>,
    segment: SegmentView,
)
    ensures
        s.all_frames(Seq::empty()).len() == 0,
        s.after_all(Seq::empty()) == s,
        s.all_frames(segments.push(segment)) == s.all_frames(segments) + s.after_all(
            segments,
        ).frames(segment),
        s.after_all(segments.push(segment)) == s.after_all(segments).after(segment),
{
    assert(segments.push(segment).drop_last() =~= segments);
}

} // verus!
