//! Reading a generation stream: from server-sent events to model events.

use vstd::prelude::*;

use crate::provider::openrouter::wire::{
    completion_outcome, decoded_chunk, finish_fault, finish_reason_error, outcome_of,
    parse_sse_data, sse_event, ChatChunk, ChatChunkView, ParsedChatChunk, ParsedChunkView,
    ParsedEventView, ParsedSseEvent,
};
use crate::provider::openrouter::{
    format_stream_error, lemma_errors_hide_key, stands_out, with_context, ResponseContext,
    ResponseContextView,
};
use crate::provider::{
    provider_error_text, stream_items, CompletionOutcome, ModelEvent, ModelEventView, ProviderError,
    ProviderErrorView, Usage,
};
use crate::text::{occurs, texts};

verus! {

/// What arrives from a generation stream.
pub enum StreamInput {
    /// The response body ended.
    Ended,
    /// The transport or the event parser failed.
    TransportError,
    /// An event with this data; `chunk` is the decoded data, or nothing where it is no chunk.
    Event { data: String, chunk: Option<ChatChunk> },
}

/// The mathematical form of a stream input.
#[verifier::ext_equal]
pub enum StreamInputView {
    Ended,
    TransportError,
    Event { data: Seq<char>, chunk: Option<ChatChunkView> },
}

impl View for StreamInput {
    type V = StreamInputView;

    open spec fn view(&self) -> StreamInputView {
        match *self {
            StreamInput::Ended => StreamInputView::Ended,
            StreamInput::TransportError => StreamInputView::TransportError,
            StreamInput::Event { data, chunk } => StreamInputView::Event {
                data: data@,
                chunk: decoded_chunk(chunk),
            },
        }
    }
}

/// The state of one generation stream.
#[derive(PartialEq, Eq)]
pub struct GenerationStream {
    api_key: String,
    response_context: ResponseContext,
    completion_outcome: Option<CompletionOutcome>,
    latest_usage: Option<Usage>,
    finished: bool,
}

/// The mathematical form of a stream's state.
#[verifier::ext_equal]
pub struct StreamView {
    pub api_key: Seq<char>,
    pub context: ResponseContextView,
    pub outcome: Option<CompletionOutcome>,
    pub usage: Option<Usage>,
    pub finished: bool,
}

impl View for GenerationStream {
    type V = StreamView;

    closed spec fn view(&self) -> StreamView {
        StreamView {
            api_key: self.api_key@,
            context: self.response_context@,
            outcome: self.completion_outcome,
            usage: self.latest_usage,
            finished: self.finished,
        }
    }
}

/// One item that a stream hands on.
pub type ItemView = Result<ModelEventView, ProviderErrorView>;

/// The error item for this message.
pub open spec fn error_item(v: StreamView, message: Seq<char>) -> ItemView {
    Err(ProviderErrorView::Streaming(with_context(message, v.context, Some(v.api_key))))
}

/// The end of a stream with an error.
pub open spec fn failed(v: StreamView, message: Seq<char>) -> (StreamView, Seq<ItemView>) {
    (StreamView { finished: true, ..v }, seq![error_item(v, message)])
}

/// The items that hand on these text deltas.
pub open spec fn delta_items(text_deltas: Seq<Seq<char>>) -> Seq<ItemView> {
    text_deltas.map_values(
        |text: Seq<char>| Ok::<ModelEventView, ProviderErrorView>(ModelEventView::TextDelta(text)),
    )
}

/// The end of a stream with its completion: the latest usage, if any was reported, and the outcome.
pub open spec fn completed(v: StreamView) -> (StreamView, Seq<ItemView>) {
    let finished = Ok::<ModelEventView, ProviderErrorView>(ModelEventView::Finished(v.outcome->0));
    (
        StreamView { finished: true, ..v },
        match v.usage {
            Some(usage) => seq![Ok(ModelEventView::Usage(usage)), finished],
            None => seq![finished],
        },
    )
}

/// What a chunk does: its outcome must agree with an earlier one, then its text is handed on and its
/// usage replaces the earlier one.
pub open spec fn chunk_step(v: StreamView, chunk: ParsedChunkView) -> (StreamView, Seq<ItemView>) {
    let usage = if chunk.usage is Some {
        chunk.usage
    } else {
        v.usage
    };
    match chunk.finish_reason {
        None => (StreamView { usage, ..v }, delta_items(chunk.text_deltas)),
        Some(reason) => match outcome_of(reason) {
            None => failed(v, finish_fault(reason)),
            Some(outcome) => if v.outcome is Some && v.outcome->0 != outcome {
                failed(v, "OpenRouter stream returned conflicting completion outcomes"@)
            } else {
                (
                    StreamView { outcome: Some(outcome), usage, ..v },
                    delta_items(chunk.text_deltas),
                )
            },
        },
    }
}

/// What one input does to a stream, and the items that it hands on.
pub open spec fn stream_step(v: StreamView, input: StreamInputView) -> (
    StreamView,
    Seq<ItemView>,
) {
    if v.finished {
        (v, Seq::empty())
    } else {
        match input {
            StreamInputView::Ended => failed(v, "OpenRouter stream ended before [DONE]"@),
            StreamInputView::TransportError => failed(
                v,
                "OpenRouter SSE transport or parser error"@,
            ),
            StreamInputView::Event { data, chunk } => match sse_event(data, chunk) {
                Err(detail) => failed(v, detail),
                Ok(ParsedEventView::Error(message)) => failed(v, message),
                Ok(ParsedEventView::Done) => if v.outcome is None {
                    failed(v, "OpenRouter stream ended with [DONE] but no completion outcome"@)
                } else {
                    completed(v)
                },
                Ok(ParsedEventView::Chunk(chunk)) => chunk_step(v, chunk),
            },
        }
    }
}

fn same_outcome(a: CompletionOutcome, b: CompletionOutcome) -> (r: bool)
    ensures
        r == (a == b),
{
    match (a, b) {
        (CompletionOutcome::Complete, CompletionOutcome::Complete) => true,
        (CompletionOutcome::LengthLimited, CompletionOutcome::LengthLimited) => true,
        _ => false,
    }
}

impl GenerationStream {
    /// A stream that nothing has been read from.
    pub fn new(api_key: String, response_context: ResponseContext) -> (stream: Self)
        ensures
            stream@ == (StreamView {
                api_key: api_key@,
                context: response_context@,
                outcome: None,
                usage: None,
                finished: false,
            }),
    {
        GenerationStream {
            api_key,
            response_context,
            completion_outcome: None,
            latest_usage: None,
            finished: false,
        }
    }

    /// Whether the stream has handed on its last item.
    pub fn is_finished(&self) -> (finished: bool)
        ensures
            finished == self@.finished,
    {
        self.finished
    }

    fn fail(&mut self, message: &str) -> (items: Vec<Result<ModelEvent, ProviderError>>)
        ensures
            (final(self)@, stream_items(items@)) == failed(old(self)@, message@),
    {
        let text = format_stream_error(message, &self.response_context, self.api_key.as_str());
        let mut items: Vec<Result<ModelEvent, ProviderError>> = Vec::new();
        items.push(Err(ProviderError::Streaming(text)));
        self.finished = true;
        assert(stream_items(items@) =~= failed(old(self)@, message@).1);
        items
    }

    fn complete(&mut self, outcome: CompletionOutcome) -> (items: Vec<
        Result<ModelEvent, ProviderError>,
    >)
        requires
            old(self)@.outcome == Some(outcome),
        ensures
            (final(self)@, stream_items(items@)) == completed(old(self)@),
    {
        let mut items: Vec<Result<ModelEvent, ProviderError>> = Vec::new();
        if let Some(usage) = self.latest_usage {
            items.push(Ok(ModelEvent::Usage(usage)));
        }
        items.push(Ok(ModelEvent::Finished(outcome)));
        self.finished = true;
        assert(stream_items(items@) =~= completed(old(self)@).1);
        items
    }

    fn take_chunk(&mut self, chunk: ParsedChatChunk) -> (items: Vec<
        Result<ModelEvent, ProviderError>,
    >)
        ensures
            (final(self)@, stream_items(items@)) == chunk_step(old(self)@, chunk@),
    {
        if let Some(finish_reason) = chunk.finish_reason {
            match completion_outcome(finish_reason) {
                None => {
                    return self.fail(finish_reason_error(finish_reason));
                },
                Some(outcome) => {
                    if let Some(current) = self.completion_outcome {
                        if !same_outcome(current, outcome) {
                            return self.fail(
                                "OpenRouter stream returned conflicting completion outcomes",
                            );
                        }
                    }
                    self.completion_outcome = Some(outcome);
                },
            }
        }
        let ghost expected = delta_items(chunk@.text_deltas);
        let mut items: Vec<Result<ModelEvent, ProviderError>> = Vec::new();
        let mut i: usize = 0;
        while i < chunk.text_deltas.len()
            invariant
                i <= chunk.text_deltas@.len(),
                expected == delta_items(texts(chunk.text_deltas@)),
                stream_items(items@) == expected.take(i as int),
            decreases chunk.text_deltas@.len() - i,
        {
            let ghost before = stream_items(items@);
            items.push(Ok(ModelEvent::TextDelta(chunk.text_deltas[i].clone())));
            assert(stream_items(items@) =~= before.push(expected[i as int]));
            i += 1;
        }
        assert(expected.take(i as int) =~= expected);
        if chunk.usage.is_some() {
            self.latest_usage = chunk.usage;
        }
        items
    }

    /// Take in what arrived and hand on what follows from it, in order. Nothing follows once the
    /// stream is finished.
    pub fn advance(&mut self, input: StreamInput) -> (items: Vec<Result<ModelEvent, ProviderError>>)
        ensures
            (final(self)@, stream_items(items@)) == stream_step(old(self)@, input@),
    {
        if self.finished {
            let items: Vec<Result<ModelEvent, ProviderError>> = Vec::new();
            assert(stream_items(items@) =~= Seq::empty());
            return items;
        }
        let (data, chunk) = match input {
            StreamInput::Ended => {
                return self.fail("OpenRouter stream ended before [DONE]");
            },
            StreamInput::TransportError => {
                return self.fail("OpenRouter SSE transport or parser error");
            },
            StreamInput::Event { data, chunk } => (data, chunk),
        };
        match parse_sse_data(data.as_str(), chunk) {
            Err(detail) => self.fail(detail.as_str()),
            Ok(ParsedSseEvent::Error(message)) => self.fail(message.as_str()),
            Ok(ParsedSseEvent::Done) => match self.completion_outcome {
                None => self.fail("OpenRouter stream ended with [DONE] but no completion outcome"),
                Some(outcome) => self.complete(outcome),
            },
            Ok(ParsedSseEvent::Chunk(parsed)) => self.take_chunk(parsed),
        }
    }
}

// ---------------------------------------------------------------------------
// What a whole stream hands on
// ---------------------------------------------------------------------------

/// The state and all items after a series of inputs.
pub open spec fn stream_run(v: StreamView, inputs: Seq<StreamInputView>) -> (
    StreamView,
    Seq<ItemView>,
)
    decreases inputs.len(),
{
    if inputs.len() == 0 {
        (v, Seq::empty())
    } else {
        let (before, items) = stream_run(v, inputs.drop_last());
        let (after, more) = stream_step(before, inputs.last());
        (after, items + more)
    }
}

/// Whether an item hands on text.
pub open spec fn is_text(item: ItemView) -> bool {
    item matches Ok(ModelEventView::TextDelta(_))
}

/// Whether an item reports usage.
pub open spec fn is_usage(item: ItemView) -> bool {
    item matches Ok(ModelEventView::Usage(_))
}

/// Whether an item is the normal end of a stream.
pub open spec fn is_completion(item: ItemView) -> bool {
    item matches Ok(ModelEventView::Finished(_))
}

/// The items of a stream that has not finished: text only.
pub open spec fn is_open_stream(items: Seq<ItemView>) -> bool {
    forall|i: int| 0 <= i < items.len() ==> is_text(#[trigger] items[i])
}

/// The items of a finished stream: text, then either one error, or the completion with at most one
/// usage report right before it.
pub open spec fn is_closed_stream(items: Seq<ItemView>) -> bool {
    ||| items.len() > 0 && items.last() is Err && is_open_stream(items.drop_last())
    ||| items.len() > 0 && is_completion(items.last()) && is_open_stream(items.drop_last())
    ||| items.len() > 1 && is_completion(items.last()) && is_usage(items[items.len() - 2])
        && is_open_stream(items.take(items.len() - 2))
}

/// A stream hands on text until it finishes, and it finishes with exactly one terminal item: an
/// error, or the completion after at most one usage report. Nothing comes after it.
pub proof fn lemma_stream_shape(v: StreamView, inputs: Seq<StreamInputView>)
    requires
        !v.finished,
    ensures
        ({
            let (after, items) = stream_run(v, inputs);
            if after.finished {
                is_closed_stream(items)
            } else {
                is_open_stream(items)
            }
        }),
    decreases inputs.len(),
{
    if inputs.len() > 0 {
        lemma_stream_shape(v, inputs.drop_last());
        let (before, items) = stream_run(v, inputs.drop_last());
        let (after, more) = stream_step(before, inputs.last());
        if before.finished {
            assert(items + more =~= items);
        } else {
            let all = items + more;
            if !after.finished {
                assert(is_open_stream(more));
            } else if more.len() == 1 {
                assert(all.drop_last() =~= items);
                assert(all.last() == more[0]);
            } else {
                assert(more.len() == 2);
                assert(all.take(all.len() - 2) =~= items);
                assert(all.last() == more[1]);
                assert(all[all.len() - 2] == more[0]);
            }
        }
    }
}

/// When the response body ends or the transport fails, the stream is finished.
pub proof fn lemma_stream_always_finishes(v: StreamView, input: StreamInputView)
    requires
        input is Ended || input is TransportError,
    ensures
        stream_step(v, input).0.finished,
{
}

/// A stream completes only on `[DONE]`, and only with the outcome that its chunks reported.
pub proof fn lemma_completion_needs_done_and_outcome(v: StreamView, input: StreamInputView, i: int)
    requires
        0 <= i < stream_step(v, input).1.len(),
        is_completion(stream_step(v, input).1[i]),
    ensures
        input matches StreamInputView::Event { data, chunk } && sse_event(data, chunk)
            == Ok::<ParsedEventView, Seq<char>>(ParsedEventView::Done),
        v.outcome is Some,
        stream_step(v, input).1[i] == Ok::<ModelEventView, ProviderErrorView>(
            ModelEventView::Finished(v.outcome->0),
        ),
{
}

/// Once a chunk has reported an outcome, it never changes.
pub proof fn lemma_outcome_never_changes(v: StreamView, input: StreamInputView)
    requires
        v.outcome is Some,
    ensures
        stream_step(v, input).0.outcome == v.outcome,
{
}

/// No error that a stream hands on holds the key, for every key that stands out from the fixed
/// wording of errors.
pub proof fn lemma_stream_errors_hide_key(v: StreamView, input: StreamInputView, i: int)
    requires
        stands_out(v.api_key),
        0 <= i < stream_step(v, input).1.len(),
        stream_step(v, input).1[i] is Err,
    ensures
        !occurs(provider_error_text(stream_step(v, input).1[i]->Err_0), v.api_key),
        stream_step(v, input).0.api_key == v.api_key,
{
    let message = match input {
        StreamInputView::Ended => "OpenRouter stream ended before [DONE]"@,
        StreamInputView::TransportError => "OpenRouter SSE transport or parser error"@,
        StreamInputView::Event { data, chunk } => match sse_event(data, chunk) {
            Err(detail) => detail,
            Ok(ParsedEventView::Error(message)) => message,
            Ok(ParsedEventView::Done) =>
            "OpenRouter stream ended with [DONE] but no completion outcome"@,
            Ok(ParsedEventView::Chunk(chunk)) => match outcome_of(chunk.finish_reason->0) {
                None => finish_fault(chunk.finish_reason->0),
                Some(outcome) => "OpenRouter stream returned conflicting completion outcomes"@,
            },
        },
    };
    assert(stream_step(v, input).1[i] == error_item(v, message));
    lemma_errors_hide_key(0, None, message, v.context, false, v.api_key);
}

/// The text of a list of items, in order.
pub open spec fn items_text(items: Seq<ItemView>) -> Seq<char>
    decreases items.len(),
{
    if items.len() == 0 {
        Seq::empty()
    } else {
        match items.last() {
            Ok(ModelEventView::TextDelta(text)) => items_text(items.drop_last()) + text,
            _ => items_text(items.drop_last()),
        }
    }
}

/// The text of an input, where it is a chunk.
pub open spec fn input_text(input: StreamInputView) -> Seq<char> {
    match input {
        StreamInputView::Event { data, chunk } => match sse_event(data, chunk) {
            Ok(ParsedEventView::Chunk(chunk)) => chunk.text_deltas.flatten(),
            _ => Seq::empty(),
        },
        _ => Seq::empty(),
    }
}

/// The text of a series of inputs, in order.
pub open spec fn inputs_text(inputs: Seq<StreamInputView>) -> Seq<char>
    decreases inputs.len(),
{
    if inputs.len() == 0 {
        Seq::empty()
    } else {
        inputs_text(inputs.drop_last()) + input_text(inputs.last())
    }
}

proof fn lemma_text_of_deltas(items: Seq<ItemView>, text_deltas: Seq<Seq<char>>)
    ensures
        items_text(items + delta_items(text_deltas)) == items_text(items) + text_deltas.flatten(),
    decreases text_deltas.len(),
{
    let all = items + delta_items(text_deltas);
    if text_deltas.len() == 0 {
        assert(all =~= items);
        assert(text_deltas.flatten() =~= Seq::<char>::empty());
        assert(items_text(items) + Seq::<char>::empty() =~= items_text(items));
    } else {
        let before = text_deltas.drop_last();
        lemma_text_of_deltas(items, before);
        assert(all.drop_last() =~= items + delta_items(before));
        assert(before.push(text_deltas.last()) =~= text_deltas);
        before.lemma_flatten_push(text_deltas.last());
        assert(items_text(all) =~= items_text(items) + text_deltas.flatten());
    }
}

/// While a stream is open, the text that it has handed on is the text of its chunks, in order:
/// nothing is dropped, doubled or moved.
pub proof fn lemma_text_is_handed_on_in_order(v: StreamView, inputs: Seq<StreamInputView>)
    requires
        !stream_run(v, inputs).0.finished,
    ensures
        items_text(stream_run(v, inputs).1) == inputs_text(inputs),
    decreases inputs.len(),
{
    if inputs.len() > 0 {
        let (before, items) = stream_run(v, inputs.drop_last());
        lemma_text_is_handed_on_in_order(v, inputs.drop_last());
        match inputs.last() {
            StreamInputView::Event { data, chunk } => match sse_event(data, chunk) {
                Ok(ParsedEventView::Chunk(chunk)) => {
                    lemma_text_of_deltas(items, chunk.text_deltas);
                },
                _ => {},
            },
            _ => {},
        }
    }
}

/// The text of a stream that completes is the text of its chunks, in order.
pub proof fn lemma_completed_text_is_whole(
    v: StreamView,
    inputs: Seq<StreamInputView>,
    done: StreamInputView,
)
    requires
        !stream_run(v, inputs).0.finished,
        stream_step(stream_run(v, inputs).0, done) == completed(stream_run(v, inputs).0),
    ensures
        items_text(stream_run(v, inputs.push(done)).1) == inputs_text(inputs),
{
    lemma_text_is_handed_on_in_order(v, inputs);
    let (before, items) = stream_run(v, inputs);
    let more = completed(before).1;
    assert(inputs.push(done).drop_last() =~= inputs);
    let all = items + more;
    if more.len() == 1 {
        assert(all.drop_last() =~= items);
        assert(all.last() == more[0]);
    } else {
        assert(all.last() == more[1]);
        assert(all.drop_last().last() == more[0]);
        assert(all.drop_last().drop_last() =~= items);
        assert(items_text(all.drop_last()) == items_text(items));
    }
}

} // verus!
