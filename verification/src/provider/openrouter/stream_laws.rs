//! What a generation stream hands on of the chunks that it reads.

use vstd::prelude::*;

use crate::provider::openrouter::secret::{lemma_clean_message_is_kept, redacted};
use crate::provider::openrouter::stream::{
    delta_items, stream_run, stream_step, ItemView, StreamInputView, StreamView,
};
use crate::provider::openrouter::wire::{
    scan_choices, sse_event, ChatChoiceView, ChatChunkView, FinishReason, ParsedEventView,
};
use crate::provider::openrouter::{with_context, ResponseContextView};
use crate::provider::{CompletionOutcome, ModelEventView, ProviderErrorView, Usage};
use crate::text::{is_blank, is_whitespace_char, occurs, trim_text};
use crate::text_laws::{lemma_trimming_keeps_the_core, lemma_trimming_takes_only_whitespace};

verus! {

/// The contents of a list of choices, in order; an absent content is the empty text.
pub open spec fn choice_texts(choices: Seq<ChatChoiceView>) -> Seq<Seq<char>> {
    choices.map_values(
        |choice: ChatChoiceView|
            match choice.content {
                Some(content) => content,
                None => Seq::empty(),
            },
    )
}

/// No choice calls a tool, and at most one gives a finish reason.
pub open spec fn are_usable(choices: Seq<ChatChoiceView>) -> bool {
    &&& forall|i: int| 0 <= i < choices.len() ==> !(#[trigger] choices[i]).calls_tools
    &&& forall|i: int, j: int|
        0 <= i < j < choices.len() ==> (#[trigger] choices[i]).finish_reason is None || (
        #[trigger] choices[j]).finish_reason is None
}

/// Choices can be read exactly when none calls a tool and at most one gives a finish reason.
pub proof fn lemma_when_choices_are_read(choices: Seq<ChatChoiceView>)
    ensures
        scan_choices(choices) is Ok <==> are_usable(choices),
        scan_choices(choices) is Ok ==> ((scan_choices(choices)->Ok_0).1 is None <==> forall|i: int|
            0 <= i < choices.len() ==> (#[trigger] choices[i]).finish_reason is None),
    decreases choices.len(),
{
    if choices.len() > 0 {
        let before = choices.drop_last();
        let n = choices.len() - 1;
        lemma_when_choices_are_read(before);
        assert(forall|i: int| 0 <= i < n ==> #[trigger] before[i] == choices[i]);
        assert(choices[n] == choices.last());
        if are_usable(choices) {
            assert(are_usable(before));
            if choices.last().finish_reason is Some {
                assert forall|i: int| 0 <= i < n implies (
                #[trigger] before[i]).finish_reason is None by {
                    assert(choices[i].finish_reason is None || choices[n].finish_reason is None);
                }
            }
        } else if are_usable(before) {
            if !choices.last().calls_tools {
                assert forall|i: int| 0 <= i < n implies !(#[trigger] choices[i]).calls_tools by {
                    assert(before[i] == choices[i]);
                }
                let (i, j) = choose|i: int, j: int|
                    0 <= i < j < choices.len() && !((#[trigger] choices[i]).finish_reason is None
                        || (#[trigger] choices[j]).finish_reason is None);
                if j < n {
                    assert(before[i] == choices[i] && before[j] == choices[j]);
                }
                assert(before[i].finish_reason is Some);
            }
        } else {
            assert(scan_choices(before) is Err);
        }
        if scan_choices(choices) is Ok {
            if forall|i: int|
                0 <= i < choices.len() ==> (#[trigger] choices[i]).finish_reason is None {
                assert forall|i: int| 0 <= i < n implies (
                #[trigger] before[i]).finish_reason is None by {
                    assert(choices[i].finish_reason is None);
                }
            }
            if (scan_choices(choices)->Ok_0).1 is None {
                assert forall|i: int| 0 <= i < choices.len() implies (
                #[trigger] choices[i]).finish_reason is None by {
                    if i < n {
                        assert(before[i].finish_reason is None);
                    }
                }
            }
        }
    }
}

/// The finish reason of choices is the one that one of them gives.
pub proof fn lemma_finish_reason_is_read(choices: Seq<ChatChoiceView>, k: int)
    requires
        scan_choices(choices) is Ok,
        0 <= k < choices.len(),
        choices[k].finish_reason is Some,
    ensures
        ({
            let text = choices[k].finish_reason->0;
            let reason = (scan_choices(choices)->Ok_0).1;
            &&& text == "stop"@ ==> reason == Some(FinishReason::Complete)
            &&& text == "length"@ ==> reason == Some(FinishReason::LengthLimited)
            &&& text == "error"@ ==> reason == Some(FinishReason::Error)
            &&& text != "stop"@ && text != "length"@ && text != "error"@ ==> reason == Some(
                FinishReason::Unsupported,
            )
        }),
    decreases choices.len(),
{
    reveal_strlit("stop");
    reveal_strlit("length");
    reveal_strlit("error");
    assert("stop"@.len() == 4 && "length"@.len() == 6 && "error"@.len() == 5);
    let before = choices.drop_last();
    if k < choices.len() - 1 {
        assert(before[k] == choices[k]);
        lemma_when_choices_are_read(choices);
        assert(choices[choices.len() - 1] == choices.last());
        lemma_finish_reason_is_read(before, k);
    } else {
        assert(choices.last() == choices[k]);
    }
}

/// Nothing of the text of a usable chunk is lost: its text deltas are the contents of its choices, in
/// order, without the empty ones, and together they are all the text of the choices.
pub proof fn lemma_chunk_text_is_whole(choices: Seq<ChatChoiceView>)
    requires
        scan_choices(choices) is Ok,
    ensures
        (scan_choices(choices)->Ok_0).0 == choice_texts(choices).filter(
            |text: Seq<char>| text.len() > 0,
        ),
        (scan_choices(choices)->Ok_0).0.flatten() == choice_texts(choices).flatten(),
    decreases choices.len(),
{
    reveal(Seq::filter);
    let some = |text: Seq<char>| text.len() > 0;
    let texts = choice_texts(choices);
    if choices.len() == 0 {
        assert(texts =~= Seq::empty());
        assert(texts.filter(some) =~= Seq::empty());
        assert(texts.flatten() =~= Seq::<char>::empty());
    } else {
        let before = choices.drop_last();
        lemma_chunk_text_is_whole(before);
        let earlier = choice_texts(before);
        let deltas = (scan_choices(before)->Ok_0).0;
        let last = texts.last();
        assert(texts.drop_last() =~= earlier);
        assert(texts =~= earlier.push(last));
        earlier.lemma_flatten_push(last);
        deltas.lemma_flatten_push(last);
        if last.len() == 0 {
            assert(earlier.flatten() + last =~= earlier.flatten());
        }
    }
}

/// The text items for these texts, in order.
pub open spec fn text_items(texts: Seq<Seq<char>>) -> Seq<ItemView> {
    texts.map_values(|text: Seq<char>| Ok::<ModelEventView, ProviderErrorView>(
        ModelEventView::TextDelta(text),
    ))
}

/// The usage after a chunk: the counts that it reports, or the earlier ones where it reports none.
pub open spec fn usage_after(earlier: Option<Usage>, chunk: ChatChunkView) -> Option<Usage> {
    match chunk.usage {
        Some(usage) => Some(
            Usage {
                input_tokens: usage.prompt_tokens,
                cached_input_tokens: if usage.prompt_tokens_details is Some
                    && usage.prompt_tokens_details->0.cached_tokens is Some {
                    usage.prompt_tokens_details->0.cached_tokens->0
                } else {
                    0
                },
                output_tokens: usage.completion_tokens,
            },
        ),
        None => earlier,
    }
}

/// A chunk without a finish reason hands on every content that is not empty, as it is, and keeps the
/// outcome; the counts that it reports replace the earlier ones.
pub proof fn lemma_chunk_is_handed_on(v: StreamView, data: Seq<char>, chunk: ChatChunkView)
    requires
        !v.finished,
        trim_text(data) != "[DONE]"@,
        chunk.error is None,
        chunk.choices is Some,
        are_usable(chunk.choices->0),
        forall|i: int|
            0 <= i < chunk.choices->0.len() ==> (
            #[trigger] chunk.choices->0[i]).finish_reason is None,
    ensures
        stream_step(v, StreamInputView::Event { data, chunk: Some(chunk) }) == (
            StreamView { usage: usage_after(v.usage, chunk), ..v },
            text_items(
                choice_texts(chunk.choices->0).filter(|text: Seq<char>| text.len() > 0),
            ),
        ),
{
    let choices = chunk.choices->0;
    lemma_when_choices_are_read(choices);
    lemma_chunk_text_is_whole(choices);
    let texts = (scan_choices(choices)->Ok_0).0;
    assert(delta_items(texts) =~= text_items(texts));
}

/// A chunk that gives a finish reason hands its text on in the same way, and `stop` and `length`
/// become the outcome, unless another was given before. Any other reason, and one that contradicts
/// the outcome so far, ends the stream with an error and without the text.
pub proof fn lemma_last_chunk_is_handed_on(
    v: StreamView,
    data: Seq<char>,
    chunk: ChatChunkView,
    k: int,
)
    requires
        !v.finished,
        trim_text(data) != "[DONE]"@,
        chunk.error is None,
        chunk.choices is Some,
        are_usable(chunk.choices->0),
        0 <= k < chunk.choices->0.len(),
        chunk.choices->0[k].finish_reason is Some,
    ensures
        ({
            let (post, items) = stream_step(
                v,
                StreamInputView::Event { data, chunk: Some(chunk) },
            );
            let text = chunk.choices->0[k].finish_reason->0;
            let outcome = if text == "stop"@ {
                CompletionOutcome::Complete
            } else {
                CompletionOutcome::LengthLimited
            };
            if (text == "stop"@ || text == "length"@) && (v.outcome is None || v.outcome == Some(
                outcome,
            )) {
                &&& post == (StreamView {
                    outcome: Some(outcome),
                    usage: usage_after(v.usage, chunk),
                    ..v
                })
                &&& items == text_items(
                    choice_texts(chunk.choices->0).filter(|text: Seq<char>| text.len() > 0),
                )
            } else {
                &&& post == (StreamView { finished: true, ..v })
                &&& items.len() == 1
                &&& items[0] is Err
            }
        }),
{
    reveal_strlit("stop");
    reveal_strlit("length");
    reveal_strlit("error");
    assert("stop"@.len() == 4 && "length"@.len() == 6 && "error"@.len() == 5);
    let choices = chunk.choices->0;
    lemma_when_choices_are_read(choices);
    lemma_chunk_text_is_whole(choices);
    lemma_finish_reason_is_read(choices, k);
    let texts = (scan_choices(choices)->Ok_0).0;
    assert(delta_items(texts) =~= text_items(texts));
}

/// What cannot be read ends the stream with one error and without any text: data that is no chunk, a
/// chunk without choices or with unusable ones, an error that the server reports, and an end or a
/// failure of the transport.
pub proof fn lemma_unreadable_input_fails(v: StreamView, input: StreamInputView)
    requires
        !v.finished,
        input matches StreamInputView::Event { data, chunk } ==> {
            &&& trim_text(data) != "[DONE]"@
            &&& chunk is None || chunk->0.error is Some || chunk->0.choices is None || !are_usable(
                chunk->0.choices->0,
            )
        },
    ensures
        ({
            let (post, items) = stream_step(v, input);
            &&& post == (StreamView { finished: true, ..v })
            &&& items.len() == 1
            &&& items[0] is Err
            &&& items[0]->Err_0 is Streaming
        }),
{
    if let StreamInputView::Event { data, chunk } = input {
        if let Some(chunk) = chunk {
            if chunk.choices is Some {
                lemma_when_choices_are_read(chunk.choices->0);
            }
        }
    }
}

/// An error that the server reports in the stream is handed on in the server's own words, where they
/// do not hold the key and the response says nothing else.
pub proof fn lemma_server_error_is_handed_on(
    v: StreamView,
    data: Seq<char>,
    chunk: ChatChunkView,
)
    requires
        !v.finished,
        trim_text(data) != "[DONE]"@,
        chunk.error is Some,
        chunk.error->0.len() > 0,
        !occurs(chunk.error->0, v.api_key),
        v.context.retry_after is None,
        v.context.generation_id is None,
    ensures
        stream_step(v, StreamInputView::Event { data, chunk: Some(chunk) }).1 == seq![
            Err::<ModelEventView, ProviderErrorView>(
                ProviderErrorView::Streaming(chunk.error->0),
            ),
        ],
{
    lemma_clean_message_is_kept(chunk.error->0, v.api_key);
}

/// What the headers of a response tell follows the message; the key is redacted from each of them by
/// itself.
pub proof fn lemma_context_is_redacted(
    message: Seq<char>,
    context: ResponseContextView,
    api_key: Seq<char>,
)
    ensures
        ({
            let retry = if context.retry_after is Some {
                "; retry after "@ + redacted(context.retry_after->0, api_key)
            } else {
                Seq::empty()
            };
            let generation = if context.generation_id is Some {
                "; generation id "@ + redacted(context.generation_id->0, api_key)
            } else {
                Seq::empty()
            };
            with_context(message, context, Some(api_key)) == redacted(message, api_key) + retry
                + generation
        }),
{
    let start = redacted(message, api_key);
    let retry = if context.retry_after is Some {
        "; retry after "@ + redacted(context.retry_after->0, api_key)
    } else {
        Seq::empty()
    };
    let generation = if context.generation_id is Some {
        "; generation id "@ + redacted(context.generation_id->0, api_key)
    } else {
        Seq::empty()
    };
    assert(with_context(message, context, Some(api_key)) =~= start + retry + generation);
}

/// What is said of a stream that fails: each failure has its words.
pub proof fn lemma_failure_is_explained(v: StreamView, data: Seq<char>, chunk: ChatChunkView)
    requires
        !v.finished,
        trim_text(data) != "[DONE]"@,
    ensures
        ({
            let says = |words: Seq<char>|
                seq![
                    Err::<ModelEventView, ProviderErrorView>(
                        ProviderErrorView::Streaming(
                            with_context(words, v.context, Some(v.api_key)),
                        ),
                    ),
                ];
            let none: Option<ChatChunkView> = None;
            let items = stream_step(v, StreamInputView::Event { data, chunk: Some(chunk) }).1;
            &&& stream_step(v, StreamInputView::Ended).1 == says(
                "OpenRouter stream ended before [DONE]"@,
            )
            &&& stream_step(v, StreamInputView::TransportError).1 == says(
                "OpenRouter SSE transport or parser error"@,
            )
            &&& stream_step(v, StreamInputView::Event { data, chunk: none }).1 == says(
                "the OpenRouter stream contained malformed JSON"@,
            )
            &&& chunk.error is Some && chunk.error->0.len() > 0 ==> items == says(chunk.error->0)
            &&& chunk.error is Some && chunk.error->0.len() == 0 ==> items == says(
                "OpenRouter returned a stream error"@,
            )
            &&& chunk.error is None && chunk.choices is None ==> items == says(
                "the OpenRouter stream omitted choices"@,
            )
        }),
{
}

/// What is said of choices that cannot be read is what is wrong with the first one that spoils them: it
/// calls a tool, or it gives a second finish reason.
pub proof fn lemma_unusable_choice_is_explained(choices: Seq<ChatChoiceView>)
    requires
        !are_usable(choices),
    ensures
        scan_choices(choices) is Err,
        exists|n: int|
            {
                &&& 0 <= n < choices.len()
                &&& are_usable(#[trigger] choices.take(n))
                &&& scan_choices(choices)->Err_0 == if choices[n].calls_tools {
                    "the OpenRouter stream returned unsupported tool calls"@
                } else {
                    "the OpenRouter stream returned multiple finish reasons"@
                }
                &&& choices[n].calls_tools || choices[n].finish_reason is Some
            },
    decreases choices.len(),
{
    lemma_when_choices_are_read(choices);
    let before = choices.drop_last();
    lemma_when_choices_are_read(before);
    if are_usable(before) {
        let n = choices.len() - 1;
        assert(choices.take(n) =~= before);
        assert(choices.last() == choices[n]);
        assert(are_usable(choices.take(n)));
    } else {
        lemma_unusable_choice_is_explained(before);
        let n = choose|n: int|
            {
                &&& 0 <= n < before.len()
                &&& are_usable(#[trigger] before.take(n))
                &&& scan_choices(before)->Err_0 == if before[n].calls_tools {
                    "the OpenRouter stream returned unsupported tool calls"@
                } else {
                    "the OpenRouter stream returned multiple finish reasons"@
                }
                &&& before[n].calls_tools || before[n].finish_reason is Some
            };
        assert(choices.take(n) =~= before.take(n));
        assert(choices[n] == before[n]);
    }
}

/// What is said of a finish reason that is no outcome, and of one that contradicts an earlier outcome.
pub proof fn lemma_bad_finish_is_explained(
    v: StreamView,
    data: Seq<char>,
    chunk: ChatChunkView,
    k: int,
)
    requires
        !v.finished,
        trim_text(data) != "[DONE]"@,
        chunk.error is None,
        chunk.choices is Some,
        are_usable(chunk.choices->0),
        0 <= k < chunk.choices->0.len(),
        chunk.choices->0[k].finish_reason is Some,
    ensures
        ({
            let says = |words: Seq<char>|
                seq![
                    Err::<ModelEventView, ProviderErrorView>(
                        ProviderErrorView::Streaming(
                            with_context(words, v.context, Some(v.api_key)),
                        ),
                    ),
                ];
            let text = chunk.choices->0[k].finish_reason->0;
            let items = stream_step(v, StreamInputView::Event { data, chunk: Some(chunk) }).1;
            let conflict = "OpenRouter stream returned conflicting completion outcomes"@;
            &&& text == "error"@ ==> items == says(
                "the OpenRouter stream reported an error completion"@,
            )
            &&& text != "error"@ && text != "stop"@ && text != "length"@ ==> items == says(
                "the OpenRouter stream returned an unsupported completion reason"@,
            )
            &&& text == "stop"@ && v.outcome == Some(CompletionOutcome::LengthLimited) ==> items
                == says(conflict)
            &&& text == "length"@ && v.outcome == Some(CompletionOutcome::Complete) ==> items
                == says(conflict)
        }),
{
    reveal_strlit("stop");
    reveal_strlit("length");
    reveal_strlit("error");
    assert("stop"@.len() == 4 && "length"@.len() == 6 && "error"@.len() == 5);
    let choices = chunk.choices->0;
    lemma_when_choices_are_read(choices);
    lemma_finish_reason_is_read(choices, k);
}

/// What the headers of a response tell follows the message, each in its words, where nothing of it
/// holds the key.
pub proof fn lemma_context_follows_message(
    message: Seq<char>,
    context: ResponseContextView,
    api_key: Seq<char>,
)
    requires
        !occurs(message, api_key),
        context.retry_after is Some ==> !occurs(context.retry_after->0, api_key),
        context.generation_id is Some ==> !occurs(context.generation_id->0, api_key),
    ensures
        ({
            let retry = if context.retry_after is Some {
                "; retry after "@ + context.retry_after->0
            } else {
                Seq::empty()
            };
            let generation = if context.generation_id is Some {
                "; generation id "@ + context.generation_id->0
            } else {
                Seq::empty()
            };
            &&& with_context(message, context, Some(api_key)) == message + retry + generation
            &&& with_context(message, context, None) == message + retry + generation
        }),
{
    lemma_clean_message_is_kept(message, api_key);
    let mut timed = message;
    if let Some(retry_after) = context.retry_after {
        lemma_clean_message_is_kept(retry_after, api_key);
        timed = message + ("; retry after "@ + retry_after);
        assert(timed =~= message + "; retry after "@ + retry_after);
    } else {
        assert(message + Seq::<char>::empty() =~= message);
    }
    if let Some(generation_id) = context.generation_id {
        lemma_clean_message_is_kept(generation_id, api_key);
        assert(timed + ("; generation id "@ + generation_id) =~= timed + "; generation id "@
            + generation_id);
    } else {
        assert(timed + Seq::<char>::empty() =~= timed);
    }
}

/// `[DONE]`, with whitespace around it or not, ends a stream whose outcome is known with the latest
/// counts, if there are any, and the outcome; a stream without an outcome it ends with an error.
pub proof fn lemma_done_completes(
    v: StreamView,
    before: Seq<char>,
    after: Seq<char>,
    chunk: Option<ChatChunkView>,
)
    requires
        !v.finished,
        is_blank(before),
        is_blank(after),
    ensures
        ({
            let (post, items) = stream_step(
                v,
                StreamInputView::Event { data: before + "[DONE]"@ + after, chunk },
            );
            &&& post == (StreamView { finished: true, ..v })
            &&& v.outcome is None ==> items.len() == 1 && items[0] is Err
            &&& v.outcome is Some && v.usage is None ==> items == seq![
                Ok::<ModelEventView, ProviderErrorView>(ModelEventView::Finished(v.outcome->0)),
            ]
            &&& v.outcome is Some && v.usage is Some ==> items == seq![
                Ok::<ModelEventView, ProviderErrorView>(ModelEventView::Usage(v.usage->0)),
                Ok::<ModelEventView, ProviderErrorView>(ModelEventView::Finished(v.outcome->0)),
            ]
        }),
{
    reveal_strlit("[DONE]");
    lemma_trimming_keeps_the_core(before, "[DONE]"@, after);
}

/// Nothing but `[DONE]`, with whitespace around it or not, counts as the end of a stream.
pub proof fn lemma_only_done_completes(data: Seq<char>, chunk: Option<ChatChunkView>)
    requires
        sse_event(data, chunk) == Ok::<ParsedEventView, Seq<char>>(ParsedEventView::Done),
    ensures
        exists|from: int, to: int|
            {
                &&& 0 <= from <= to <= data.len()
                &&& #[trigger] data.subrange(from, to) == "[DONE]"@
                &&& forall|i: int| 0 <= i < from || to <= i < data.len() ==> is_whitespace_char(
                    #[trigger] data[i],
                )
            },
{
    lemma_trimming_takes_only_whitespace(data);
}

/// A stream that is finished hands on nothing more.
pub proof fn lemma_finished_stream_is_silent(v: StreamView, input: StreamInputView)
    requires
        v.finished,
    ensures
        stream_step(v, input) == (v, Seq::<ItemView>::empty()),
{
}

/// All the text of a chunk's choices, in order.
pub open spec fn event_text(input: StreamInputView) -> Seq<char> {
    match input {
        StreamInputView::Event { data, chunk: Some(chunk) } => if chunk.choices is Some {
            choice_texts(chunk.choices->0).flatten()
        } else {
            Seq::empty()
        },
        _ => Seq::empty(),
    }
}

/// The text that an item hands on.
pub open spec fn item_text(item: ItemView) -> Seq<char> {
    match item {
        Ok(ModelEventView::TextDelta(text)) => text,
        _ => Seq::empty(),
    }
}

/// While a stream is open, it has handed on all the text of all choices of all chunks that arrived,
/// in order, and nothing else.
pub proof fn lemma_stream_text_is_whole(v: StreamView, inputs: Seq<StreamInputView>)
    requires
        !v.finished,
        !stream_run(v, inputs).0.finished,
    ensures
        stream_run(v, inputs).1.map_values(|item: ItemView| item_text(item)).flatten()
            == inputs.map_values(|input: StreamInputView| event_text(input)).flatten(),
        forall|i: int|
            0 <= i < stream_run(v, inputs).1.len() ==> #[trigger] stream_run(v, inputs).1[i] == Ok::<
                ModelEventView,
                ProviderErrorView,
            >(ModelEventView::TextDelta(item_text(stream_run(v, inputs).1[i]))),
    decreases inputs.len(),
{
    let given = |input: StreamInputView| event_text(input);
    let handed = |item: ItemView| item_text(item);
    if inputs.len() == 0 {
        assert(inputs.map_values(given) =~= Seq::empty());
        assert(stream_run(v, inputs).1.map_values(handed) =~= Seq::empty());
        assert(inputs.map_values(given).flatten() =~= stream_run(v, inputs).1.map_values(
            handed,
        ).flatten());
    } else {
        let earlier = inputs.drop_last();
        let input = inputs.last();
        let (before, items) = stream_run(v, earlier);
        let (after, more) = stream_step(before, input);
        lemma_stream_text_is_whole(v, earlier);
        assert(inputs.map_values(given) =~= earlier.map_values(given).push(event_text(input)));
        earlier.map_values(given).lemma_flatten_push(event_text(input));
        match input {
            StreamInputView::Event { data, chunk } => match sse_event(data, chunk) {
                Ok(ParsedEventView::Chunk(parsed)) => {
                    let choices = chunk->0.choices->0;
                    lemma_chunk_text_is_whole(choices);
                    assert(more == delta_items(parsed.text_deltas));
                    assert(more.map_values(handed) =~= parsed.text_deltas);
                },
                _ => {},
            },
            _ => {},
        }
        assert((items + more).map_values(handed) =~= items.map_values(handed) + more.map_values(
            handed,
        ));
        vstd::seq_lib::lemma_flatten_concat(items.map_values(handed), more.map_values(handed));
    }
}

} // verus!
