//! What a turn hands on of what the provider gives.

use vstd::prelude::*;

use crate::provider::{
    provider_error_text, CompletionOutcome, ModelEventView, ProviderErrorView, ToolCallView, Usage,
};
use crate::runtime::{
    new_turn, turn_run, turn_step, unknown_model, HarnessEventView, Turn, TurnInputView,
};

verus! {

/// Text is handed on verbatim, as long as there is any; the first text of a turn is announced.
pub proof fn lemma_text_is_handed_on_verbatim(turn: Turn, text: Seq<char>)
    requires
        !turn.finished,
    ensures
        ({
            let (post, events) = turn_step(
                turn,
                TurnInputView::Item(Ok(ModelEventView::TextDelta(text))),
            );
            &&& !post.finished
            &&& text.len() == 0 ==> post == turn && events.len() == 0
            &&& text.len() > 0 ==> post.response_started
            &&& text.len() > 0 && turn.response_started ==> events == seq![
                HarnessEventView::AssistantDelta(text),
            ]
            &&& text.len() > 0 && !turn.response_started ==> events == seq![
                HarnessEventView::ResponseStarted,
                HarnessEventView::AssistantDelta(text),
            ]
        }),
{
}

/// The outcome of a response is handed on for what it is, and ends the turn.
pub proof fn lemma_outcome_ends_the_turn(turn: Turn)
    requires
        !turn.finished,
    ensures
        turn_step(
            turn,
            TurnInputView::Item(Ok(ModelEventView::Finished(CompletionOutcome::Complete))),
        ) == (Turn { finished: true, ..turn }, seq![HarnessEventView::ResponseFinished]),
        turn_step(
            turn,
            TurnInputView::Item(Ok(ModelEventView::Finished(CompletionOutcome::LengthLimited))),
        ) == (Turn { finished: true, ..turn }, seq![HarnessEventView::ResponseTruncated]),
        turn_step(turn, TurnInputView::Ended) == (
            Turn { finished: true, ..turn },
            seq![HarnessEventView::Error("provider stream ended before Done"@)],
        ),
{
}

/// An error of the provider ends the turn, in the provider's words behind what kind of error it is.
pub proof fn lemma_error_is_handed_on_verbatim(turn: Turn, detail: Seq<char>)
    requires
        !turn.finished,
    ensures
        ({
            let setup = ProviderErrorView::RequestSetup(detail);
            let streaming = ProviderErrorView::Streaming(detail);
            let unknown = ProviderErrorView::UnknownModel { model_id: detail };
            let ended = Turn { finished: true, ..turn };
            let setup_words = seq![HarnessEventView::Error("request setup failed: "@ + detail)];
            let streaming_words = seq![HarnessEventView::Error("streaming failed: "@ + detail)];
            let unknown_words = seq![HarnessEventView::Error("unknown model: "@ + detail)];
            &&& turn_step(turn, TurnInputView::SetupFailed(setup)) == (ended, setup_words)
            &&& turn_step(turn, TurnInputView::Item(Err(setup))) == (ended, setup_words)
            &&& turn_step(turn, TurnInputView::SetupFailed(streaming)) == (ended, streaming_words)
            &&& turn_step(turn, TurnInputView::Item(Err(streaming))) == (ended, streaming_words)
            &&& turn_step(turn, TurnInputView::SetupFailed(unknown)) == (ended, unknown_words)
            &&& turn_step(turn, TurnInputView::Item(Err(unknown))) == (ended, unknown_words)
        }),
{
}

/// Reasoning, tool calls and counts are not handed on, and a turn that has ended hands on nothing.
pub proof fn lemma_other_items_are_not_handed_on(
    turn: Turn,
    reasoning: Seq<char>,
    tool_call: ToolCallView,
    usage: Usage,
    input: TurnInputView,
)
    ensures
        turn_step(turn, TurnInputView::Item(Ok(ModelEventView::ReasoningDelta(reasoning)))) == (
            turn,
            Seq::<HarnessEventView>::empty(),
        ),
        turn_step(turn, TurnInputView::Item(Ok(ModelEventView::ToolCall(tool_call)))) == (
            turn,
            Seq::<HarnessEventView>::empty(),
        ),
        turn_step(turn, TurnInputView::Item(Ok(ModelEventView::Usage(usage)))) == (
            turn,
            Seq::<HarnessEventView>::empty(),
        ),
        turn.finished ==> turn_step(turn, input) == (turn, Seq::<HarnessEventView>::empty()),
{
}

/// The text items of a provider, in order.
pub open spec fn text_inputs(texts: Seq<Seq<char>>) -> Seq<TurnInputView> {
    texts.map_values(|text: Seq<char>| TurnInputView::Item(Ok(ModelEventView::TextDelta(text))))
}

/// A turn in which text comes in pieces hands on every piece that is not empty, in order and as it is,
/// behind one announcement.
pub proof fn lemma_pieces_are_handed_on_in_order(texts: Seq<Seq<char>>)
    ensures
        ({
            let (turn, events) = turn_run(new_turn(), text_inputs(texts));
            let pieces = texts.filter(|text: Seq<char>| text.len() > 0);
            &&& !turn.finished
            &&& turn.response_started == (pieces.len() > 0)
            &&& pieces.len() == 0 ==> events.len() == 0
            &&& pieces.len() > 0 ==> events == seq![HarnessEventView::ResponseStarted]
                + pieces.map_values(|text: Seq<char>| HarnessEventView::AssistantDelta(text))
        }),
    decreases texts.len(),
{
    reveal(Seq::filter);
    let some = |text: Seq<char>| text.len() > 0;
    let delta = |text: Seq<char>| HarnessEventView::AssistantDelta(text);
    let inputs = text_inputs(texts);
    if texts.len() > 0 {
        let earlier = texts.drop_last();
        let text = texts.last();
        lemma_pieces_are_handed_on_in_order(earlier);
        assert(inputs.drop_last() =~= text_inputs(earlier));
        let (before, events) = turn_run(new_turn(), inputs.drop_last());
        let (after, more) = turn_step(before, inputs.last());
        let pieces = texts.filter(some);
        if text.len() == 0 {
            assert(events + more =~= events);
        } else {
            assert(pieces == earlier.filter(some).push(text));
            assert(events + more =~= seq![HarnessEventView::ResponseStarted] + pieces.map_values(
                delta,
            ));
        }
    } else {
        assert(inputs =~= Seq::empty());
        assert(texts.filter(some) =~= Seq::empty());
    }
}

/// A refusal to use a model names that model.
pub proof fn lemma_refusal_names_the_model(model_id: Seq<char>)
    ensures
        unknown_model(model_id) == HarnessEventView::ModelSelectionFailed(
            "unknown model: "@ + model_id,
        ),
        provider_error_text(ProviderErrorView::UnknownModel { model_id }) == "unknown model: "@
            + model_id,
{
}

} // verus!
