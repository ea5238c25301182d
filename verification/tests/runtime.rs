//! Turns of the runtime, from provider items to harness events.

use nano::provider::fake::{FakeProvider, MOCK_MODEL_NAME};
use nano::provider::{
    CompletionOutcome, ModelEvent, ModelLimits, ModelMessage, ModelMetadata, ModelRequest,
    ProviderError, ToolCall, Usage,
};
use nano::runtime::{
    after_delivery, turn_request, HarnessEvent, ModelChoice, StreamOutcome, Turn, TurnInput,
};

const TEST_MODEL_ID: &str = "test-model";

fn run_turn(items: Vec<Result<ModelEvent, ProviderError>>) -> Vec<HarnessEvent> {
    let mut turn = Turn::new();
    let mut events = Vec::new();
    for item in items {
        events.extend(turn.advance(TurnInput::Item(item)));
    }
    events.extend(turn.advance(TurnInput::Ended));
    assert_eq!(after_delivery(&turn, true), Some(StreamOutcome::Continue));
    events
}

fn done() -> Result<ModelEvent, ProviderError> {
    Ok(ModelEvent::Finished(CompletionOutcome::Complete))
}

fn text(content: &str) -> Result<ModelEvent, ProviderError> {
    Ok(ModelEvent::TextDelta(content.to_owned()))
}

fn hidden_events() -> Vec<Result<ModelEvent, ProviderError>> {
    vec![
        text(""),
        Ok(ModelEvent::ReasoningDelta("hidden reasoning".to_owned())),
        Ok(ModelEvent::ToolCall(ToolCall {
            tool_call_id: "call-1".to_owned(),
            tool_name: "hidden-tool".to_owned(),
            arguments: serde_json::Value::Null,
        })),
        Ok(ModelEvent::Usage(Usage {
            input_tokens: 4,
            cached_input_tokens: 2,
            output_tokens: 3,
        })),
    ]
}

fn model(model_id: &str) -> ModelMetadata {
    ModelMetadata {
        model_id: model_id.to_owned(),
        display_name: model_id.to_owned(),
        limits: ModelLimits {
            context_window_tokens: 1,
            maximum_output_tokens: None,
        },
        prompt_price_usd_per_million_tokens: None,
        completion_price_usd_per_million_tokens: None,
    }
}

#[test]
fn streams_the_fake_response_without_changing_its_visible_text() {
    let items = FakeProvider::new()
        .stream(&turn_request(MOCK_MODEL_NAME, "fake input".to_owned()))
        .expect("the fake model should answer");

    assert_eq!(
        run_turn(items),
        vec![
            HarnessEvent::ResponseStarted,
            HarnessEvent::AssistantDelta("The mock runtime received your message. ".to_owned()),
            HarnessEvent::AssistantDelta(
                "This response is deterministic and streamed in chunks. ".to_owned()
            ),
            HarnessEvent::AssistantDelta("The mock work is complete.".to_owned()),
            HarnessEvent::ResponseFinished,
        ]
    );
}

#[test]
fn forwards_exact_requests_and_keeps_turns_serial() {
    assert_eq!(
        turn_request(TEST_MODEL_ID, " first\nsubmission ".to_owned()),
        ModelRequest {
            model_id: TEST_MODEL_ID.to_owned(),
            messages: vec![ModelMessage::User {
                content: " first\nsubmission ".to_owned(),
            }],
        }
    );
    assert_eq!(run_turn(vec![done()]), vec![HarnessEvent::ResponseFinished]);
    assert_eq!(
        turn_request(TEST_MODEL_ID, "second submission".to_owned()),
        ModelRequest {
            model_id: TEST_MODEL_ID.to_owned(),
            messages: vec![ModelMessage::User {
                content: "second submission".to_owned(),
            }],
        }
    );
    assert_eq!(run_turn(vec![done()]), vec![HarnessEvent::ResponseFinished]);
}

#[test]
fn ignores_empty_and_non_text_events_while_forwarding_text() {
    let mut items = hidden_events();
    items.push(text("visible"));
    items.push(text(""));
    items.push(done());

    assert_eq!(
        run_turn(items),
        vec![
            HarnessEvent::ResponseStarted,
            HarnessEvent::AssistantDelta("visible".to_owned()),
            HarnessEvent::ResponseFinished,
        ]
    );
}

#[test]
fn no_text_done_emits_only_response_finished() {
    let mut items = hidden_events();
    items.push(done());

    assert_eq!(run_turn(items), vec![HarnessEvent::ResponseFinished]);
}

#[test]
fn setup_error_is_readable_and_the_next_turn_recovers() {
    let mut turn = Turn::new();
    assert_eq!(
        turn.advance(TurnInput::SetupFailed(ProviderError::RequestSetup(
            "invalid request".to_owned()
        ))),
        vec![HarnessEvent::Error(
            "request setup failed: invalid request".to_owned()
        )]
    );
    assert_eq!(after_delivery(&turn, true), Some(StreamOutcome::Continue));

    assert_eq!(
        run_turn(vec![text("recovered"), done()]),
        vec![
            HarnessEvent::ResponseStarted,
            HarnessEvent::AssistantDelta("recovered".to_owned()),
            HarnessEvent::ResponseFinished,
        ]
    );
}

#[test]
fn stream_error_preserves_partial_text_drops_late_events_and_recovers() {
    assert_eq!(
        run_turn(vec![
            text("partial"),
            Err(ProviderError::Streaming("connection lost".to_owned())),
            done(),
        ]),
        vec![
            HarnessEvent::ResponseStarted,
            HarnessEvent::AssistantDelta("partial".to_owned()),
            HarnessEvent::Error("streaming failed: connection lost".to_owned()),
        ]
    );
    assert_eq!(
        run_turn(vec![text("recovered"), done()]),
        vec![
            HarnessEvent::ResponseStarted,
            HarnessEvent::AssistantDelta("recovered".to_owned()),
            HarnessEvent::ResponseFinished,
        ]
    );
}

#[test]
fn incomplete_stream_reports_error_without_finishing_and_recovers() {
    assert_eq!(
        run_turn(vec![text("partial")]),
        vec![
            HarnessEvent::ResponseStarted,
            HarnessEvent::AssistantDelta("partial".to_owned()),
            HarnessEvent::Error("provider stream ended before Done".to_owned()),
        ]
    );
    assert_eq!(
        run_turn(vec![text("recovered"), done()]),
        vec![
            HarnessEvent::ResponseStarted,
            HarnessEvent::AssistantDelta("recovered".to_owned()),
            HarnessEvent::ResponseFinished,
        ]
    );
}

#[test]
fn first_done_drops_the_provider_stream_and_suppresses_late_events() {
    assert_eq!(
        run_turn(vec![
            done(),
            text("late text"),
            Err(ProviderError::Streaming("late error".to_owned())),
        ]),
        vec![HarnessEvent::ResponseFinished]
    );
}

#[test]
fn closed_harness_output_drops_active_provider_work() {
    let mut turn = Turn::new();
    assert_eq!(
        turn.advance(TurnInput::Item(text("partial"))),
        vec![
            HarnessEvent::ResponseStarted,
            HarnessEvent::AssistantDelta("partial".to_owned()),
        ]
    );
    assert_eq!(after_delivery(&turn, true), None);
    assert_eq!(after_delivery(&turn, false), Some(StreamOutcome::Exit));
}

#[test]
fn length_limited_responses_are_announced_as_truncated() {
    assert_eq!(
        run_turn(vec![
            text("partial"),
            Ok(ModelEvent::Finished(CompletionOutcome::LengthLimited)),
        ]),
        vec![
            HarnessEvent::ResponseStarted,
            HarnessEvent::AssistantDelta("partial".to_owned()),
            HarnessEvent::ResponseTruncated,
        ]
    );
}

#[test]
fn only_models_of_the_catalog_can_be_selected() {
    let mut choice = ModelChoice::new("default".to_owned());
    assert_eq!(
        choice.select_model("alternate".to_owned()),
        HarnessEvent::ModelSelectionFailed("unknown model: alternate".to_owned())
    );
    assert_eq!(choice.model_id(), "default");

    let catalog = vec![model("other"), model("alternate")];
    assert_eq!(
        choice.take_catalog(Ok(catalog.clone())),
        HarnessEvent::CatalogLoaded(catalog)
    );
    assert_eq!(
        choice.take_catalog(Err(ProviderError::RequestSetup("offline".to_owned()))),
        HarnessEvent::CatalogFailed("request setup failed: offline".to_owned())
    );
    assert_eq!(
        choice.select_model("alternate".to_owned()),
        HarnessEvent::ModelSelected(model("alternate"))
    );
    assert_eq!(choice.model_id(), "alternate");
}
