//! Provider-neutral values and the deterministic provider.

use nano::provider::fake::{mock_model_metadata, FakeProvider, MOCK_MODEL_NAME};
use nano::provider::{
    CompletionOutcome, ModelEvent, ModelLimits, ModelMessage, ModelMetadata, ModelRequest,
    ProviderError, ToolCall, Usage,
};

fn search_arguments(query: &str, limit: Option<u64>) -> serde_json::Value {
    let mut arguments = serde_json::Map::new();
    arguments.insert(
        "query".to_owned(),
        serde_json::Value::String(query.to_owned()),
    );
    if let Some(limit) = limit {
        arguments.insert("limit".to_owned(), serde_json::Value::from(limit));
    }
    serde_json::Value::Object(arguments)
}

fn request(model_id: &str, input: &str) -> ModelRequest {
    ModelRequest {
        model_id: model_id.to_owned(),
        messages: vec![ModelMessage::User {
            content: input.to_owned(),
        }],
    }
}

#[test]
fn normalized_values_preserve_tool_arguments_and_usage() {
    let events = [
        ModelEvent::TextDelta("text".to_owned()),
        ModelEvent::ReasoningDelta("reasoning".to_owned()),
        ModelEvent::ToolCall(ToolCall {
            tool_call_id: "call-1".to_owned(),
            tool_name: "lookup".to_owned(),
            arguments: search_arguments("rust", Some(2)),
        }),
        ModelEvent::Usage(Usage {
            input_tokens: 12,
            cached_input_tokens: 4,
            output_tokens: 8,
        }),
        ModelEvent::Finished(CompletionOutcome::Complete),
    ];

    assert_eq!(
        events[2].clone(),
        ModelEvent::ToolCall(ToolCall {
            tool_call_id: "call-1".to_owned(),
            tool_name: "lookup".to_owned(),
            arguments: search_arguments("rust", Some(2)),
        })
    );
    assert_eq!(
        events[3],
        ModelEvent::Usage(Usage {
            input_tokens: 12,
            cached_input_tokens: 4,
            output_tokens: 8,
        })
    );
    assert_eq!(events[4], ModelEvent::Finished(CompletionOutcome::Complete));
    assert_ne!(
        ModelEvent::Finished(CompletionOutcome::Complete),
        ModelEvent::Finished(CompletionOutcome::LengthLimited)
    );
}

#[test]
fn model_request_preserves_ordered_neutral_message_data() {
    let request = ModelRequest {
        model_id: "provider/model".to_owned(),
        messages: vec![
            ModelMessage::User {
                content: "find a Rust book".to_owned(),
            },
            ModelMessage::Assistant {
                content: String::new(),
                tool_calls: vec![ToolCall {
                    tool_call_id: "call-1".to_owned(),
                    tool_name: "search".to_owned(),
                    arguments: search_arguments("Rust", None),
                }],
            },
            ModelMessage::ToolResult {
                tool_call_id: "call-1".to_owned(),
                content: "Rust book found".to_owned(),
            },
            ModelMessage::User {
                content: "summarize it".to_owned(),
            },
        ],
    };

    assert_eq!(
        request.clone().messages,
        vec![
            ModelMessage::User {
                content: "find a Rust book".to_owned(),
            },
            ModelMessage::Assistant {
                content: String::new(),
                tool_calls: vec![ToolCall {
                    tool_call_id: "call-1".to_owned(),
                    tool_name: "search".to_owned(),
                    arguments: search_arguments("Rust", None),
                }],
            },
            ModelMessage::ToolResult {
                tool_call_id: "call-1".to_owned(),
                content: "Rust book found".to_owned(),
            },
            ModelMessage::User {
                content: "summarize it".to_owned(),
            },
        ]
    );
}

#[test]
fn model_metadata_preserves_optional_normalized_pricing() {
    let metadata = ModelMetadata {
        model_id: "priced-model".to_owned(),
        display_name: "Priced model".to_owned(),
        limits: ModelLimits {
            context_window_tokens: 16_384,
            maximum_output_tokens: Some(2_048),
        },
        prompt_price_usd_per_million_tokens: Some("0.15".to_owned()),
        completion_price_usd_per_million_tokens: Some("0.60".to_owned()),
    };

    assert_eq!(
        metadata,
        ModelMetadata {
            model_id: "priced-model".to_owned(),
            display_name: "Priced model".to_owned(),
            limits: ModelLimits {
                context_window_tokens: 16_384,
                maximum_output_tokens: Some(2_048),
            },
            prompt_price_usd_per_million_tokens: Some("0.15".to_owned()),
            completion_price_usd_per_million_tokens: Some("0.60".to_owned()),
        }
    );
    assert_eq!(metadata.clone(), metadata);
}

#[test]
fn model_limits_distinguish_known_and_unknown_output_limits() {
    let known_limits = ModelLimits {
        context_window_tokens: 16_384,
        maximum_output_tokens: Some(2_048),
    };
    let unknown_limits = ModelLimits {
        context_window_tokens: 16_384,
        maximum_output_tokens: None,
    };

    assert_ne!(known_limits, unknown_limits);
    assert_eq!(known_limits.maximum_output_tokens, Some(2_048));
    assert_eq!(unknown_limits.maximum_output_tokens, None);
}

#[test]
fn provider_error_categories_have_readable_context() {
    assert_eq!(
        ProviderError::UnknownModel {
            model_id: "missing-model".to_owned(),
        }
        .to_string(),
        "unknown model: missing-model"
    );
    assert_eq!(
        ProviderError::RequestSetup("invalid request".to_owned()).to_string(),
        "request setup failed: invalid request"
    );
    assert_eq!(
        ProviderError::Streaming("connection closed".to_owned()).to_string(),
        "streaming failed: connection closed"
    );
}

#[test]
fn provider_is_usable_through_a_dyn_provider() {
    let provider = FakeProvider::new();

    assert_eq!(
        provider.model_metadata(MOCK_MODEL_NAME),
        Ok(ModelMetadata {
            model_id: MOCK_MODEL_NAME.to_owned(),
            display_name: MOCK_MODEL_NAME.to_owned(),
            limits: ModelLimits {
                context_window_tokens: 8_192,
                maximum_output_tokens: Some(1_024),
            },
            prompt_price_usd_per_million_tokens: None,
            completion_price_usd_per_million_tokens: None,
        })
    );
}

#[test]
fn provider_catalog_is_usable_through_a_dyn_provider() {
    let provider = FakeProvider::new();

    assert_eq!(
        provider.models(),
        Ok(vec![ModelMetadata {
            model_id: MOCK_MODEL_NAME.to_owned(),
            display_name: MOCK_MODEL_NAME.to_owned(),
            limits: ModelLimits {
                context_window_tokens: 8_192,
                maximum_output_tokens: Some(1_024),
            },
            prompt_price_usd_per_million_tokens: None,
            completion_price_usd_per_million_tokens: None,
        }])
    );
}

#[test]
fn catalog_and_metadata_return_one_canonical_model_without_pricing() {
    let provider = FakeProvider::new();
    let expected_metadata = mock_model_metadata();

    assert_eq!(
        provider.model_metadata(MOCK_MODEL_NAME),
        Ok(expected_metadata.clone())
    );
    assert_eq!(provider.models(), Ok(vec![expected_metadata]));
}

#[test]
fn unknown_model_returns_typed_error() {
    let provider = FakeProvider::new();

    assert_eq!(
        provider.model_metadata("missing-model"),
        Err(ProviderError::UnknownModel {
            model_id: "missing-model".to_owned(),
        })
    );
}

#[test]
fn streams_same_ordered_response_for_different_inputs() {
    let provider = FakeProvider::new();
    let first_events = provider
        .stream(&request(MOCK_MODEL_NAME, "first input"))
        .expect("known model should start streaming");
    let second_events = provider
        .stream(&request(MOCK_MODEL_NAME, "different input"))
        .expect("known model should start streaming");

    let expected_events = vec![
        Ok(ModelEvent::TextDelta(
            "The mock runtime received your message. ".to_owned(),
        )),
        Ok(ModelEvent::TextDelta(
            "This response is deterministic and streamed in chunks. ".to_owned(),
        )),
        Ok(ModelEvent::TextDelta(
            "The mock work is complete.".to_owned(),
        )),
        Ok(ModelEvent::Usage(Usage {
            input_tokens: 24,
            cached_input_tokens: 8,
            output_tokens: 16,
        })),
        Ok(ModelEvent::Finished(CompletionOutcome::Complete)),
    ];

    assert_eq!(first_events, expected_events);
    assert_eq!(second_events, expected_events);
}

#[test]
fn stream_rejects_unknown_model() {
    let provider = FakeProvider::new();

    let result = provider.stream(&request("missing-model", "input"));

    assert!(matches!(
        result,
        Err(ProviderError::UnknownModel { model_id }) if model_id == "missing-model"
    ));
}
