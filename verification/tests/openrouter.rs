//! Requests to OpenRouter, and what is made of its replies.

use std::cell::{Cell, RefCell};
use std::rc::Rc;

use eventsource_stream::Eventsource;
use futures_util::StreamExt;
use serde_json::Value;

use nano::provider::openrouter::auth::{
    auth_file_path, parse_auth_file, resolve_api_key, resolve_api_key_from_values, AuthFile,
    EnvironmentValue, FileCredentialPlatform, OpenRouterAuth, ReadFailure,
};
use nano::provider::openrouter::body::{conversation_request_body, generation_request_body};
use nano::provider::openrouter::price::normalize_price;
use nano::provider::openrouter::secret::redact_secret;
use nano::provider::openrouter::stream::{GenerationStream, StreamInput};
use nano::provider::openrouter::wire::{
    api_error_message, completion_outcome, finish_reason_error, parse_catalog_page, parse_sse_data,
    CatalogLinks, CatalogModel, CatalogPricing, CatalogResponse, ChatChoice, ChatChunk, ChatDelta,
    ChatError, ChatPromptTokenDetails, ChatUsage, ErrorEnvelope, FinishReason, ParsedChatChunk,
    ParsedSseEvent, TopProvider,
};
use nano::provider::openrouter::{
    accept_next_url, exchange_failure, format_http_error, format_stream_error,
    generation_status_error, has_same_catalog_origin, is_model_selection_error, is_success_status,
    openrouter_authorization_header, resolve_catalog_next_url, traced_generation_id, CatalogReply,
    CatalogWalk, ExchangeStep, GenerationPlan, OpenRouterProvider, RequestHeader, ResponseContext,
    OPENROUTER_DEFAULT_MODEL_ID,
};
use nano::provider::{
    CompletionOutcome, ModelEvent, ModelLimits, ModelMessage, ModelMetadata, ModelRequest,
    ProviderError, ToolCall, Usage,
};

const BASE_URL: &str = "http://127.0.0.1:4321/api/v1/";

// Decoding of JSON texts. A field of the wrong type makes the whole value malformed.

fn object(value: &Value) -> Option<&serde_json::Map<String, Value>> {
    value.as_object()
}

fn text_field(value: &Value, name: &str) -> Option<String> {
    object(value)?.get(name)?.as_str().map(str::to_owned)
}

fn number_field(value: &Value, name: &str) -> Option<u64> {
    object(value)?.get(name)?.as_u64()
}

/// The field decoded by `decode`, nothing where it is absent or null, or `None` where it is bad.
fn optional<T>(
    value: &Value,
    name: &str,
    decode: impl Fn(&Value) -> Option<T>,
) -> Option<Option<T>> {
    match object(value)?.get(name) {
        None | Some(Value::Null) => Some(None),
        Some(field) => decode(field).map(Some),
    }
}

fn text_value(value: &Value) -> Option<String> {
    value.as_str().map(str::to_owned)
}

fn catalog_model(value: &Value) -> Option<CatalogModel> {
    let top_provider = object(value)?.get("top_provider")?;
    Some(CatalogModel {
        id: text_field(value, "id")?,
        name: text_field(value, "name")?,
        context_length: number_field(value, "context_length")?,
        top_provider: TopProvider {
            max_completion_tokens: optional(top_provider, "max_completion_tokens", Value::as_u64)?,
        },
        pricing: optional(value, "pricing", |pricing| {
            Some(CatalogPricing {
                prompt: optional(pricing, "prompt", text_value)?,
                completion: optional(pricing, "completion", text_value)?,
            })
        })?,
    })
}

fn decode_page(body: &str) -> Option<CatalogResponse> {
    let value: Value = serde_json::from_str(body).ok()?;
    Some(CatalogResponse {
        data: object(&value)?
            .get("data")?
            .as_array()?
            .iter()
            .map(catalog_model)
            .collect::<Option<Vec<_>>>()?,
        links: optional(&value, "links", |links| {
            Some(CatalogLinks {
                next: optional(links, "next", text_value)?,
            })
        })?,
    })
}

fn chat_error(value: &Value) -> Option<ChatError> {
    Some(ChatError {
        message: text_field(value, "message")?,
    })
}

fn chat_choice(value: &Value) -> Option<ChatChoice> {
    let delta = object(value)?.get("delta")?;
    Some(ChatChoice {
        delta: ChatDelta {
            content: optional(delta, "content", text_value)?,
            tool_calls: optional(delta, "tool_calls", |calls| calls.as_array().cloned())?,
        },
        finish_reason: optional(value, "finish_reason", text_value)?,
    })
}

fn decode_chunk(data: &str) -> Option<ChatChunk> {
    let value: Value = serde_json::from_str(data).ok()?;
    Some(ChatChunk {
        choices: optional(&value, "choices", |choices| {
            choices.as_array()?.iter().map(chat_choice).collect()
        })?,
        usage: optional(&value, "usage", |usage| {
            Some(ChatUsage {
                prompt_tokens: number_field(usage, "prompt_tokens")?,
                completion_tokens: number_field(usage, "completion_tokens")?,
                prompt_tokens_details: optional(usage, "prompt_tokens_details", |details| {
                    Some(ChatPromptTokenDetails {
                        cached_tokens: optional(details, "cached_tokens", Value::as_u64)?,
                    })
                })?,
            })
        })?,
        error: optional(&value, "error", chat_error)?,
    })
}

fn decode_envelope(body: &str) -> Option<ErrorEnvelope> {
    let value: Value = serde_json::from_str(body).ok()?;
    Some(ErrorEnvelope {
        error: chat_error(object(&value)?.get("error")?)?,
    })
}

fn decode_auth_file(contents: &str) -> Option<AuthFile> {
    let value: Value = serde_json::from_str(contents).ok()?;
    Some(AuthFile {
        openrouter: optional(&value, "openrouter", |auth| {
            Some(OpenRouterAuth {
                credential_type: text_field(auth, "type")?,
                api_key: optional(auth, "api_key", text_value)?,
            })
        })?,
    })
}

fn sse(data: &str) -> Result<ParsedSseEvent, String> {
    parse_sse_data(data, decode_chunk(data))
}

fn catalog(body: &str) -> Result<(Vec<ModelMetadata>, Option<String>), String> {
    parse_catalog_page(decode_page(body))
}

fn valid_auth_file(api_key: &str) -> String {
    format!(r#"{{"openrouter":{{"type":"api","api_key":"{api_key}"}}}}"#)
}

fn page_reply(body: &str) -> CatalogReply {
    CatalogReply {
        status: 200,
        context: ResponseContext::default(),
        page: decode_page(body),
        envelope: decode_envelope(body),
    }
}

fn user_request(model_id: &str) -> ModelRequest {
    ModelRequest {
        model_id: model_id.to_owned(),
        messages: vec![ModelMessage::User {
            content: "input".to_owned(),
        }],
    }
}

/// The items of a stream whose body arrives in fragments of seven bytes.
fn stream_body(
    body: &str,
    api_key: &str,
    response_context: ResponseContext,
) -> Vec<Result<ModelEvent, ProviderError>> {
    let fragments: Vec<Result<Vec<u8>, std::io::Error>> = body
        .as_bytes()
        .chunks(7)
        .map(|fragment| Ok(fragment.to_vec()))
        .collect();
    let runtime = tokio::runtime::Builder::new_current_thread()
        .build()
        .expect("the runtime should build");
    let events = runtime.block_on(
        futures_util::stream::iter(fragments)
            .eventsource()
            .collect::<Vec<_>>(),
    );

    let mut stream = GenerationStream::new(api_key.to_owned(), response_context);
    let mut items = Vec::new();
    for event in events {
        if stream.is_finished() {
            break;
        }
        items.extend(stream.advance(match event {
            Ok(event) => StreamInput::Event {
                chunk: decode_chunk(&event.data),
                data: event.data,
            },
            Err(_) => StreamInput::TransportError,
        }));
    }
    if !stream.is_finished() {
        items.extend(stream.advance(StreamInput::Ended));
    }
    assert!(stream.is_finished());
    items
}

#[test]
fn generation_body_contains_only_the_independent_user_request() {
    let body = generation_request_body("provider/model", "hello\nworld")
        .expect("request body should serialize");

    assert_eq!(
        serde_json::from_slice::<Value>(&body).expect("body should be JSON"),
        serde_json::from_str::<Value>(
            r#"{
                "model": "provider/model",
                "messages": [{"role": "user", "content": "hello\nworld"}],
                "stream": true
            }"#
        )
        .expect("the expected body should be JSON")
    );
}

#[test]
fn catalog_metadata_and_prices_are_normalized_without_floating_point_rounding() {
    let (models, next) = catalog(
        r#"{
            "data": [{
                "id": "provider/model",
                "name": "Provider Model",
                "context_length": 131072,
                "top_provider": {"max_completion_tokens": 8192},
                "pricing": {"prompt": "0.000001", "completion": "0.0000025"}
            }],
            "links": {"next": "/api/v1/models?page=2"}
        }"#,
    )
    .expect("catalog should parse");

    assert_eq!(next.as_deref(), Some("/api/v1/models?page=2"));
    assert_eq!(
        models,
        vec![ModelMetadata {
            model_id: "provider/model".to_owned(),
            display_name: "Provider Model".to_owned(),
            limits: ModelLimits {
                context_window_tokens: 131072,
                maximum_output_tokens: Some(8192),
            },
            prompt_price_usd_per_million_tokens: Some("1".to_owned()),
            completion_price_usd_per_million_tokens: Some("2.5".to_owned()),
        }]
    );
}

#[test]
fn catalog_keeps_models_with_missing_or_partial_pricing() {
    let (models, _) = catalog(
        r#"{
            "data": [
                {
                    "id": "provider/no-pricing",
                    "name": "No Pricing",
                    "context_length": 100,
                    "top_provider": {"max_completion_tokens": 20}
                },
                {
                    "id": "provider/prompt-only",
                    "name": "Prompt Only",
                    "context_length": 200,
                    "top_provider": {"max_completion_tokens": 30},
                    "pricing": {"prompt": "0.000001"}
                },
                {
                    "id": "provider/completion-only",
                    "name": "Completion Only",
                    "context_length": 300,
                    "top_provider": {"max_completion_tokens": 40},
                    "pricing": {"completion": "0.000002"}
                }
            ]
        }"#,
    )
    .expect("catalog models with partial pricing should parse");

    assert_eq!(models.len(), 3);
    assert_eq!(models[0].prompt_price_usd_per_million_tokens, None);
    assert_eq!(models[0].completion_price_usd_per_million_tokens, None);
    assert_eq!(
        models[1].prompt_price_usd_per_million_tokens,
        Some("1".to_owned())
    );
    assert_eq!(models[1].completion_price_usd_per_million_tokens, None);
    assert_eq!(models[2].prompt_price_usd_per_million_tokens, None);
    assert_eq!(
        models[2].completion_price_usd_per_million_tokens,
        Some("2".to_owned())
    );
}

#[test]
fn catalog_retains_models_with_known_and_unknown_output_limits() {
    let (models, _) = catalog(
        r#"{
            "data": [
                {
                    "id": "provider/known-limit",
                    "name": "Known Limit",
                    "context_length": 100,
                    "top_provider": {"max_completion_tokens": 8192}
                },
                {
                    "id": "provider/null-limit",
                    "name": "Null Limit",
                    "context_length": 200,
                    "top_provider": {"max_completion_tokens": null}
                },
                {
                    "id": "provider/omitted-limit",
                    "name": "Omitted Limit",
                    "context_length": 300,
                    "top_provider": {}
                }
            ]
        }"#,
    )
    .expect("catalog models with unknown output limits should parse");

    assert_eq!(models.len(), 3);
    assert_eq!(models[0].limits.maximum_output_tokens, Some(8192));
    assert_eq!(models[1].limits.maximum_output_tokens, None);
    assert_eq!(models[2].limits.maximum_output_tokens, None);
}

#[test]
fn catalog_rejects_malformed_required_metadata_and_pricing() {
    for body in [
        r#"{"data":[{"name":"model","context_length":1,"top_provider":{"max_completion_tokens":1}}]}"#,
        r#"{"data":[{"id":"model","name":"model","context_length":1}]}"#,
        r#"{"data":[{"id":"model","name":"model","context_length":1,"top_provider":{"max_completion_tokens":"bad"}}]}"#,
        r#"{"data":[{"id":"model","name":"model","context_length":1,"top_provider":{"max_completion_tokens":1},"pricing":{"prompt":"bad","completion":"0"}}]}"#,
    ] {
        assert!(catalog(body).is_err());
    }
}

#[test]
fn prices_are_scaled_exactly() {
    assert_eq!(normalize_price("0"), Ok(Some("0".to_owned())));
    assert_eq!(normalize_price("1"), Ok(Some("1000000".to_owned())));
    assert_eq!(normalize_price("0.0000001"), Ok(Some("0.1".to_owned())));
    assert_eq!(
        normalize_price("0001.500000"),
        Ok(Some("1500000".to_owned()))
    );
    assert_eq!(normalize_price("-1"), Ok(None));
    assert!(normalize_price("-2").is_err());
    assert!(normalize_price("1e-6").is_err());
}

#[test]
fn catalog_retains_router_models_with_variable_pricing() {
    let (models, _) = catalog(
        r#"{
            "data": [{
                "id": "openrouter/auto",
                "name": "Auto Router",
                "context_length": 100,
                "top_provider": {"max_completion_tokens": null},
                "pricing": {"prompt": "-1", "completion": "-1"}
            }]
        }"#,
    )
    .expect("router models with variable pricing should parse");

    assert_eq!(models.len(), 1);
    assert_eq!(models[0].prompt_price_usd_per_million_tokens, None);
    assert_eq!(models[0].completion_price_usd_per_million_tokens, None);
}

#[test]
fn sse_mapping_preserves_text_usage_cache_and_terminal_reason() {
    assert_eq!(
        sse(r#"{"choices":[{"delta":{"content":"hello"},"finish_reason":null}]}"#),
        Ok(ParsedSseEvent::Chunk(ParsedChatChunk {
            text_deltas: vec!["hello".to_owned()],
            usage: None,
            finish_reason: None,
        }))
    );
    assert_eq!(
        sse(
            r#"{"choices":[],"usage":{"prompt_tokens":10,"completion_tokens":4,"prompt_tokens_details":{"cached_tokens":6}}}"#,
        ),
        Ok(ParsedSseEvent::Chunk(ParsedChatChunk {
            text_deltas: Vec::new(),
            usage: Some(Usage {
                input_tokens: 10,
                cached_input_tokens: 6,
                output_tokens: 4,
            }),
            finish_reason: None,
        }))
    );
    assert_eq!(
        sse(r#"{"choices":[{"delta":{},"finish_reason":"length"}]}"#),
        Ok(ParsedSseEvent::Chunk(ParsedChatChunk {
            text_deltas: Vec::new(),
            usage: None,
            finish_reason: Some(FinishReason::LengthLimited),
        }))
    );
    assert_eq!(
        completion_outcome(FinishReason::Complete),
        Some(CompletionOutcome::Complete)
    );
    assert_eq!(
        completion_outcome(FinishReason::LengthLimited),
        Some(CompletionOutcome::LengthLimited)
    );
}

#[test]
fn sse_mapping_rejects_malformed_data_and_tools_and_maps_api_errors() {
    assert!(sse("not-json").is_err());
    assert!(
        sse(r#"{"choices":[{"delta":{"tool_calls":[{"id":"secret-call"}]}}]}"#)
            .expect_err("tool calls should be rejected")
            .contains("tool calls")
    );
    assert_eq!(
        sse(r#"{"error":{"message":"provider failed"}}"#),
        Ok(ParsedSseEvent::Error("provider failed".to_owned()))
    );
    assert_eq!(sse("[DONE]"), Ok(ParsedSseEvent::Done));
    assert_eq!(
        sse(
            r#"{"choices":[{"delta":{},"finish_reason":"stop"}],"usage":{"prompt_tokens":1,"completion_tokens":2}}"#,
        ),
        Ok(ParsedSseEvent::Chunk(ParsedChatChunk {
            text_deltas: Vec::new(),
            usage: Some(Usage {
                input_tokens: 1,
                cached_input_tokens: 0,
                output_tokens: 2,
            }),
            finish_reason: Some(FinishReason::Complete),
        }))
    );
}

#[test]
fn non_empty_environment_key_wins_without_opening_a_file() {
    let file_was_opened = Cell::new(false);

    let result = resolve_api_key_from_values(
        Some("environment-secret"),
        Some("/tmp/xdg".as_bytes()),
        Some("/tmp/home".as_bytes()),
        FileCredentialPlatform::Unix,
        |_: &[u8]| {
            file_was_opened.set(true);
            Ok(decode_auth_file(&valid_auth_file("file-secret")))
        },
    );

    assert_eq!(result, Ok("environment-secret".to_owned()));
    assert!(!file_was_opened.get());
}

#[test]
fn absolute_xdg_path_is_used_before_home_fallback() {
    let opened_path = Rc::new(RefCell::new(None::<Vec<u8>>));
    let opened_path_for_reader = Rc::clone(&opened_path);

    let result = resolve_api_key_from_values(
        None,
        Some("/tmp/xdg-config".as_bytes()),
        Some("/tmp/home".as_bytes()),
        FileCredentialPlatform::Unix,
        |path: &[u8]| {
            *opened_path_for_reader.borrow_mut() = Some(path.to_owned());
            Ok(decode_auth_file(&valid_auth_file("xdg-secret")))
        },
    );

    assert_eq!(result, Ok("xdg-secret".to_owned()));
    assert_eq!(
        opened_path.borrow().as_deref(),
        Some("/tmp/xdg-config/nano/auth.json".as_bytes())
    );
}

#[test]
fn relative_or_empty_xdg_path_uses_home_config_fallback() {
    for xdg_config_home in [Some("relative".as_bytes()), Some("".as_bytes()), None] {
        let opened_path = Rc::new(RefCell::new(None::<Vec<u8>>));
        let opened_path_for_reader = Rc::clone(&opened_path);

        let result = resolve_api_key_from_values(
            None,
            xdg_config_home,
            Some("/tmp/home".as_bytes()),
            FileCredentialPlatform::Unix,
            |path: &[u8]| {
                *opened_path_for_reader.borrow_mut() = Some(path.to_owned());
                Ok(decode_auth_file(&valid_auth_file("home-secret")))
            },
        );

        assert_eq!(result, Ok("home-secret".to_owned()));
        assert_eq!(
            opened_path.borrow().as_deref(),
            Some("/tmp/home/.config/nano/auth.json".as_bytes())
        );
    }
}

#[test]
fn file_credentials_are_reloaded_for_each_lookup() {
    let contents = Rc::new(RefCell::new(valid_auth_file("first-secret")));
    let contents_for_reader = Rc::clone(&contents);
    let read_file = move |_: &[u8]| Ok(decode_auth_file(&contents_for_reader.borrow()));

    assert_eq!(
        resolve_api_key_from_values(
            None,
            Some("/tmp/xdg".as_bytes()),
            None,
            FileCredentialPlatform::Unix,
            read_file,
        ),
        Ok("first-secret".to_owned())
    );

    *contents.borrow_mut() = valid_auth_file("second-secret");
    let contents_for_reader = Rc::clone(&contents);
    assert_eq!(
        resolve_api_key_from_values(
            None,
            Some("/tmp/xdg".as_bytes()),
            None,
            FileCredentialPlatform::Unix,
            move |_: &[u8]| Ok(decode_auth_file(&contents_for_reader.borrow())),
        ),
        Ok("second-secret".to_owned())
    );
}

#[test]
fn missing_file_is_a_safe_setup_error() {
    let result = resolve_api_key_from_values(
        None,
        Some("/tmp/xdg".as_bytes()),
        None,
        FileCredentialPlatform::Unix,
        |_: &[u8]| Err(ReadFailure::NotFound),
    );

    assert_eq!(
        result,
        Err("no OpenRouter API key found in the environment or auth file".to_owned())
    );
}

#[test]
fn malformed_empty_and_unsupported_file_records_are_rejected_without_secret_context() {
    let cases = [
        ("not-json", "malformed"),
        (r#"{"openrouter":{"type":"api","api_key":""}}"#, "empty"),
        (
            r#"{"openrouter":{"type":"oauth","api_key":"oauth-secret"}}"#,
            "unsupported",
        ),
        (r#"{"openrouter":{"type":"api"}}"#, "empty"),
    ];

    for (contents, expected_context) in cases {
        let error =
            parse_auth_file(decode_auth_file(contents)).expect_err("invalid auth should fail");
        assert!(error.contains(expected_context));
        assert!(!error.contains("oauth-secret"));
    }
}

#[test]
fn file_credentials_are_not_considered_on_unsupported_platforms() {
    let file_was_opened = Cell::new(false);

    let result = resolve_api_key_from_values(
        None,
        Some("/tmp/xdg".as_bytes()),
        Some("/tmp/home".as_bytes()),
        FileCredentialPlatform::Unsupported,
        |_: &[u8]| {
            file_was_opened.set(true);
            Ok(decode_auth_file(&valid_auth_file("file-secret")))
        },
    );

    assert!(result.is_err());
    assert!(!file_was_opened.get());
}

#[test]
fn startup_initializes_the_pinned_openrouter_default_without_credentials_or_network() {
    let metadata = OpenRouterProvider::new()
        .model_metadata(OPENROUTER_DEFAULT_MODEL_ID)
        .expect("OpenRouter startup should not require credentials");

    assert_eq!(
        OPENROUTER_DEFAULT_MODEL_ID,
        "deepseek/deepseek-v4-flash-0731"
    );
    assert_eq!(metadata.model_id, OPENROUTER_DEFAULT_MODEL_ID);
    assert_eq!(metadata.display_name, "DeepSeek: DeepSeek V4 Flash 0731");
    assert_eq!(metadata.limits.context_window_tokens, 1_048_576);
    assert_eq!(metadata.limits.maximum_output_tokens, Some(393_216));
    assert_eq!(metadata.prompt_price_usd_per_million_tokens, None);
    assert_eq!(metadata.completion_price_usd_per_million_tokens, None);
}

#[test]
fn default_metadata_is_sync_and_only_default_id_is_known() {
    let provider = OpenRouterProvider::at_base_url("http://127.0.0.1:1/".to_owned());

    assert_eq!(
        provider
            .model_metadata(OPENROUTER_DEFAULT_MODEL_ID)
            .expect("default metadata should not use the network"),
        OpenRouterProvider::default_model_metadata()
    );
    assert!(matches!(
        provider.model_metadata("live/model"),
        Err(ProviderError::UnknownModel { .. })
    ));
}

#[test]
fn resolves_same_origin_catalog_links_and_rejects_cross_origin_links() {
    let current_url = reqwest::Url::parse("https://openrouter.example/api/v1/models?offset=0")
        .expect("current catalog URL should parse");
    let expected_root_relative_url =
        reqwest::Url::parse("https://openrouter.example/api/v1/models?offset=500&limit=500")
            .expect("root-relative catalog URL should parse");
    let expected_absolute_url = reqwest::Url::parse(
        "https://openrouter.example:443/api/v1/models?offset=1000&limit=500",
    )
    .expect("absolute catalog URL should parse");
    let expected_path_relative_url =
        reqwest::Url::parse("https://openrouter.example/api/v1/models?offset=1500")
            .expect("path-relative catalog URL should parse");
    let expected_query_relative_url =
        reqwest::Url::parse("https://openrouter.example/api/v1/models?offset=2000")
            .expect("query-relative catalog URL should parse");

    assert_eq!(
        resolve_catalog_next_url(current_url.as_str(), "/api/v1/models?offset=500&limit=500")
            .expect("root-relative link should resolve"),
        expected_root_relative_url.as_str()
    );
    assert_eq!(
        resolve_catalog_next_url(current_url.as_str(), expected_absolute_url.as_str())
            .expect("absolute link should resolve"),
        expected_absolute_url.as_str()
    );
    assert_eq!(
        resolve_catalog_next_url(current_url.as_str(), "models?offset=1500")
            .expect("path-relative link should resolve"),
        expected_path_relative_url.as_str()
    );
    assert_eq!(
        resolve_catalog_next_url(current_url.as_str(), "?offset=2000")
            .expect("query-relative link should resolve"),
        expected_query_relative_url.as_str()
    );

    for cross_origin_link in [
        "https://other.example/api/v1/models",
        "http://openrouter.example/api/v1/models",
        "https://openrouter.example:444/api/v1/models",
    ] {
        let error = resolve_catalog_next_url(current_url.as_str(), cross_origin_link)
            .expect_err("cross-origin link should be rejected");
        assert!(error.contains("different origin"));
    }
}

fn header<'a>(plan: &'a GenerationPlan, name: &str) -> Option<&'a str> {
    plan.headers
        .iter()
        .find(|header| header.name.eq_ignore_ascii_case(name))
        .map(|header| header.value.as_str())
}

#[test]
fn generation_request_serializes_ordered_messages_and_no_provider_state() {
    let mut arguments = serde_json::Map::new();
    arguments.insert("query".to_owned(), Value::String("rust".to_owned()));
    let provider = OpenRouterProvider::at_base_url(BASE_URL.to_owned());

    let plan = provider
        .plan_generation(
            Ok("test-secret".to_owned()),
            &ModelRequest {
                model_id: "provider/model".to_owned(),
                messages: vec![
                    ModelMessage::User {
                        content: "hello".to_owned(),
                    },
                    ModelMessage::Assistant {
                        content: String::new(),
                        tool_calls: vec![ToolCall {
                            tool_call_id: "call-1".to_owned(),
                            tool_name: "lookup".to_owned(),
                            arguments: Value::Object(arguments),
                        }],
                    },
                    ModelMessage::ToolResult {
                        tool_call_id: "call-1".to_owned(),
                        content: "lookup result".to_owned(),
                    },
                    ModelMessage::User {
                        content: "follow up".to_owned(),
                    },
                ],
            },
        )
        .expect("generation should start");

    assert_eq!(plan.url, "http://127.0.0.1:4321/api/v1/chat/completions");
    let body = String::from_utf8(plan.body.clone()).expect("the body should be text");
    assert_eq!(
        body,
        r#"{"model":"provider/model","messages":[{"role":"user","content":"hello"},{"role":"assistant","content":"","tool_calls":[{"id":"call-1","type":"function","function":{"name":"lookup","arguments":"{\"query\":\"rust\"}"}}]},{"role":"tool","tool_call_id":"call-1","content":"lookup result"},{"role":"user","content":"follow up"}],"stream":true}"#
    );
    assert_eq!(header(&plan, "authorization"), Some("Bearer test-secret"));
    assert_eq!(header(&plan, "content-type"), Some("application/json"));
    assert_eq!(header(&plan, "x-openrouter-title"), Some("nano"));
    assert_eq!(header(&plan, "x-openrouter-categories"), Some("cli-agent"));
    assert!(!body.contains("tools"));
    assert!(!body.contains("history"));
    assert!(!body.contains("cache"));
    assert!(!body.contains("session"));
}

#[test]
fn catalog_uses_public_fallback_without_credentials_and_normalizes_models() {
    let provider = OpenRouterProvider::at_base_url(BASE_URL.to_owned());
    let mut walk = provider
        .plan_catalog(Err("no OpenRouter API key".to_owned()))
        .expect("the catalog address should be valid");

    assert_eq!(walk.next_url(), "http://127.0.0.1:4321/api/v1/models");
    assert!(walk.authorization_header() == Ok(None));
    walk.take_reply(page_reply(
        r#"{"data":[{"id":"first/model","name":"First","context_length":100,"top_provider":{"max_completion_tokens":20},"pricing":{"prompt":"0.000001","completion":"0.000002"}}],"links":{"next":"/api/v1/models?page=2"}}"#,
    ))
    .expect("the first page should load");
    assert!(!walk.is_finished());
    assert_eq!(
        walk.next_url(),
        "http://127.0.0.1:4321/api/v1/models?page=2"
    );
    assert!(walk.authorization_header() == Ok(None));
    walk.take_reply(page_reply(
        r#"{"data":[{"id":"second/model","name":"Second","context_length":200,"top_provider":{"max_completion_tokens":null}},{"id":"third/model","name":"Third","context_length":300,"top_provider":{},"pricing":{"prompt":"0.000001"}}],"links":{"next":null}}"#,
    ))
    .expect("the second page should load");
    assert!(walk.is_finished());

    let models = walk.into_models();
    assert_eq!(models.len(), 3);
    assert_eq!(
        models[0].prompt_price_usd_per_million_tokens,
        Some("1".to_owned())
    );
    assert_eq!(
        models[0].completion_price_usd_per_million_tokens,
        Some("2".to_owned())
    );
    assert_eq!(models[1].prompt_price_usd_per_million_tokens, None);
    assert_eq!(models[1].completion_price_usd_per_million_tokens, None);
    assert_eq!(
        models[2].prompt_price_usd_per_million_tokens,
        Some("1".to_owned())
    );
    assert_eq!(models[2].completion_price_usd_per_million_tokens, None);
    assert_eq!(models[0].limits.maximum_output_tokens, Some(20));
    assert_eq!(models[1].limits.maximum_output_tokens, None);
    assert_eq!(models[2].limits.maximum_output_tokens, None);
}

fn bearer(api_key: &str) -> RequestHeader {
    RequestHeader {
        name: "Authorization",
        value: format!("Bearer {api_key}"),
        sensitive: true,
    }
}

#[test]
fn authenticated_catalog_uses_user_endpoint_and_retains_auth_for_pagination() {
    let provider = OpenRouterProvider::at_base_url(BASE_URL.to_owned());
    let mut walk = provider
        .plan_catalog(Ok("user-secret".to_owned()))
        .expect("the catalog address should be valid");

    assert_eq!(walk.next_url(), "http://127.0.0.1:4321/api/v1/models/user");
    assert!(walk.authorization_header() == Ok(Some(bearer("user-secret"))));
    walk.take_reply(page_reply(
        r#"{"data":[{"id":"user/first","name":"User First","context_length":100,"top_provider":{"max_completion_tokens":20}}],"links":{"next":"/api/v1/models/user?page=2"}}"#,
    ))
    .expect("the first page should load");
    assert!(!walk.is_finished());
    assert_eq!(
        walk.next_url(),
        "http://127.0.0.1:4321/api/v1/models/user?page=2"
    );
    assert!(walk.authorization_header() == Ok(Some(bearer("user-secret"))));
    walk.take_reply(page_reply(
        r#"{"data":[{"id":"user/second","name":"User Second","context_length":200,"top_provider":{"max_completion_tokens":30}}],"links":{"next":null}}"#,
    ))
    .expect("the second page should load");
    assert!(walk.is_finished());

    let models = walk.into_models();
    assert_eq!(
        models
            .iter()
            .map(|model| model.model_id.as_str())
            .collect::<Vec<_>>(),
        ["user/first", "user/second"]
    );
}

#[test]
fn authenticated_catalog_failure_does_not_fall_back_to_public_catalog() {
    let provider = OpenRouterProvider::at_base_url(BASE_URL.to_owned());
    let mut walk = provider
        .plan_catalog(Ok("user-secret".to_owned()))
        .expect("the catalog address should be valid");
    assert_eq!(walk.next_url(), "http://127.0.0.1:4321/api/v1/models/user");
    assert!(walk.authorization_header() == Ok(Some(bearer("user-secret"))));

    let body = r#"{"error":{"message":"No allowed providers are available for this model"}}"#;
    let catalog_error = walk
        .take_reply(CatalogReply {
            status: 503,
            context: ResponseContext::default(),
            page: decode_page(body),
            envelope: decode_envelope(body),
        })
        .expect_err("authenticated catalog failure should be returned");

    assert!(catalog_error
        .to_string()
        .contains("No allowed providers are available for this model"));
    assert!(!walk.is_finished());
    assert_eq!(walk.next_url(), "http://127.0.0.1:4321/api/v1/models/user");
    assert_eq!(walk.into_models(), Vec::new());
}

#[test]
fn catalog_errors_do_not_hold_the_key() {
    let provider = OpenRouterProvider::at_base_url(BASE_URL.to_owned());
    let mut walk = provider
        .plan_catalog(Ok("user-secret".to_owned()))
        .expect("the catalog address should be valid");

    let body = r#"{"error":{"message":"bad key user-secret"}}"#;
    let catalog_error = walk
        .take_reply(CatalogReply {
            status: 401,
            context: ResponseContext {
                retry_after: Some("user-secret".to_owned()),
                generation_id: Some("gen-user-secret".to_owned()),
            },
            page: decode_page(body),
            envelope: decode_envelope(body),
        })
        .expect_err("a refused key should be reported");

    assert_eq!(
        catalog_error,
        ProviderError::RequestSetup(
            "bad key [redacted]; retry after [redacted]; generation id gen-[redacted]".to_owned()
        )
    );
    assert!(!catalog_error.to_string().contains("user-secret"));
    assert_eq!(walk.next_url(), "http://127.0.0.1:4321/api/v1/models/user");
}

#[test]
fn catalog_errors_without_a_key_are_left_as_they_are() {
    let provider = OpenRouterProvider::at_base_url(BASE_URL.to_owned());
    let mut walk = provider
        .plan_catalog(Err("no key".to_owned()))
        .expect("the catalog address should be valid");

    let body = r#"{"error":{"message":"bad key user-secret"}}"#;
    assert_eq!(
        walk.take_reply(CatalogReply {
            status: 401,
            context: ResponseContext::default(),
            page: decode_page(body),
            envelope: decode_envelope(body),
        }),
        Err(ProviderError::RequestSetup("bad key user-secret".to_owned()))
    );
}

#[test]
fn model_selection_hint_only_matches_openrouter_provider_routing_503s() {
    let provider_routing_message = "No allowed providers are available for this model";
    assert!(is_model_selection_error(503, provider_routing_message));
    assert!(is_model_selection_error(
        503,
        "There is no available model provider that meets your routing requirements"
    ));
    assert!(!is_model_selection_error(
        503,
        "OpenRouter is temporarily unavailable"
    ));
    assert!(!is_model_selection_error(
        503,
        "The model service is temporarily unavailable"
    ));

    let formatted_error = format_http_error(
        503,
        decode_envelope(
            r#"{"error":{"message":"No allowed providers are available for this model"}}"#,
        ),
        &ResponseContext::default(),
        true,
        None,
    );
    assert!(formatted_error.contains("open Ctrl-P and choose another model"));
}

#[test]
fn sse_handles_fragmented_comments_multiline_usage_and_length_completion() {
    let body = r#": comment

data: {
data: "choices":[{"delta":{"content":"hel"}}]
data: }

data: {"choices":[{"delta":{"content":"lo"}}]}

data: {"choices":[],"usage":{"prompt_tokens":10,"completion_tokens":4}}

data: {"choices":[{"delta":{},"finish_reason":"length"}]}

data: {"choices":[{"delta":{},"finish_reason":"length"}]}

data: [DONE]

"#;

    assert_eq!(
        stream_body(body, "test-secret", ResponseContext::default()),
        vec![
            Ok(ModelEvent::TextDelta("hel".to_owned())),
            Ok(ModelEvent::TextDelta("lo".to_owned())),
            Ok(ModelEvent::Usage(Usage {
                input_tokens: 10,
                cached_input_tokens: 0,
                output_tokens: 4,
            })),
            Ok(ModelEvent::Finished(CompletionOutcome::LengthLimited)),
        ]
    );
}

#[test]
fn pre_stream_and_mid_stream_errors_are_safe_and_do_not_finish() {
    let setup_error = generation_status_error(
        400,
        decode_envelope(r#"{"error":{"message":"model is unavailable"}}"#),
        &ResponseContext {
            retry_after: Some("7".to_owned()),
            generation_id: Some("generation-1".to_owned()),
        },
        "super-secret",
    );
    let setup_error = setup_error.to_string();
    assert!(setup_error.contains("model is unavailable"));
    assert!(setup_error.contains("retry after 7"));
    assert!(setup_error.contains("generation-1"));
    assert!(setup_error.contains("Ctrl-P"));
    assert!(!setup_error.contains("super-secret"));

    let events = stream_body(
        r#"data: {"error":{"message":"stream failed"}}

"#,
        "super-secret",
        ResponseContext::default(),
    );
    assert_eq!(events.len(), 1);
    assert!(matches!(events[0], Err(ProviderError::Streaming(_))));
    assert!(!events[0]
        .as_ref()
        .expect_err("expected error")
        .to_string()
        .contains("super-secret"));
}

#[test]
fn malformed_incomplete_and_tool_streams_fail_without_finished() {
    for body in [
        "data: not-json\n\n",
        r#"data: {"choices":[{"delta":{"tool_calls":[{}]}}]}

data: [DONE]

"#,
        r#"data: {"choices":[{"delta":{"content":"partial"}}]}

"#,
        "data: [DONE]\n\n",
        r#"data: {"choices":[{"delta":{},"finish_reason":"stop"}]}

data: {"choices":[{"delta":{},"finish_reason":"length"}]}

data: [DONE]

"#,
    ] {
        let events = stream_body(body, "test-secret", ResponseContext::default());
        assert!(events.iter().any(|event| event.is_err()));
        assert!(!events
            .iter()
            .any(|event| matches!(event, Ok(ModelEvent::Finished(_)))));
    }
}

// Prices.

#[test]
fn scaled_prices_keep_every_digit_and_no_needless_zero() {
    for (per_token, per_million) in [
        ("0.00000000000000000000123456789", "0.00000000000000123456789"),
        ("123456789.123456789", "123456789123456.789"),
        ("0.000000", "0"),
        ("000", "0"),
        ("0.0000010", "1"),
        ("10", "10000000"),
        ("1.0", "1000000"),
    ] {
        assert_eq!(
            normalize_price(per_token),
            Ok(Some(per_million.to_owned())),
            "{per_token}"
        );
    }
}

#[test]
fn malformed_prices_are_named_as_such() {
    for price in ["", ".", "1.", ".5", "1.2.3", "+1", "-1.0", " 1", "1,5", "٣"] {
        assert_eq!(
            normalize_price(price),
            Err("the OpenRouter model catalog contains malformed pricing".to_owned()),
            "{price}"
        );
    }
}

// The catalog.

#[test]
fn catalog_errors_name_what_is_wrong() {
    assert_eq!(
        catalog("not-json"),
        Err("the OpenRouter model catalog response is malformed".to_owned())
    );
    assert_eq!(
        catalog(
            r#"{"data":[{"id":" ","name":"model","context_length":1,"top_provider":{}}]}"#
        ),
        Err("the OpenRouter model catalog contains empty model metadata".to_owned())
    );
    assert_eq!(
        catalog(r#"{"data":[],"links":{"next":" \t"}}"#),
        Err("the OpenRouter model catalog contains an empty next link".to_owned())
    );
    assert_eq!(catalog(r#"{"data":[]}"#), Ok((Vec::new(), None)));
}

#[test]
fn a_walk_is_unchanged_by_a_page_that_leads_elsewhere() {
    let mut walk = CatalogWalk::begin(
        Ok("user-secret".to_owned()),
        Ok("https://openrouter.example/api/v1/models/user".to_owned()),
    )
    .expect("the walk should begin");

    assert_eq!(
        walk.take_reply(page_reply(
            r#"{"data":[{"id":"a","name":"A","context_length":1,"top_provider":{}}],"links":{"next":"https://other.example/models"}}"#,
        )),
        Err(ProviderError::RequestSetup(
            "the OpenRouter model catalog contains a next link with a different origin".to_owned()
        ))
    );
    assert_eq!(
        walk.next_url(),
        "https://openrouter.example/api/v1/models/user"
    );
    assert!(walk.authorization_header() == Ok(Some(bearer("user-secret"))));
    assert_eq!(walk.into_models(), Vec::new());
}

#[test]
fn catalog_pages_add_their_models_in_order() {
    let mut walk = CatalogWalk::begin(
        Err("no key".to_owned()),
        Ok("https://openrouter.example/models".to_owned()),
    )
    .expect("the walk should begin");
    for next in [r#""?page=2""#, r#""?page=3""#, "null"] {
        let page = walk.next_url().to_owned();
        walk.take_reply(page_reply(&format!(
            r#"{{"data":[{{"id":"{page}","name":"A","context_length":1,"top_provider":{{}}}}],"links":{{"next":{next}}}}}"#
        )))
        .expect("the page should load");
    }

    assert!(walk.is_finished());
    assert_eq!(
        walk.into_models()
            .iter()
            .map(|model| model.model_id.as_str())
            .collect::<Vec<_>>(),
        [
            "https://openrouter.example/models",
            "https://openrouter.example/models?page=2",
            "https://openrouter.example/models?page=3",
        ]
    );
}

#[test]
fn addresses_that_cannot_be_built_are_setup_errors() {
    let provider = OpenRouterProvider::at_base_url("no base".to_owned());

    assert_eq!(
        provider
            .plan_catalog(Err("no key".to_owned()))
            .err(),
        Some(ProviderError::RequestSetup(
            "unable to build the OpenRouter model catalog URL: relative URL without a base"
                .to_owned()
        ))
    );
    assert_eq!(
        provider
            .plan_generation(Ok("key".to_owned()), &user_request("provider/model"))
            .err(),
        Some(ProviderError::RequestSetup(
            "unable to build the OpenRouter generation URL: relative URL without a base".to_owned()
        ))
    );
    assert_eq!(
        resolve_catalog_next_url("https://openrouter.example/models", "https://"),
        Err(
            "the OpenRouter model catalog contains an invalid next link: empty host".to_owned()
        )
    );
}

#[test]
fn joined_links_are_accepted_at_the_same_origin_only() {
    let current = "https://openrouter.example/models";
    assert!(has_same_catalog_origin(
        current,
        "https://openrouter.example:443/other"
    ));
    assert!(!has_same_catalog_origin(
        current,
        "https://openrouter.example.evil/other"
    ));
    assert_eq!(
        accept_next_url(current, Ok("https://openrouter.example/next".to_owned())),
        Ok("https://openrouter.example/next".to_owned())
    );
    assert_eq!(
        accept_next_url(current, Err("detail".to_owned())),
        Err("the OpenRouter model catalog contains an invalid next link: detail".to_owned())
    );
}

// Requests.

#[test]
fn generation_requests_need_a_key_that_a_header_can_carry() {
    let provider = OpenRouterProvider::new();
    let request = user_request("provider/model");

    assert_eq!(
        provider
            .plan_generation(Err("no key".to_owned()), &request)
            .err(),
        Some(ProviderError::RequestSetup("no key".to_owned()))
    );
    assert_eq!(
        provider
            .plan_generation(Ok("line\nbreak".to_owned()), &request)
            .err(),
        Some(ProviderError::RequestSetup("the OpenRouter API key is invalid".to_owned()))
    );
    assert_eq!(
        provider
            .plan_generation(Ok("key".to_owned()), &request)
            .expect("the request should be planned")
            .url,
        "https://openrouter.ai/api/v1/chat/completions"
    );
}

#[test]
fn header_values_hold_no_control_character_but_the_tab() {
    for key in ["", "key", "tab\tkey", "schlüssel", "\u{80}"] {
        assert!(openrouter_authorization_header(key) == Ok(bearer(key)));
    }
    for key in ["\0", "\n", "\r", "\u{1f}", "\u{7f}"] {
        assert_eq!(
            openrouter_authorization_header(key).err(),
            Some(ProviderError::RequestSetup(
                "the OpenRouter API key is invalid".to_owned()
            ))
        );
    }
}

#[test]
fn request_bodies_escape_text_as_json() {
    let body = generation_request_body("m", "\"\\\u{8}\t\n\u{c}\r\u{1}\u{1f}\u{7f}/é界")
        .expect("request body should serialize");

    assert_eq!(
        String::from_utf8(body).expect("the body should be text"),
        "{\"model\":\"m\",\"messages\":[{\"role\":\"user\",\"content\":\"\\\"\\\\\\b\\t\\n\\f\\r\\u0001\\u001f\u{7f}/é界\"}],\"stream\":true}"
    );
}

#[test]
fn assistant_messages_name_all_their_tool_calls_in_order() {
    let tool_call = |id: &str| ToolCall {
        tool_call_id: id.to_owned(),
        tool_name: "lookup".to_owned(),
        arguments: Value::Array(vec![Value::Null, Value::from(1), Value::from("x\"y")]),
    };
    let body = conversation_request_body(
        "m",
        &vec![
            ModelMessage::Assistant {
                content: "text".to_owned(),
                tool_calls: Vec::new(),
            },
            ModelMessage::Assistant {
                content: String::new(),
                tool_calls: vec![tool_call("a"), tool_call("b")],
            },
        ],
    )
    .expect("request body should serialize");

    assert_eq!(
        String::from_utf8(body).expect("the body should be text"),
        r#"{"model":"m","messages":[{"role":"assistant","content":"text"},{"role":"assistant","content":"","tool_calls":[{"id":"a","type":"function","function":{"name":"lookup","arguments":"[null,1,\"x\\\"y\"]"}},{"id":"b","type":"function","function":{"name":"lookup","arguments":"[null,1,\"x\\\"y\"]"}}]}],"stream":true}"#
    );
}

// Errors.

#[test]
fn http_errors_fall_back_to_the_status_and_carry_the_context() {
    let context = ResponseContext {
        retry_after: Some("7".to_owned()),
        generation_id: Some("gen-key".to_owned()),
    };
    assert_eq!(
        format_http_error(500, None, &ResponseContext::default(), true, None),
        "HTTP status 500"
    );
    assert_eq!(
        format_http_error(
            500,
            decode_envelope(r#"{"error":{"message":""}}"#),
            &context,
            true,
            Some("key")
        ),
        "HTTP status 500; retry after 7; generation id gen-[redacted]"
    );
    assert_eq!(
        format_http_error(404, None, &context, true, None),
        "HTTP status 404; retry after 7; generation id gen-key; open Ctrl-P and choose another model"
    );
    assert_eq!(
        format_http_error(404, None, &context, false, None),
        "HTTP status 404; retry after 7; generation id gen-key"
    );
    assert_eq!(
        format_stream_error("bad key", &context, "key"),
        "bad [redacted]; retry after 7; generation id gen-[redacted]"
    );
    assert_eq!(
        api_error_message(decode_envelope(r#"{"error":{"message":"text"}}"#)),
        Some("text".to_owned())
    );
}

#[test]
fn only_statuses_from_200_to_299_are_success() {
    for (status, success) in [(199, false), (200, true), (299, true), (300, false)] {
        assert_eq!(is_success_status(status), success);
    }
}

#[test]
fn failed_steps_are_told_apart() {
    for (step, expected) in [
        (
            ExchangeStep::CreateClient,
            "request setup failed: unable to create the OpenRouter HTTP client: detail",
        ),
        (
            ExchangeStep::SendCatalogRequest,
            "request setup failed: OpenRouter model catalog request failed: detail",
        ),
        (
            ExchangeStep::ReadCatalogResponse,
            "request setup failed: unable to read the OpenRouter model catalog response: detail",
        ),
        (
            ExchangeStep::SendGenerationRequest,
            "request setup failed: OpenRouter generation request failed: detail",
        ),
        (
            ExchangeStep::ReadGenerationError,
            "request setup failed: unable to read the OpenRouter generation error response: detail",
        ),
    ] {
        assert_eq!(exchange_failure(step, "detail").to_string(), expected);
    }
}

#[test]
fn redacted_messages_do_not_hold_the_key() {
    assert_eq!(redact_secret("a key, a key", "key"), "a [redacted], a [redacted]");
    assert_eq!(redact_secret("keykeykey", "keykey"), "[redacted]key");
    assert_eq!(redact_secret("clean", "key"), "clean");
    assert_eq!(redact_secret("message", ""), "message");
    assert_eq!(redact_secret("red", "red"), "[redacted]");
}

#[test]
fn traced_generation_identities_are_redacted() {
    let context = ResponseContext {
        retry_after: None,
        generation_id: Some("gen-key".to_owned()),
    };
    assert_eq!(
        traced_generation_id(&context, "key"),
        Some("gen-[redacted]".to_owned())
    );
    assert_eq!(
        traced_generation_id(&ResponseContext::default(), "key"),
        None
    );
}

// Streams.

#[test]
fn stream_faults_are_told_apart() {
    let context = || ResponseContext {
        retry_after: Some("key".to_owned()),
        generation_id: None,
    };
    for (body, expected) in [
        ("", "OpenRouter stream ended before [DONE]"),
        (
            "data: [DONE]\n\n",
            "OpenRouter stream ended with [DONE] but no completion outcome",
        ),
        (
            "data: {\"choices\":[{\"delta\":{},\"finish_reason\":\"stop\"}]}\n\ndata: {\"choices\":[{\"delta\":{},\"finish_reason\":\"length\"}]}\n\n",
            "OpenRouter stream returned conflicting completion outcomes",
        ),
        (
            "data: {\"choices\":[{\"delta\":{\"content\":\"lost\"},\"finish_reason\":\"error\"}]}\n\n",
            "the OpenRouter stream reported an error completion",
        ),
        (
            "data: {\"choices\":[{\"delta\":{},\"finish_reason\":\"tool_calls\"}]}\n\n",
            "the OpenRouter stream returned an unsupported completion reason",
        ),
        (
            "data: {\"choices\":[{\"delta\":{},\"finish_reason\":\"stop\"},{\"delta\":{},\"finish_reason\":\"stop\"}]}\n\n",
            "the OpenRouter stream returned multiple finish reasons",
        ),
        (
            "data: {\"usage\":null}\n\n",
            "the OpenRouter stream omitted choices",
        ),
        (
            "data: {\"error\":{\"message\":\"\"}}\n\n",
            "OpenRouter returned a stream error",
        ),
        (
            "data: {\"choices\":1}\n\n",
            "the OpenRouter stream contained malformed JSON",
        ),
        (
            "data: {\"choices\":[{\"delta\":{\"tool_calls\":[{}]}}]}\n\n",
            "the OpenRouter stream returned unsupported tool calls",
        ),
    ] {
        assert_eq!(
            stream_body(body, "key", context()),
            vec![Err(ProviderError::Streaming(format!(
                "{expected}; retry after [redacted]"
            )))],
            "{body}"
        );
    }

    let mut stream = GenerationStream::new("key".to_owned(), ResponseContext::default());
    assert_eq!(
        stream.advance(StreamInput::TransportError),
        vec![Err(ProviderError::Streaming(
            "OpenRouter SSE transport or parser error".to_owned()
        ))]
    );
    assert!(stream.is_finished());
    assert_eq!(stream.advance(StreamInput::Ended), Vec::new());
}

#[test]
fn text_is_handed_on_before_the_latest_usage_and_the_outcome() {
    assert_eq!(
        stream_body(
            r#"data: {"choices":[{"delta":{"content":"a"}},{"delta":{"content":"b"},"finish_reason":"stop"}],"usage":{"prompt_tokens":1,"completion_tokens":1}}

data: {"choices":[{"delta":{"content":""}}],"usage":{"prompt_tokens":2,"completion_tokens":3,"prompt_tokens_details":{}}}

data: {"choices":[]}

data:  [DONE]

data: {"choices":[{"delta":{"content":"late"}}]}

"#,
            "key",
            ResponseContext::default(),
        ),
        vec![
            Ok(ModelEvent::TextDelta("a".to_owned())),
            Ok(ModelEvent::TextDelta("b".to_owned())),
            Ok(ModelEvent::Usage(Usage {
                input_tokens: 2,
                cached_input_tokens: 0,
                output_tokens: 3,
            })),
            Ok(ModelEvent::Finished(CompletionOutcome::Complete)),
        ]
    );
}

#[test]
fn finish_reasons_without_an_outcome_have_a_message() {
    assert_eq!(completion_outcome(FinishReason::Error), None);
    assert_eq!(completion_outcome(FinishReason::Unsupported), None);
    assert_eq!(finish_reason_error(FinishReason::Complete), "");
    assert_eq!(finish_reason_error(FinishReason::LengthLimited), "");
    assert_eq!(
        finish_reason_error(FinishReason::Error),
        "the OpenRouter stream reported an error completion"
    );
}

// Credentials.

#[test]
fn auth_paths_follow_the_configuration_directories() {
    let unix = FileCredentialPlatform::Unix;
    assert_eq!(
        auth_file_path(Some("/xdg/".as_bytes()), None, unix),
        Some("/xdg/nano/auth.json".as_bytes().to_vec())
    );
    assert_eq!(
        auth_file_path(None, Some("home".as_bytes()), unix),
        Some("home/.config/nano/auth.json".as_bytes().to_vec())
    );
    assert_eq!(auth_file_path(Some("rel".as_bytes()), None, unix), None);
    assert_eq!(auth_file_path(None, Some("".as_bytes()), unix), None);
    assert_eq!(
        auth_file_path(
            Some("/xdg".as_bytes()),
            Some("/home".as_bytes()),
            FileCredentialPlatform::Unsupported
        ),
        None
    );
}

#[test]
fn missing_keys_are_explained() {
    let never_read = |_: &[u8]| -> Result<Option<AuthFile>, ReadFailure> {
        panic!("no file should be read")
    };
    assert_eq!(
        resolve_api_key(
            EnvironmentValue::Invalid,
            Some("/xdg".as_bytes()),
            None,
            FileCredentialPlatform::Unix,
            never_read,
        ),
        Err("the OPENROUTER_API_KEY environment value is invalid".to_owned())
    );
    assert_eq!(
        resolve_api_key(
            EnvironmentValue::Unset,
            None,
            None,
            FileCredentialPlatform::Unix,
            never_read,
        ),
        Err("no OpenRouter API key found; no supported auth file path is configured".to_owned())
    );
    assert_eq!(
        resolve_api_key(
            EnvironmentValue::Text(String::new()),
            Some("/xdg".as_bytes()),
            None,
            FileCredentialPlatform::Unsupported,
            never_read,
        ),
        Err(
            "no OpenRouter API key found; file credentials are unsupported on this platform"
                .to_owned()
        )
    );
    assert_eq!(
        resolve_api_key(
            EnvironmentValue::Text("key".to_owned()),
            None,
            None,
            FileCredentialPlatform::Unix,
            never_read,
        ),
        Ok("key".to_owned())
    );
    assert_eq!(
        resolve_api_key(
            EnvironmentValue::Unset,
            None,
            Some("/home".as_bytes()),
            FileCredentialPlatform::Unix,
            |_: &[u8]| Err(ReadFailure::Other),
        ),
        Err("unable to read the OpenRouter auth file".to_owned())
    );
    assert_eq!(
        parse_auth_file(decode_auth_file("{}")),
        Err("the OpenRouter auth file contains unsupported credentials".to_owned())
    );
}
