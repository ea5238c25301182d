//! A deterministic provider for trying out the harness.

use vstd::prelude::*;

use crate::provider::openrouter::wire::metadata_views;
use crate::provider::{
    stream_items, CompletionOutcome, ModelEvent, ModelEventView, ModelLimits, ModelMetadata,
    ModelMetadataView, ModelRequest, ProviderError, ProviderErrorView, Usage,
};
use crate::text::same_text;

verus! {

/// Identifier and display name for the deterministic fake model.
pub const MOCK_MODEL_NAME: &'static str = "mock-runtime";

/// The pause before every text chunk but the first, in milliseconds.
pub const MOCK_RESPONSE_DELAY_MILLIS: u64 = 25;

/// A zero-configuration provider with one deterministic model.
#[derive(Debug, Clone, Copy, PartialEq, Eq)]
pub struct FakeProvider;

/// The metadata of the fake model.
pub open spec fn mock_metadata() -> ModelMetadataView {
    ModelMetadataView {
        model_id: "mock-runtime"@,
        display_name: "mock-runtime"@,
        limits: ModelLimits { context_window_tokens: 8_192, maximum_output_tokens: Some(1_024) },
        prompt_price_usd_per_million_tokens: None,
        completion_price_usd_per_million_tokens: None,
    }
}

/// The items that the fake model answers every request with.
pub open spec fn mock_items() -> Seq<Result<ModelEventView, ProviderErrorView>> {
    seq![
        Ok(ModelEventView::TextDelta("The mock runtime received your message. "@)),
        Ok(ModelEventView::TextDelta("This response is deterministic and streamed in chunks. "@)),
        Ok(ModelEventView::TextDelta("The mock work is complete."@)),
        Ok(
            ModelEventView::Usage(
                Usage { input_tokens: 24, cached_input_tokens: 8, output_tokens: 16 },
            ),
        ),
        Ok(ModelEventView::Finished(CompletionOutcome::Complete)),
    ]
}

pub fn mock_model_metadata() -> (metadata: ModelMetadata)
    ensures
        metadata@ == mock_metadata(),
{
    ModelMetadata {
        model_id: "mock-runtime".to_owned(),
        display_name: "mock-runtime".to_owned(),
        limits: ModelLimits { context_window_tokens: 8_192, maximum_output_tokens: Some(1_024) },
        prompt_price_usd_per_million_tokens: None,
        completion_price_usd_per_million_tokens: None,
    }
}

fn ensure_known_model(model_id: &str) -> (r: Result<(), ProviderError>)
    ensures
        if model_id@ == "mock-runtime"@ {
            r is Ok
        } else {
            r is Err && r->Err_0@ == (ProviderErrorView::UnknownModel { model_id: model_id@ })
        },
{
    if same_text(model_id, MOCK_MODEL_NAME) {
        return Ok(());
    }
    Err(ProviderError::UnknownModel { model_id: model_id.to_owned() })
}

impl FakeProvider {
    pub fn new() -> (provider: Self)
        ensures
            provider == FakeProvider,
    {
        FakeProvider
    }

    pub fn model_metadata(&self, model_id: &str) -> (r: Result<ModelMetadata, ProviderError>)
        ensures
            if model_id@ == "mock-runtime"@ {
                r is Ok && r->Ok_0@ == mock_metadata()
            } else {
                r is Err && r->Err_0@ == (ProviderErrorView::UnknownModel { model_id: model_id@ })
            },
    {
        match ensure_known_model(model_id) {
            Ok(()) => Ok(mock_model_metadata()),
            Err(error) => Err(error),
        }
    }

    pub fn models(&self) -> (r: Result<Vec<ModelMetadata>, ProviderError>)
        ensures
            r is Ok,
            metadata_views((r->Ok_0)@) == seq![mock_metadata()],
    {
        let mut models: Vec<ModelMetadata> = Vec::new();
        models.push(mock_model_metadata());
        assert(metadata_views(models@) =~= seq![mock_metadata()]);
        Ok(models)
    }

    /// The items of the response to a request, in order; they do not depend on what it asks.
    pub fn stream(&self, request: &ModelRequest) -> (r: Result<
        Vec<Result<ModelEvent, ProviderError>>,
        ProviderError,
    >)
        ensures
            if request@.model_id == "mock-runtime"@ {
                r is Ok && stream_items((r->Ok_0)@) == mock_items()
            } else {
                r is Err && r->Err_0@ == (ProviderErrorView::UnknownModel {
                    model_id: request@.model_id,
                })
            },
    {
        match ensure_known_model(request.model_id.as_str()) {
            Ok(()) => {},
            Err(error) => {
                return Err(error);
            },
        }
        let mut items: Vec<Result<ModelEvent, ProviderError>> = Vec::new();
        items.push(
            Ok(ModelEvent::TextDelta("The mock runtime received your message. ".to_owned())),
        );
        items.push(
            Ok(
                ModelEvent::TextDelta(
                    "This response is deterministic and streamed in chunks. ".to_owned(),
                ),
            ),
        );
        items.push(Ok(ModelEvent::TextDelta("The mock work is complete.".to_owned())));
        items.push(
            Ok(
                ModelEvent::Usage(
                    Usage { input_tokens: 24, cached_input_tokens: 8, output_tokens: 16 },
                ),
            ),
        );
        items.push(Ok(ModelEvent::Finished(CompletionOutcome::Complete)));
        assert(stream_items(items@) =~= mock_items());
        Ok(items)
    }
}

} // verus!
