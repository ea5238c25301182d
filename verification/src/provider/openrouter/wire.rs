//! The OpenRouter wire format, decoded: catalog pages, stream chunks and error envelopes.

use vstd::prelude::*;

use crate::provider::openrouter::price::{normalize_price, price_per_million};
use crate::provider::{CompletionOutcome, ModelLimits, ModelMetadata, ModelMetadataView, Usage};
use crate::text::{
    blank, is_blank, opt_text, same_text, texts, trim, trim_text,
};

verus! {

/// One page of the model catalog.
#[derive(Debug)]
pub struct CatalogResponse {
    pub data: Vec<CatalogModel>,
    pub links: Option<CatalogLinks>,
}

/// The links of a catalog page.
#[derive(Debug)]
pub struct CatalogLinks {
    pub next: Option<String>,
}

/// One model of a catalog page.
#[derive(Debug)]
pub struct CatalogModel {
    pub id: String,
    pub name: String,
    pub context_length: u64,
    pub top_provider: TopProvider,
    pub pricing: Option<CatalogPricing>,
}

/// The limits of a model's first provider.
#[derive(Debug)]
pub struct TopProvider {
    pub max_completion_tokens: Option<u64>,
}

/// The prices of a model, per token.
#[derive(Debug)]
pub struct CatalogPricing {
    pub prompt: Option<String>,
    pub completion: Option<String>,
}

/// The mathematical form of a catalog model.
#[verifier::ext_equal]
pub struct CatalogModelView {
    pub id: Seq<char>,
    pub name: Seq<char>,
    pub context_length: u64,
    pub max_completion_tokens: Option<u64>,
    pub prompt_price: Option<Seq<char>>,
    pub completion_price: Option<Seq<char>>,
}

impl View for CatalogModel {
    type V = CatalogModelView;

    open spec fn view(&self) -> CatalogModelView {
        CatalogModelView {
            id: self.id@,
            name: self.name@,
            context_length: self.context_length,
            max_completion_tokens: self.top_provider.max_completion_tokens,
            prompt_price: match self.pricing {
                Some(pricing) => opt_text(pricing.prompt),
                None => None,
            },
            completion_price: match self.pricing {
                Some(pricing) => opt_text(pricing.completion),
                None => None,
            },
        }
    }
}

/// The mathematical form of a catalog page.
#[verifier::ext_equal]
pub struct CatalogPageView {
    pub data: Seq<CatalogModelView>,
    pub next: Option<Seq<char>>,
}

/// The views of a list of catalog models, in order.
pub open spec fn catalog_models(models: Seq<CatalogModel>) -> Seq<CatalogModelView> {
    models.map_values(|model: CatalogModel| model@)
}

impl View for CatalogResponse {
    type V = CatalogPageView;

    open spec fn view(&self) -> CatalogPageView {
        CatalogPageView {
            data: catalog_models(self.data@),
            next: match self.links {
                Some(links) => opt_text(links.next),
                None => None,
            },
        }
    }
}

/// A catalog page, or nothing where the response body was not one.
pub open spec fn decoded_page(page: Option<CatalogResponse>) -> Option<CatalogPageView> {
    match page {
        Some(page) => Some(page@),
        None => None,
    }
}

/// An optional price, scaled to a million tokens.
pub open spec fn optional_price(price: Option<Seq<char>>) -> Result<Option<Seq<char>>, Seq<char>> {
    match price {
        Some(price) => price_per_million(price),
        None => Ok(None),
    }
}

/// The metadata of a catalog model, or why the catalog cannot be used.
pub open spec fn normalized_model(model: CatalogModelView) -> Result<ModelMetadataView, Seq<char>> {
    if is_blank(model.id) || is_blank(model.name) {
        Err("the OpenRouter model catalog contains empty model metadata"@)
    } else {
        match (optional_price(model.prompt_price), optional_price(model.completion_price)) {
            (Err(detail), _) => Err(detail),
            (_, Err(detail)) => Err(detail),
            (Ok(prompt_price), Ok(completion_price)) => Ok(
                ModelMetadataView {
                    model_id: model.id,
                    display_name: model.name,
                    limits: ModelLimits {
                        context_window_tokens: model.context_length,
                        maximum_output_tokens: model.max_completion_tokens,
                    },
                    prompt_price_usd_per_million_tokens: prompt_price,
                    completion_price_usd_per_million_tokens: completion_price,
                },
            ),
        }
    }
}

/// The metadata of a list of catalog models, or the first reason why it cannot be used.
pub open spec fn normalized_models(models: Seq<CatalogModelView>) -> Result<
    Seq<ModelMetadataView>,
    Seq<char>,
>
    decreases models.len(),
{
    if models.len() == 0 {
        Ok(Seq::empty())
    } else {
        match normalized_models(models.drop_last()) {
            Err(detail) => Err(detail),
            Ok(before) => match normalized_model(models.last()) {
                Err(detail) => Err(detail),
                Ok(model) => Ok(before.push(model)),
            },
        }
    }
}

/// What a catalog response holds: its models and the link to the next page.
pub open spec fn catalog_page(page: Option<CatalogPageView>) -> Result<
    (Seq<ModelMetadataView>, Option<Seq<char>>),
    Seq<char>,
> {
    match page {
        None => Err("the OpenRouter model catalog response is malformed"@),
        Some(page) => match normalized_models(page.data) {
            Err(detail) => Err(detail),
            Ok(models) => if page.next is Some && is_blank(page.next->0) {
                Err("the OpenRouter model catalog contains an empty next link"@)
            } else {
                Ok((models, page.next))
            },
        },
    }
}

/// The views of a list of model metadata, in order.
pub open spec fn metadata_views(models: Seq<ModelMetadata>) -> Seq<ModelMetadataView> {
    models.map_values(|model: ModelMetadata| model@)
}

fn normalize_optional_price(price: &Option<String>) -> (r: Result<Option<String>, String>)
    ensures
        match optional_price(opt_text(*price)) {
            Ok(scaled) => r is Ok && opt_text(r->Ok_0) == scaled,
            Err(detail) => r is Err && r->Err_0@ == detail,
        },
{
    match price {
        Some(price) => normalize_price(price.as_str()),
        None => Ok(None),
    }
}

/// Normalize one catalog model; a model without usable metadata makes the catalog unusable.
pub fn normalize_catalog_model(model: CatalogModel) -> (r: Result<ModelMetadata, String>)
    ensures
        match normalized_model(model@) {
            Ok(metadata) => r is Ok && r->Ok_0@ == metadata,
            Err(detail) => r is Err && r->Err_0@ == detail,
        },
{
    if blank(model.id.as_str()) || blank(model.name.as_str()) {
        return Err("the OpenRouter model catalog contains empty model metadata".to_owned());
    }
    let (prompt_price, completion_price) = match model.pricing {
        Some(pricing) => {
            let prompt_price = match normalize_optional_price(&pricing.prompt) {
                Ok(price) => price,
                Err(detail) => {
                    return Err(detail);
                },
            };
            let completion_price = match normalize_optional_price(&pricing.completion) {
                Ok(price) => price,
                Err(detail) => {
                    return Err(detail);
                },
            };
            (prompt_price, completion_price)
        },
        None => (None, None),
    };
    Ok(
        ModelMetadata {
            model_id: model.id,
            display_name: model.name,
            limits: ModelLimits {
                context_window_tokens: model.context_length,
                maximum_output_tokens: model.top_provider.max_completion_tokens,
            },
            prompt_price_usd_per_million_tokens: prompt_price,
            completion_price_usd_per_million_tokens: completion_price,
        },
    )
}

/// A fault among the first models stays the fault of the whole list.
proof fn lemma_model_fault_stays(models: Seq<CatalogModelView>, n: int)
    requires
        0 <= n <= models.len(),
    ensures
        normalized_models(models.take(n)) is Err ==> normalized_models(models)
            == normalized_models(models.take(n)),
    decreases models.len() - n,
{
    if n < models.len() {
        lemma_model_fault_stays(models, n + 1);
        assert(models.take(n + 1).drop_last() =~= models.take(n));
    } else {
        assert(models.take(n) =~= models);
    }
}

fn normalize_catalog_models(models: Vec<CatalogModel>) -> (r: Result<Vec<ModelMetadata>, String>)
    ensures
        match normalized_models(catalog_models(models@)) {
            Ok(metadata) => r is Ok && metadata_views((r->Ok_0)@) == metadata,
            Err(detail) => r is Err && r->Err_0@ == detail,
        },
{
    let ghost all = catalog_models(models@);
    let mut rest = models;
    let mut reversed: Vec<CatalogModel> = Vec::new();
    while rest.len() > 0
        invariant
            rest@.len() + reversed@.len() == models@.len(),
            rest@ == models@.take(rest@.len() as int),
            forall|k: int|
                0 <= k < reversed@.len() ==> #[trigger] reversed@[k] == models@[models@.len() - 1
                    - k],
        decreases rest@.len(),
    {
        let ghost before = rest@;
        match rest.pop() {
            Some(model) => {
                reversed.push(model);
                assert(rest@ =~= models@.take(rest@.len() as int));
            },
            None => {},
        }
    }
    let mut out: Vec<ModelMetadata> = Vec::new();
    let ghost mut done: int = 0;
    assert(all.take(0) =~= Seq::empty());
    assert(metadata_views(out@) =~= Seq::empty());
    while reversed.len() > 0
        invariant
            all == catalog_models(models@),
            done + reversed@.len() == models@.len(),
            0 <= done,
            forall|k: int|
                0 <= k < reversed@.len() ==> #[trigger] reversed@[k] == models@[models@.len() - 1
                    - k],
            normalized_models(all.take(done)) == Ok::<Seq<ModelMetadataView>, Seq<char>>(
                metadata_views(out@),
            ),
        decreases reversed@.len(),
    {
        match reversed.pop() {
            Some(model) => {
                proof {
                    assert(model == models@[done]);
                    assert(all.take(done + 1).drop_last() =~= all.take(done));
                    assert(all.take(done + 1).last() == model@);
                    lemma_model_fault_stays(all, done + 1);
                }
                match normalize_catalog_model(model) {
                    Ok(metadata) => {
                        let ghost before = metadata_views(out@);
                        out.push(metadata);
                        assert(metadata_views(out@) =~= before.push(metadata@));
                    },
                    Err(detail) => {
                        return Err(detail);
                    },
                }
                proof {
                    done = done + 1;
                }
            },
            None => {},
        }
    }
    assert(all.take(done) =~= all);
    Ok(out)
}

/// Read one catalog page; `page` is the decoded response body, or nothing where the body is not a
/// catalog page.
pub fn parse_catalog_page(page: Option<CatalogResponse>) -> (r: Result<
    (Vec<ModelMetadata>, Option<String>),
    String,
>)
    ensures
        match catalog_page(decoded_page(page)) {
            Ok((models, next)) => {
                &&& r is Ok
                &&& metadata_views((r->Ok_0).0@) == models
                &&& opt_text((r->Ok_0).1) == next
            },
            Err(detail) => r is Err && r->Err_0@ == detail,
        },
{
    let response = match page {
        Some(response) => response,
        None => {
            return Err("the OpenRouter model catalog response is malformed".to_owned());
        },
    };
    let models = match normalize_catalog_models(response.data) {
        Ok(models) => models,
        Err(detail) => {
            return Err(detail);
        },
    };
    let next = match response.links {
        Some(links) => links.next,
        None => None,
    };
    if let Some(next_link) = &next {
        if blank(next_link.as_str()) {
            return Err("the OpenRouter model catalog contains an empty next link".to_owned());
        }
    }
    Ok((models, next))
}

/// A usable page keeps every model of the catalog, in order, each normalized by itself; one unusable
/// model makes the page unusable.
pub proof fn lemma_page_keeps_every_model(models: Seq<CatalogModelView>)
    ensures
        match normalized_models(models) {
            Ok(metadata) => {
                &&& metadata.len() == models.len()
                &&& forall|i: int|
                    0 <= i < models.len() ==> normalized_model(#[trigger] models[i]) == Ok::<
                        ModelMetadataView,
                        Seq<char>,
                    >(metadata[i])
            },
            Err(detail) => exists|i: int|
                0 <= i < models.len() && normalized_model(#[trigger] models[i]) == Err::<
                    ModelMetadataView,
                    Seq<char>,
                >(detail),
        },
    decreases models.len(),
{
    if models.len() > 0 {
        let before = models.drop_last();
        lemma_page_keeps_every_model(before);
        assert(forall|i: int| 0 <= i < before.len() ==> before[i] == #[trigger] models[i]);
        assert(models.last() == models[models.len() - 1]);
        match normalized_models(before) {
            Err(detail) => {
                let i = choose|i: int|
                    0 <= i < before.len() && normalized_model(#[trigger] before[i]) == Err::<
                        ModelMetadataView,
                        Seq<char>,
                    >(detail);
                assert(models[i] == before[i]);
            },
            Ok(_) => {},
        }
    }
}

/// The errors for a page that cannot be used.
pub open spec fn is_page_fault(detail: Seq<char>) -> bool {
    ||| detail == "the OpenRouter model catalog response is malformed"@
    ||| detail == "the OpenRouter model catalog contains empty model metadata"@
    ||| detail == "the OpenRouter model catalog contains malformed pricing"@
    ||| detail == "the OpenRouter model catalog contains an empty next link"@
}

/// Whatever a page holds, an error says one of the fixed things, and so tells nothing of the page.
pub proof fn lemma_page_faults_are_fixed(page: Option<CatalogPageView>)
    requires
        catalog_page(page) is Err,
    ensures
        is_page_fault(catalog_page(page)->Err_0),
{
    if let Some(page) = page {
        lemma_page_keeps_every_model(page.data);
    }
}

/// One chunk of a generation stream.
#[derive(Debug)]
pub struct ChatChunk {
    pub choices: Option<Vec<ChatChoice>>,
    pub usage: Option<ChatUsage>,
    pub error: Option<ChatError>,
}

/// One choice of a chunk.
#[derive(Debug)]
pub struct ChatChoice {
    pub delta: ChatDelta,
    pub finish_reason: Option<String>,
}

/// What a choice adds to the response.
#[derive(Debug)]
pub struct ChatDelta {
    pub content: Option<String>,
    pub tool_calls: Option<Vec<serde_json::Value>>,
}

/// The token counts of a generation.
#[derive(Debug, Clone, Copy)]
pub struct ChatUsage {
    pub prompt_tokens: u64,
    pub completion_tokens: u64,
    pub prompt_tokens_details: Option<ChatPromptTokenDetails>,
}

/// The parts of the prompt token count.
#[derive(Debug, Clone, Copy)]
pub struct ChatPromptTokenDetails {
    pub cached_tokens: Option<u64>,
}

/// An error that OpenRouter reports.
#[derive(Debug)]
pub struct ChatError {
    pub message: String,
}

/// The body of an error response.
#[derive(Debug)]
pub struct ErrorEnvelope {
    pub error: ChatError,
}

/// The mathematical form of a choice.
#[verifier::ext_equal]
pub struct ChatChoiceView {
    pub content: Option<Seq<char>>,
    pub calls_tools: bool,
    pub finish_reason: Option<Seq<char>>,
}

impl View for ChatChoice {
    type V = ChatChoiceView;

    open spec fn view(&self) -> ChatChoiceView {
        ChatChoiceView {
            content: opt_text(self.delta.content),
            calls_tools: match self.delta.tool_calls {
                Some(tool_calls) => tool_calls@.len() > 0,
                None => false,
            },
            finish_reason: opt_text(self.finish_reason),
        }
    }
}

/// The views of a list of choices, in order.
pub open spec fn choice_views(choices: Seq<ChatChoice>) -> Seq<ChatChoiceView> {
    choices.map_values(|choice: ChatChoice| choice@)
}

/// The mathematical form of a chunk.
#[verifier::ext_equal]
pub struct ChatChunkView {
    pub choices: Option<Seq<ChatChoiceView>>,
    pub usage: Option<ChatUsage>,
    pub error: Option<Seq<char>>,
}

impl View for ChatChunk {
    type V = ChatChunkView;

    open spec fn view(&self) -> ChatChunkView {
        ChatChunkView {
            choices: match self.choices {
                Some(choices) => Some(choice_views(choices@)),
                None => None,
            },
            usage: self.usage,
            error: match self.error {
                Some(error) => Some(error.message@),
                None => None,
            },
        }
    }
}

/// A chunk, or nothing where the data was not one.
pub open spec fn decoded_chunk(chunk: Option<ChatChunk>) -> Option<ChatChunkView> {
    match chunk {
        Some(chunk) => Some(chunk@),
        None => None,
    }
}

/// The normalized reason for the end of a choice.
#[derive(Debug, Clone, Copy, PartialEq, Eq)]
pub enum FinishReason {
    Complete,
    LengthLimited,
    Error,
    Unsupported,
}

/// A chunk, normalized.
#[derive(Debug, PartialEq, Eq)]
pub struct ParsedChatChunk {
    pub text_deltas: Vec<String>,
    pub usage: Option<Usage>,
    pub finish_reason: Option<FinishReason>,
}

/// One event of a generation stream, normalized.
#[derive(Debug, PartialEq, Eq)]
pub enum ParsedSseEvent {
    Done,
    Chunk(ParsedChatChunk),
    Error(String),
}

/// The mathematical form of a normalized chunk.
#[verifier::ext_equal]
pub struct ParsedChunkView {
    pub text_deltas: Seq<Seq<char>>,
    pub usage: Option<Usage>,
    pub finish_reason: Option<FinishReason>,
}

/// The mathematical form of a normalized stream event.
#[verifier::ext_equal]
pub enum ParsedEventView {
    Done,
    Chunk(ParsedChunkView),
    Error(Seq<char>),
}

impl View for ParsedChatChunk {
    type V = ParsedChunkView;

    open spec fn view(&self) -> ParsedChunkView {
        ParsedChunkView {
            text_deltas: texts(self.text_deltas@),
            usage: self.usage,
            finish_reason: self.finish_reason,
        }
    }
}

impl View for ParsedSseEvent {
    type V = ParsedEventView;

    open spec fn view(&self) -> ParsedEventView {
        match *self {
            ParsedSseEvent::Done => ParsedEventView::Done,
            ParsedSseEvent::Chunk(chunk) => ParsedEventView::Chunk(chunk@),
            ParsedSseEvent::Error(message) => ParsedEventView::Error(message@),
        }
    }
}

/// The reason that OpenRouter writes as this text.
pub open spec fn finish_reason_of(text: Seq<char>) -> FinishReason {
    if text == "stop"@ {
        FinishReason::Complete
    } else if text == "length"@ {
        FinishReason::LengthLimited
    } else if text == "error"@ {
        FinishReason::Error
    } else {
        FinishReason::Unsupported
    }
}

/// The text deltas and the finish reason of a list of choices, or the first fault among them.
pub open spec fn scan_choices(choices: Seq<ChatChoiceView>) -> Result<
    (Seq<Seq<char>>, Option<FinishReason>),
    Seq<char>,
>
    decreases choices.len(),
{
    if choices.len() == 0 {
        Ok((Seq::empty(), None))
    } else {
        match scan_choices(choices.drop_last()) {
            Err(detail) => Err(detail),
            Ok((deltas, reason)) => {
                let choice = choices.last();
                let more_deltas = if choice.content is Some && choice.content->0.len() > 0 {
                    deltas.push(choice.content->0)
                } else {
                    deltas
                };
                if choice.calls_tools {
                    Err("the OpenRouter stream returned unsupported tool calls"@)
                } else if choice.finish_reason is None {
                    Ok((more_deltas, reason))
                } else if reason is Some {
                    Err("the OpenRouter stream returned multiple finish reasons"@)
                } else {
                    Ok((more_deltas, Some(finish_reason_of(choice.finish_reason->0))))
                }
            },
        }
    }
}

/// No text delta is empty, and there are no more of them than choices.
pub proof fn lemma_deltas_are_not_empty(choices: Seq<ChatChoiceView>)
    requires
        scan_choices(choices) is Ok,
    ensures
        ({
            let deltas = (scan_choices(choices)->Ok_0).0;
            &&& deltas.len() <= choices.len()
            &&& forall|i: int| 0 <= i < deltas.len() ==> (#[trigger] deltas[i]).len() > 0
        }),
    decreases choices.len(),
{
    if choices.len() > 0 {
        lemma_deltas_are_not_empty(choices.drop_last());
    }
}

/// The usage that a chunk reports; an absent count of cached tokens is zero.
pub open spec fn normalized_usage(usage: ChatUsage) -> Usage {
    Usage {
        input_tokens: usage.prompt_tokens,
        cached_input_tokens: match usage.prompt_tokens_details {
            Some(details) => match details.cached_tokens {
                Some(cached_tokens) => cached_tokens,
                None => 0,
            },
            None => 0,
        },
        output_tokens: usage.completion_tokens,
    }
}

/// What the data of one stream event means.
pub open spec fn sse_event(data: Seq<char>, chunk: Option<ChatChunkView>) -> Result<
    ParsedEventView,
    Seq<char>,
> {
    if trim_text(data) == "[DONE]"@ {
        Ok(ParsedEventView::Done)
    } else {
        match chunk {
            None => Err("the OpenRouter stream contained malformed JSON"@),
            Some(chunk) => if chunk.error is Some {
                Ok(
                    ParsedEventView::Error(
                        if chunk.error->0.len() == 0 {
                            "OpenRouter returned a stream error"@
                        } else {
                            chunk.error->0
                        },
                    ),
                )
            } else if chunk.choices is None {
                Err("the OpenRouter stream omitted choices"@)
            } else {
                match scan_choices(chunk.choices->0) {
                    Err(detail) => Err(detail),
                    Ok((text_deltas, finish_reason)) => Ok(
                        ParsedEventView::Chunk(
                            ParsedChunkView {
                                text_deltas,
                                usage: match chunk.usage {
                                    Some(usage) => Some(normalized_usage(usage)),
                                    None => None,
                                },
                                finish_reason,
                            },
                        ),
                    ),
                }
            },
        }
    }
}

fn parse_finish_reason(text: &str) -> (reason: FinishReason)
    ensures
        reason == finish_reason_of(text@),
{
    if same_text(text, "stop") {
        FinishReason::Complete
    } else if same_text(text, "length") {
        FinishReason::LengthLimited
    } else if same_text(text, "error") {
        FinishReason::Error
    } else {
        FinishReason::Unsupported
    }
}

/// A fault among the first choices stays the fault of the whole list.
proof fn lemma_choice_fault_stays(choices: Seq<ChatChoiceView>, n: int)
    requires
        0 <= n <= choices.len(),
    ensures
        scan_choices(choices.take(n)) is Err ==> scan_choices(choices) == scan_choices(
            choices.take(n),
        ),
    decreases choices.len() - n,
{
    if n < choices.len() {
        lemma_choice_fault_stays(choices, n + 1);
        assert(choices.take(n + 1).drop_last() =~= choices.take(n));
    } else {
        assert(choices.take(n) =~= choices);
    }
}

/// Collect the text deltas and the finish reason of a list of choices.
fn read_choices(choices: &Vec<ChatChoice>) -> (r: Result<
    (Vec<String>, Option<FinishReason>),
    String,
>)
    ensures
        match scan_choices(choice_views(choices@)) {
            Ok((text_deltas, finish_reason)) => {
                &&& r is Ok
                &&& texts((r->Ok_0).0@) == text_deltas
                &&& (r->Ok_0).1 == finish_reason
            },
            Err(detail) => r is Err && r->Err_0@ == detail,
        },
{
    let ghost all = choice_views(choices@);
    let mut text_deltas: Vec<String> = Vec::new();
    let mut finish_reason: Option<FinishReason> = None;
    let mut i: usize = 0;
    assert(all.take(0) =~= Seq::empty());
    assert(texts(text_deltas@) =~= Seq::empty());
    while i < choices.len()
        invariant
            all == choice_views(choices@),
            i <= choices@.len(),
            scan_choices(all.take(i as int)) == Ok::<
                (Seq<Seq<char>>, Option<FinishReason>),
                Seq<char>,
            >((texts(text_deltas@), finish_reason)),
        decreases choices@.len() - i,
    {
        let choice = &choices[i];
        proof {
            assert(all.take(i + 1).drop_last() =~= all.take(i as int));
            assert(all.take(i + 1).last() == choice@);
            lemma_choice_fault_stays(all, i + 1);
        }
        if let Some(tool_calls) = &choice.delta.tool_calls {
            if tool_calls.len() > 0 {
                return Err("the OpenRouter stream returned unsupported tool calls".to_owned());
            }
        }
        if let Some(content) = &choice.delta.content {
            if content.as_str().unicode_len() > 0 {
                let ghost before = texts(text_deltas@);
                text_deltas.push(content.clone());
                assert(texts(text_deltas@) =~= before.push(content@));
            }
        }
        if let Some(reason) = &choice.finish_reason {
            if finish_reason.is_some() {
                return Err("the OpenRouter stream returned multiple finish reasons".to_owned());
            }
            finish_reason = Some(parse_finish_reason(reason.as_str()));
        }
        i += 1;
    }
    assert(all.take(i as int) =~= all);
    Ok((text_deltas, finish_reason))
}

/// Normalize the data of one stream event; `chunk` is the decoded data, or nothing where the data
/// is not a chunk.
pub fn parse_sse_data(data: &str, chunk: Option<ChatChunk>) -> (r: Result<ParsedSseEvent, String>)
    ensures
        match sse_event(data@, decoded_chunk(chunk)) {
            Ok(event) => r is Ok && r->Ok_0@ == event,
            Err(detail) => r is Err && r->Err_0@ == detail,
        },
{
    if same_text(trim(data).as_str(), "[DONE]") {
        return Ok(ParsedSseEvent::Done);
    }
    let chunk = match chunk {
        Some(chunk) => chunk,
        None => {
            return Err("the OpenRouter stream contained malformed JSON".to_owned());
        },
    };
    if let Some(error) = chunk.error {
        return Ok(
            ParsedSseEvent::Error(
                if error.message.as_str().unicode_len() == 0 {
                    "OpenRouter returned a stream error".to_owned()
                } else {
                    error.message
                },
            ),
        );
    }
    let choices = match chunk.choices {
        Some(choices) => choices,
        None => {
            return Err("the OpenRouter stream omitted choices".to_owned());
        },
    };
    let (text_deltas, finish_reason) = match read_choices(&choices) {
        Ok(read) => read,
        Err(detail) => {
            return Err(detail);
        },
    };
    let usage = match chunk.usage {
        Some(usage) => Some(
            Usage {
                input_tokens: usage.prompt_tokens,
                cached_input_tokens: match usage.prompt_tokens_details {
                    Some(details) => match details.cached_tokens {
                        Some(cached_tokens) => cached_tokens,
                        None => 0,
                    },
                    None => 0,
                },
                output_tokens: usage.completion_tokens,
            },
        ),
        None => None,
    };
    Ok(ParsedSseEvent::Chunk(ParsedChatChunk { text_deltas, usage, finish_reason }))
}

/// The outcome that a finish reason stands for, if it is one.
pub open spec fn outcome_of(finish_reason: FinishReason) -> Option<CompletionOutcome> {
    match finish_reason {
        FinishReason::Complete => Some(CompletionOutcome::Complete),
        FinishReason::LengthLimited => Some(CompletionOutcome::LengthLimited),
        FinishReason::Error => None,
        FinishReason::Unsupported => None,
    }
}

pub fn completion_outcome(finish_reason: FinishReason) -> (outcome: Option<CompletionOutcome>)
    ensures
        outcome == outcome_of(finish_reason),
{
    match finish_reason {
        FinishReason::Complete => Some(CompletionOutcome::Complete),
        FinishReason::LengthLimited => Some(CompletionOutcome::LengthLimited),
        FinishReason::Error => None,
        FinishReason::Unsupported => None,
    }
}

/// Why a finish reason is no outcome.
pub open spec fn finish_fault(finish_reason: FinishReason) -> Seq<char> {
    match finish_reason {
        FinishReason::Error => "the OpenRouter stream reported an error completion"@,
        FinishReason::Unsupported =>
        "the OpenRouter stream returned an unsupported completion reason"@,
        FinishReason::Complete => ""@,
        FinishReason::LengthLimited => ""@,
    }
}

pub fn finish_reason_error(finish_reason: FinishReason) -> (detail: &'static str)
    ensures
        detail@ == finish_fault(finish_reason),
{
    match finish_reason {
        FinishReason::Error => "the OpenRouter stream reported an error completion",
        FinishReason::Unsupported => {
            "the OpenRouter stream returned an unsupported completion reason"
        },
        FinishReason::Complete => "",
        FinishReason::LengthLimited => "",
    }
}

/// The message of an error response, if it has one.
pub open spec fn envelope_message(envelope: Option<ErrorEnvelope>) -> Option<Seq<char>> {
    match envelope {
        Some(envelope) => if envelope.error.message@.len() > 0 {
            Some(envelope.error.message@)
        } else {
            None
        },
        None => None,
    }
}

/// The message that an error response carries; `envelope` is the decoded response body, or nothing
/// where the body is not an error envelope.
pub fn api_error_message(envelope: Option<ErrorEnvelope>) -> (message: Option<String>)
    ensures
        opt_text(message) == envelope_message(envelope),
{
    match envelope {
        Some(envelope) => if envelope.error.message.as_str().unicode_len() > 0 {
            Some(envelope.error.message)
        } else {
            None
        },
        None => None,
    }
}

} // verus!
