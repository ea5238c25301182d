//! The OpenRouter adapter: which requests it makes and what it makes of the replies.

pub mod auth;
pub mod body;
pub mod catalog_laws;
pub mod price;
pub mod request_laws;
pub mod secret;
pub mod stream;
pub mod stream_laws;
pub mod wire;

use vstd::prelude::*;
use vstd::utf8::encode_utf8;

use crate::provider::openrouter::body::{conversation_request_body, request_json};
use crate::provider::openrouter::secret::{
    lemma_key_is_absent_around, lemma_redacted_message_hides_key, redact_secret, redacted,
    redacted_if_known, touches, touches_first, touches_last,
};
use crate::provider::openrouter::wire::{
    api_error_message, catalog_page, decoded_page, envelope_message, is_page_fault,
    lemma_page_faults_are_fixed, metadata_views, parse_catalog_page, CatalogResponse, ErrorEnvelope,
};
use crate::provider::{
    provider_error_text, ModelLimits, ModelMetadata, ModelMetadataView, ModelRequest,
    ModelRequestView, ProviderError, ProviderErrorView,
};
use crate::text::{
    ascii_lower, concat2, contains_text, decimal, occurs, opt_str, opt_text, same_text,
    to_ascii_lowercase, to_decimal,
};

verus! {

/// The model that a new session starts with.
pub const OPENROUTER_DEFAULT_MODEL_ID: &'static str = "deepseek/deepseek-v4-flash-0731";

// ---------------------------------------------------------------------------
// Error messages
// ---------------------------------------------------------------------------

/// What the headers of a response tell about it.
#[derive(Debug, PartialEq, Eq)]
pub struct ResponseContext {
    pub retry_after: Option<String>,
    pub generation_id: Option<String>,
}

/// The mathematical form of a response context.
#[verifier::ext_equal]
pub struct ResponseContextView {
    pub retry_after: Option<Seq<char>>,
    pub generation_id: Option<Seq<char>>,
}

impl View for ResponseContext {
    type V = ResponseContextView;

    open spec fn view(&self) -> ResponseContextView {
        ResponseContextView {
            retry_after: opt_text(self.retry_after),
            generation_id: opt_text(self.generation_id),
        }
    }
}

impl Default for ResponseContext {
    fn default() -> (context: Self)
        ensures
            context@ == (ResponseContextView { retry_after: None, generation_id: None }),
    {
        ResponseContext { retry_after: None, generation_id: None }
    }
}

/// `message` with the retry time and the generation identity behind it, where they are known, and
/// the key, where it is known, redacted from each.
pub open spec fn with_context(
    message: Seq<char>,
    context: ResponseContextView,
    api_key: Option<Seq<char>>,
) -> Seq<char> {
    let start = redacted_if_known(message, api_key);
    let timed = match context.retry_after {
        Some(retry_after) => start + "; retry after "@ + redacted_if_known(retry_after, api_key),
        None => start,
    };
    match context.generation_id {
        Some(generation_id) => timed + "; generation id "@ + redacted_if_known(
            generation_id,
            api_key,
        ),
        None => timed,
    }
}

fn redact_if_known(message: &str, api_key: Option<&str>) -> (r: String)
    ensures
        r@ == redacted_if_known(message@, opt_str(api_key)),
{
    match api_key {
        Some(api_key) => redact_secret(message, api_key),
        None => message.to_owned(),
    }
}

fn add_context(message: &str, context: &ResponseContext, api_key: Option<&str>) -> (r: String)
    ensures
        r@ == with_context(message@, context@, opt_str(api_key)),
{
    let mut r = redact_if_known(message, api_key);
    if let Some(retry_after) = &context.retry_after {
        r.append("; retry after ");
        r.append(redact_if_known(retry_after.as_str(), api_key).as_str());
    }
    if let Some(generation_id) = &context.generation_id {
        r.append("; generation id ");
        r.append(redact_if_known(generation_id.as_str(), api_key).as_str());
    }
    r
}

/// A stream error as the user sees it.
pub fn format_stream_error(message: &str, response_context: &ResponseContext, api_key: &str) -> (r:
    String)
    ensures
        r@ == with_context(message@, response_context@, Some(api_key@)),
{
    add_context(message, response_context, Some(api_key))
}

/// Whether a message says that no provider can be routed to.
pub open spec fn no_provider_routed(lowercase_message: Seq<char>) -> bool {
    ||| occurs(lowercase_message, "no allowed providers are available"@)
    ||| occurs(
        lowercase_message,
        "no available model provider that meets your routing requirements"@,
    )
}

pub fn is_provider_routing_availability_error(lowercase_message: &str) -> (r: bool)
    ensures
        r == no_provider_routed(lowercase_message@),
{
    contains_text(lowercase_message, "no allowed providers are available") || contains_text(
        lowercase_message,
        "no available model provider that meets your routing requirements",
    )
}

/// Whether choosing another model can help against this error.
pub open spec fn model_choice_helps(status: u16, message: Seq<char>) -> bool {
    ||| status == 404
    ||| status == 400 && occurs(ascii_lower(message), "model"@)
    ||| status == 503 && no_provider_routed(ascii_lower(message))
}

pub fn is_model_selection_error(status: u16, message: &str) -> (r: bool)
    ensures
        r == model_choice_helps(status, message@),
{
    let lowercase_message = to_ascii_lowercase(message);
    status == 404 || (status == 400 && contains_text(lowercase_message.as_str(), "model")) || (
    status == 503 && is_provider_routing_availability_error(lowercase_message.as_str()))
}

/// An HTTP error as the user sees it: the API's own message or the status, with the response
/// context, and with a hint where choosing another model can help.
pub open spec fn http_error_text(
    status: u16,
    api_message: Option<Seq<char>>,
    context: ResponseContextView,
    model_request: bool,
    api_key: Option<Seq<char>>,
) -> Seq<char> {
    let message = with_context(
        match api_message {
            Some(message) => message,
            None => "HTTP status "@ + decimal(status as nat),
        },
        context,
        api_key,
    );
    if model_request && model_choice_helps(status, message) {
        message + "; open Ctrl-P and choose another model"@
    } else {
        message
    }
}

/// Describe an HTTP error; `envelope` is the decoded response body, or nothing where the body is
/// not an error envelope.
pub fn format_http_error(
    status: u16,
    envelope: Option<ErrorEnvelope>,
    response_context: &ResponseContext,
    model_request: bool,
    api_key: Option<&str>,
) -> (r: String)
    ensures
        r@ == http_error_text(
            status,
            envelope_message(envelope),
            response_context@,
            model_request,
            opt_str(api_key),
        ),
{
    let message = match api_error_message(envelope) {
        Some(message) => message,
        None => concat2("HTTP status ", to_decimal(status as u64).as_str()),
    };
    let mut r = add_context(message.as_str(), response_context, api_key);
    if model_request && is_model_selection_error(status, r.as_str()) {
        r.append("; open Ctrl-P and choose another model");
    }
    r
}

/// The key stands out from the fixed wording of errors: it can be mistaken for no part of it.
pub open spec fn stands_out(api_key: Seq<char>) -> bool {
    &&& api_key.len() > 0
    &&& !touches("[redacted]"@, api_key)
    &&& !touches("; retry after "@, api_key)
    &&& !touches("; generation id "@, api_key)
    &&& !touches_last("; open Ctrl-P and choose another model"@, api_key)
    &&& !touches_first("request setup failed: "@, api_key)
    &&& !touches_first("streaming failed: "@, api_key)
}

proof fn lemma_context_hides_key(
    message: Seq<char>,
    context: ResponseContextView,
    api_key: Seq<char>,
)
    requires
        stands_out(api_key),
    ensures
        !occurs(with_context(message, context, Some(api_key)), api_key),
{
    reveal_strlit("; retry after ");
    reveal_strlit("; generation id ");
    let start = redacted(message, api_key);
    lemma_redacted_message_hides_key(message, api_key);
    let timed = match context.retry_after {
        Some(retry_after) => start + "; retry after "@ + redacted(retry_after, api_key),
        None => start,
    };
    assert(!occurs(timed, api_key)) by {
        if let Some(retry_after) = context.retry_after {
            lemma_redacted_message_hides_key(retry_after, api_key);
            lemma_key_is_absent_around(
                start,
                "; retry after "@,
                redacted(retry_after, api_key),
                api_key,
            );
        }
    }
    if let Some(generation_id) = context.generation_id {
        lemma_redacted_message_hides_key(generation_id, api_key);
        lemma_key_is_absent_around(
            timed,
            "; generation id "@,
            redacted(generation_id, api_key),
            api_key,
        );
    }
}

/// Whatever a server sends in its messages and headers, no HTTP or stream error that is made of them
/// holds the key, for every key that stands out from the fixed wording of errors.
pub proof fn lemma_errors_hide_key(
    status: u16,
    api_message: Option<Seq<char>>,
    stream_message: Seq<char>,
    context: ResponseContextView,
    model_request: bool,
    api_key: Seq<char>,
)
    requires
        stands_out(api_key),
    ensures
        !occurs(
            provider_error_text(
                ProviderErrorView::RequestSetup(
                    http_error_text(status, api_message, context, model_request, Some(api_key)),
                ),
            ),
            api_key,
        ),
        !occurs(
            provider_error_text(
                ProviderErrorView::Streaming(with_context(stream_message, context, Some(api_key))),
            ),
            api_key,
        ),
{
    reveal_strlit("request setup failed: ");
    reveal_strlit("streaming failed: ");
    reveal_strlit("; open Ctrl-P and choose another model");
    let nothing = Seq::<char>::empty();
    let hint = "; open Ctrl-P and choose another model"@;
    let message = with_context(
        match api_message {
            Some(message) => message,
            None => "HTTP status "@ + decimal(status as nat),
        },
        context,
        Some(api_key),
    );
    lemma_context_hides_key(
        match api_message {
            Some(message) => message,
            None => "HTTP status "@ + decimal(status as nat),
        },
        context,
        api_key,
    );
    lemma_key_is_absent_around(message, hint, nothing, api_key);
    assert(message + hint + nothing =~= message + hint);
    let text = http_error_text(status, api_message, context, model_request, Some(api_key));
    lemma_key_is_absent_around(nothing, "request setup failed: "@, text, api_key);
    assert(nothing + "request setup failed: "@ =~= "request setup failed: "@);
    let stream_text = with_context(stream_message, context, Some(api_key));
    lemma_context_hides_key(stream_message, context, api_key);
    lemma_key_is_absent_around(nothing, "streaming failed: "@, stream_text, api_key);
    assert(nothing + "streaming failed: "@ =~= "streaming failed: "@);
}

/// The generation identity to trace for a response, with the key redacted.
pub fn traced_generation_id(response_context: &ResponseContext, api_key: &str) -> (id: Option<
    String,
>)
    ensures
        opt_text(id) == match response_context@.generation_id {
            Some(generation_id) => Some(redacted(generation_id, api_key@)),
            None => None,
        },
{
    match &response_context.generation_id {
        Some(generation_id) => Some(redact_secret(generation_id.as_str(), api_key)),
        None => None,
    }
}

/// A step of an exchange with OpenRouter that can fail outside the library.
#[derive(Debug, Clone, Copy, PartialEq, Eq)]
pub enum ExchangeStep {
    CreateClient,
    SendCatalogRequest,
    ReadCatalogResponse,
    SendGenerationRequest,
    ReadGenerationError,
}

/// What is said of a failed step, in front of its detail.
pub open spec fn step_text(step: ExchangeStep) -> Seq<char> {
    match step {
        ExchangeStep::CreateClient => "unable to create the OpenRouter HTTP client: "@,
        ExchangeStep::SendCatalogRequest => "OpenRouter model catalog request failed: "@,
        ExchangeStep::ReadCatalogResponse =>
        "unable to read the OpenRouter model catalog response: "@,
        ExchangeStep::SendGenerationRequest => "OpenRouter generation request failed: "@,
        ExchangeStep::ReadGenerationError =>
        "unable to read the OpenRouter generation error response: "@,
    }
}

/// The setup error for a step that failed with this detail.
pub fn exchange_failure(step: ExchangeStep, detail: &str) -> (error: ProviderError)
    ensures
        error@ == ProviderErrorView::RequestSetup(step_text(step) + detail@),
{
    let prefix = match step {
        ExchangeStep::CreateClient => "unable to create the OpenRouter HTTP client: ",
        ExchangeStep::SendCatalogRequest => "OpenRouter model catalog request failed: ",
        ExchangeStep::ReadCatalogResponse => {
            "unable to read the OpenRouter model catalog response: "
        },
        ExchangeStep::SendGenerationRequest => "OpenRouter generation request failed: ",
        ExchangeStep::ReadGenerationError => {
            "unable to read the OpenRouter generation error response: "
        },
    };
    ProviderError::RequestSetup(concat2(prefix, detail))
}

// ---------------------------------------------------------------------------
// Addresses and headers
// ---------------------------------------------------------------------------

/// The URL that a link denotes at a base URL, or why it denotes none.
pub uninterp spec fn url_join(base: Seq<char>, link: Seq<char>) -> Result<Seq<char>, Seq<char>>;

/// The characters of a URL or of the error in its place.
pub open spec fn url_result(r: Result<String, String>) -> Result<Seq<char>, Seq<char>> {
    match r {
        Ok(url) => Ok(url@),
        Err(detail) => Err(detail@),
    }
}

/// The texts of the errors of the URL parser.
pub open spec fn is_url_fault(cause: Seq<char>) -> bool {
    ||| cause == "empty host"@
    ||| cause == "invalid international domain name"@
    ||| cause == "invalid port number"@
    ||| cause == "invalid IPv4 address"@
    ||| cause == "invalid IPv6 address"@
    ||| cause == "invalid domain character"@
    ||| cause == "relative URL without a base"@
    ||| cause == "relative URL with a cannot-be-a-base base"@
    ||| cause == "a cannot-be-a-base URL doesn\u{2019}t have a host to set"@
    ||| cause == "URLs more than 4 GB are not supported"@
}

/// `Url::join` on the URL that `base` spells: the joined URL's text, or the text of the error. Both
/// depend on the two texts alone, and the error is one of the fixed texts of `url::ParseError`.
#[verifier::external_body]
fn join_url(base: &str, link: &str) -> (r: Result<String, String>)
    ensures
        url_result(r) == url_join(base@, link@),
        r is Err ==> is_url_fault(r->Err_0@),
{
    match reqwest::Url::parse(base).and_then(|url| url.join(link)) {
        Ok(url) => Ok(url.to_string()),
        Err(error) => Err(error.to_string()),
    }
}

/// The scheme of the URL that a text spells, if it spells one.
pub uninterp spec fn url_scheme(url: Seq<char>) -> Option<Seq<char>>;

/// `Url::scheme` of the URL that the text spells, which depends on the text alone.
#[verifier::external_body]
fn scheme_of(url: &str) -> (r: Option<String>)
    ensures
        opt_text(r) == url_scheme(url@),
{
    reqwest::Url::parse(url).ok().map(|url| url.scheme().to_owned())
}

/// The host of the URL that a text spells, if it spells one that has a host.
pub uninterp spec fn url_host(url: Seq<char>) -> Option<Seq<char>>;

/// `Url::host_str` of the URL that the text spells, which depends on the text alone.
#[verifier::external_body]
fn host_of(url: &str) -> (r: Option<String>)
    ensures
        opt_text(r) == url_host(url@),
{
    reqwest::Url::parse(url).ok().and_then(|url| url.host_str().map(str::to_owned))
}

/// The port of the URL that a text spells, given or known from its scheme.
pub uninterp spec fn url_port(url: Seq<char>) -> Option<u16>;

/// `Url::port_or_known_default` of the URL that the text spells, which depends on the text alone.
#[verifier::external_body]
fn port_of(url: &str) -> (r: Option<u16>)
    ensures
        r == url_port(url@),
{
    reqwest::Url::parse(url).ok().and_then(|url| url.port_or_known_default())
}

/// Whether two URLs have the same scheme, host and port.
pub open spec fn same_origin(a: Seq<char>, b: Seq<char>) -> bool {
    &&& url_scheme(a) == url_scheme(b)
    &&& url_host(a) == url_host(b)
    &&& url_port(a) == url_port(b)
}

fn same_optional_text(a: &Option<String>, b: &Option<String>) -> (r: bool)
    ensures
        r == (opt_text(*a) == opt_text(*b)),
{
    match (a, b) {
        (Some(a), Some(b)) => same_text(a.as_str(), b.as_str()),
        (None, None) => true,
        _ => false,
    }
}

fn same_optional_port(a: Option<u16>, b: Option<u16>) -> (r: bool)
    ensures
        r == (a == b),
{
    match (a, b) {
        (Some(a), Some(b)) => a == b,
        (None, None) => true,
        _ => false,
    }
}

pub fn has_same_catalog_origin(current_url: &str, next_url: &str) -> (r: bool)
    ensures
        r == same_origin(current_url@, next_url@),
{
    same_optional_text(&scheme_of(current_url), &scheme_of(next_url)) && same_optional_text(
        &host_of(current_url),
        &host_of(next_url),
    ) && same_optional_port(port_of(current_url), port_of(next_url))
}

/// Where a next link leads, given what joining it gave: only to the same origin.
pub open spec fn next_url(
    current_url: Seq<char>,
    joined: Result<Seq<char>, Seq<char>>,
) -> Result<Seq<char>, Seq<char>> {
    match joined {
        Err(detail) => Err(
            "the OpenRouter model catalog contains an invalid next link: "@ + detail,
        ),
        Ok(url) => if same_origin(current_url, url) {
            Ok(url)
        } else {
            Err("the OpenRouter model catalog contains a next link with a different origin"@)
        },
    }
}

/// Accept a joined next link if it stays at the origin of the current page.
pub fn accept_next_url(current_url: &str, joined: Result<String, String>) -> (r: Result<
    String,
    String,
>)
    ensures
        url_result(r) == next_url(current_url@, url_result(joined)),
{
    match joined {
        Err(detail) => Err(
            concat2(
                "the OpenRouter model catalog contains an invalid next link: ",
                detail.as_str(),
            ),
        ),
        Ok(url) => if has_same_catalog_origin(current_url, url.as_str()) {
            Ok(url)
        } else {
            Err(
                "the OpenRouter model catalog contains a next link with a different origin".to_owned(),
            )
        },
    }
}

/// The errors for a catalog page that was answered with success: all of them are fixed texts.
pub open spec fn is_catalog_fault(detail: Seq<char>) -> bool {
    ||| is_page_fault(detail)
    ||| detail == "the OpenRouter model catalog contains a next link with a different origin"@
    ||| exists|cause: Seq<char>| #[trigger]
        is_url_fault(cause) && detail
            == "the OpenRouter model catalog contains an invalid next link: "@ + cause
}

/// Resolve the link to the next catalog page against the current page.
pub fn resolve_catalog_next_url(current_url: &str, next_link: &str) -> (r: Result<String, String>)
    ensures
        url_result(r) == next_url(current_url@, url_join(current_url@, next_link@)),
        r is Err ==> is_catalog_fault(r->Err_0@),
{
    accept_next_url(current_url, join_url(current_url, next_link))
}

/// Whether a text can be sent as the value of a header: no control character but the tab.
pub open spec fn is_header_text(text: Seq<char>) -> bool {
    forall|i: int|
        0 <= i < encode_utf8(text).len() ==> {
            let b = #[trigger] encode_utf8(text)[i];
            b >= 32 && b != 127 || b == 9
        }
}

/// `HeaderValue::from_str` accepts a text exactly when each of its bytes is a tab, or at least 32
/// and not 127.
#[verifier::external_body]
fn header_accepts(text: &str) -> (r: bool)
    ensures
        r == is_header_text(text@),
{
    reqwest::header::HeaderValue::from_str(text).is_ok()
}

/// One header of a request; `sensitive` tells the sender to mark the value as one to be hidden.
#[derive(PartialEq, Eq)]
pub struct RequestHeader {
    pub name: &'static str,
    pub value: String,
    pub sensitive: bool,
}

/// The mathematical form of a request header.
#[verifier::ext_equal]
pub struct RequestHeaderView {
    pub name: Seq<char>,
    pub value: Seq<char>,
    pub sensitive: bool,
}

impl View for RequestHeader {
    type V = RequestHeaderView;

    open spec fn view(&self) -> RequestHeaderView {
        RequestHeaderView {
            name: self.name@,
            value: self.value@,
            sensitive: self.sensitive,
        }
    }
}

/// The views of a list of headers, in order.
pub open spec fn header_views(headers: Seq<RequestHeader>) -> Seq<RequestHeaderView> {
    headers.map_values(|header: RequestHeader| header@)
}

/// The header that carries the key.
pub open spec fn authorization(api_key: Seq<char>) -> RequestHeaderView {
    RequestHeaderView { name: "Authorization"@, value: "Bearer "@ + api_key, sensitive: true }
}

/// The authorization header for a key, or the error for a key that no header can carry.
pub fn openrouter_authorization_header(api_key: &str) -> (r: Result<RequestHeader, ProviderError>)
    ensures
        if is_header_text("Bearer "@ + api_key@) {
            r is Ok && r->Ok_0@ == authorization(api_key@)
        } else {
            r is Err && r->Err_0@ == ProviderErrorView::RequestSetup(
                "the OpenRouter API key is invalid"@,
            )
        },
{
    let value = concat2("Bearer ", api_key);
    if header_accepts(value.as_str()) {
        Ok(RequestHeader { name: "Authorization", value, sensitive: true })
    } else {
        Err(ProviderError::RequestSetup("the OpenRouter API key is invalid".to_owned()))
    }
}

// ---------------------------------------------------------------------------
// Requests
// ---------------------------------------------------------------------------

/// Whether an HTTP status reports success.
pub open spec fn is_success(status: u16) -> bool {
    200 <= status <= 299
}

/// A generation request, ready to be sent.
#[derive(PartialEq, Eq)]
pub struct GenerationPlan {
    pub url: String,
    pub headers: Vec<RequestHeader>,
    pub body: Vec<u8>,
    pub api_key: String,
}

/// The mathematical form of a generation plan.
#[verifier::ext_equal]
pub struct GenerationPlanView {
    pub url: Seq<char>,
    pub headers: Seq<RequestHeaderView>,
    pub body: Seq<u8>,
    pub api_key: Seq<char>,
}

impl View for GenerationPlan {
    type V = GenerationPlanView;

    open spec fn view(&self) -> GenerationPlanView {
        GenerationPlanView {
            url: self.url@,
            headers: header_views(self.headers@),
            body: self.body@,
            api_key: self.api_key@,
        }
    }
}

/// The headers of a generation request.
pub open spec fn generation_headers(api_key: Seq<char>) -> Seq<RequestHeaderView> {
    seq![
        authorization(api_key),
        RequestHeaderView {
            name: "content-type"@,
            value: "application/json"@,
            sensitive: false,
        },
        RequestHeaderView { name: "x-openrouter-title"@, value: "nano"@, sensitive: false },
        RequestHeaderView {
            name: "x-openrouter-categories"@,
            value: "cli-agent"@,
            sensitive: false,
        },
    ]
}

/// The characters of a key or of the reason why there is none.
pub open spec fn credential(r: Result<String, String>) -> Result<Seq<char>, Seq<char>> {
    match r {
        Ok(key) => Ok(key@),
        Err(detail) => Err(detail@),
    }
}

/// The generation request for these messages: the first thing that fails is the error.
pub open spec fn planned_generation(
    key: Result<Seq<char>, Seq<char>>,
    chat_url: Result<Seq<char>, Seq<char>>,
    request: ModelRequestView,
) -> Result<GenerationPlanView, ProviderErrorView> {
    match key {
        Err(detail) => Err(ProviderErrorView::RequestSetup(detail)),
        Ok(api_key) => if !is_header_text("Bearer "@ + api_key) {
            Err(ProviderErrorView::RequestSetup("the OpenRouter API key is invalid"@))
        } else {
            match chat_url {
                Err(detail) => Err(
                    ProviderErrorView::RequestSetup(
                        "unable to build the OpenRouter generation URL: "@ + detail,
                    ),
                ),
                Ok(url) => Ok(
                    GenerationPlanView {
                        url,
                        headers: generation_headers(api_key),
                        body: encode_utf8(request_json(request.model_id, request.messages)),
                        api_key,
                    },
                ),
            }
        },
    }
}

/// Build the generation request from the key and from what joining its address gave.
pub fn assemble_generation(
    key: Result<String, String>,
    chat_url: Result<String, String>,
    request: &ModelRequest,
) -> (r: Result<GenerationPlan, ProviderError>)
    ensures
        match planned_generation(credential(key), url_result(chat_url), request@) {
            Ok(plan) => r is Ok && r->Ok_0@ == plan,
            Err(error) => r is Err && r->Err_0@ == error,
        },
{
    let api_key = match key {
        Ok(api_key) => api_key,
        Err(detail) => {
            return Err(ProviderError::RequestSetup(detail));
        },
    };
    let body = match conversation_request_body(request.model_id.as_str(), &request.messages) {
        Ok(body) => body,
        Err(detail) => {
            return Err(ProviderError::RequestSetup(detail));
        },
    };
    let authorization_header = match openrouter_authorization_header(api_key.as_str()) {
        Ok(header) => header,
        Err(error) => {
            return Err(error);
        },
    };
    let url = match chat_url {
        Ok(url) => url,
        Err(detail) => {
            return Err(
                ProviderError::RequestSetup(
                    concat2(
                        "unable to build the OpenRouter generation URL: ",
                        detail.as_str(),
                    ),
                ),
            );
        },
    };
    let mut headers: Vec<RequestHeader> = Vec::new();
    headers.push(authorization_header);
    headers.push(
        RequestHeader {
            name: "content-type",
            value: "application/json".to_owned(),
            sensitive: false,
        },
    );
    headers.push(
        RequestHeader { name: "x-openrouter-title", value: "nano".to_owned(), sensitive: false },
    );
    headers.push(
        RequestHeader {
            name: "x-openrouter-categories",
            value: "cli-agent".to_owned(),
            sensitive: false,
        },
    );
    assert(header_views(headers@) =~= generation_headers(api_key@));
    Ok(GenerationPlan { url, headers, body, api_key })
}

/// Whether the response to a generation request is a stream to be read.
pub fn is_success_status(status: u16) -> (r: bool)
    ensures
        r == is_success(status),
{
    200 <= status && status <= 299
}

/// The error of a generation request that was answered with an error status.
pub fn generation_status_error(
    status: u16,
    envelope: Option<ErrorEnvelope>,
    response_context: &ResponseContext,
    api_key: &str,
) -> (error: ProviderError)
    ensures
        error@ == ProviderErrorView::RequestSetup(
            http_error_text(
                status,
                envelope_message(envelope),
                response_context@,
                true,
                Some(api_key@),
            ),
        ),
{
    ProviderError::RequestSetup(
        format_http_error(status, envelope, response_context, true, Some(api_key)),
    )
}

// ---------------------------------------------------------------------------
// The model catalog
// ---------------------------------------------------------------------------

/// The walk over the pages of the model catalog.
#[derive(PartialEq, Eq)]
pub struct CatalogWalk {
    next_url: String,
    api_key: Option<String>,
    models: Vec<ModelMetadata>,
    finished: bool,
}

/// The mathematical form of a catalog walk.
#[verifier::ext_equal]
pub struct CatalogWalkView {
    pub next_url: Seq<char>,
    pub api_key: Option<Seq<char>>,
    pub models: Seq<ModelMetadataView>,
    pub finished: bool,
}

impl View for CatalogWalk {
    type V = CatalogWalkView;

    closed spec fn view(&self) -> CatalogWalkView {
        CatalogWalkView {
            next_url: self.next_url@,
            api_key: opt_text(self.api_key),
            models: metadata_views(self.models@),
            finished: self.finished,
        }
    }
}

/// The path of the catalog: the user's own where there is a key, else the public one.
pub open spec fn catalog_path(key: Result<Seq<char>, Seq<char>>) -> Seq<char> {
    match key {
        Ok(api_key) => "models/user"@,
        Err(detail) => "models"@,
    }
}

/// How a catalog walk begins.
pub open spec fn walk_start(
    key: Result<Seq<char>, Seq<char>>,
    catalog_url: Result<Seq<char>, Seq<char>>,
) -> Result<CatalogWalkView, ProviderErrorView> {
    match catalog_url {
        Err(detail) => Err(
            ProviderErrorView::RequestSetup(
                "unable to build the OpenRouter model catalog URL: "@ + detail,
            ),
        ),
        Ok(url) => Ok(
            CatalogWalkView {
                next_url: url,
                api_key: match key {
                    Ok(api_key) => Some(api_key),
                    Err(detail) => None,
                },
                models: Seq::empty(),
                finished: false,
            },
        ),
    }
}

/// The reply to the request for a catalog page. A success status comes with the decoded page, any
/// other with the decoded error envelope.
pub struct CatalogReply {
    pub status: u16,
    pub context: ResponseContext,
    pub page: Option<CatalogResponse>,
    pub envelope: Option<ErrorEnvelope>,
}

/// The models of a reply and the link to the next page, or the error, with the key that the request
/// carried redacted.
pub open spec fn reply_page(reply: CatalogReply, api_key: Option<Seq<char>>) -> Result<
    (Seq<ModelMetadataView>, Option<Seq<char>>),
    ProviderErrorView,
> {
    if !is_success(reply.status) {
        Err(
            ProviderErrorView::RequestSetup(
                http_error_text(
                    reply.status,
                    envelope_message(reply.envelope),
                    reply.context@,
                    false,
                    api_key,
                ),
            ),
        )
    } else {
        match catalog_page(decoded_page(reply.page)) {
            Err(detail) => Err(ProviderErrorView::RequestSetup(detail)),
            Ok(page) => Ok(page),
        }
    }
}

/// What a page does to a walk: its models follow those before, and its next link, joined to its own
/// address, is the next page.
pub open spec fn walk_step(walk: CatalogWalkView, reply: CatalogReply) -> Result<
    CatalogWalkView,
    ProviderErrorView,
> {
    match reply_page(reply, walk.api_key) {
        Err(error) => Err(error),
        Ok((models, next)) => match next {
            None => Ok(
                CatalogWalkView { models: walk.models + models, finished: true, ..walk },
            ),
            Some(link) => match next_url(walk.next_url, url_join(walk.next_url, link)) {
                Err(detail) => Err(ProviderErrorView::RequestSetup(detail)),
                Ok(url) => Ok(
                    CatalogWalkView { models: walk.models + models, next_url: url, ..walk },
                ),
            },
        },
    }
}

impl CatalogWalk {
    /// Begin a walk from the key and from what joining the catalog's address gave.
    pub fn begin(key: Result<String, String>, catalog_url: Result<String, String>) -> (r: Result<
        Self,
        ProviderError,
    >)
        ensures
            match walk_start(credential(key), url_result(catalog_url)) {
                Ok(walk) => r is Ok && r->Ok_0@ == walk,
                Err(error) => r is Err && r->Err_0@ == error,
            },
    {
        match catalog_url {
            Err(detail) => Err(
                ProviderError::RequestSetup(
                    concat2(
                        "unable to build the OpenRouter model catalog URL: ",
                        detail.as_str(),
                    ),
                ),
            ),
            Ok(next_url) => {
                let walk = CatalogWalk {
                    next_url,
                    api_key: match key {
                        Ok(api_key) => Some(api_key),
                        Err(_) => None,
                    },
                    models: Vec::new(),
                    finished: false,
                };
                assert(walk@.models =~= Seq::empty());
                Ok(walk)
            },
        }
    }

    /// The address of the page to fetch.
    pub fn next_url(&self) -> (url: &str)
        ensures
            url@ == self@.next_url,
    {
        self.next_url.as_str()
    }

    /// Whether the last page has been read.
    pub fn is_finished(&self) -> (finished: bool)
        ensures
            finished == self@.finished,
    {
        self.finished
    }

    /// The authorization header for the next page: the one for the key, if there is a key.
    pub fn authorization_header(&self) -> (r: Result<Option<RequestHeader>, ProviderError>)
        ensures
            match self@.api_key {
                None => r is Ok && r->Ok_0 is None,
                Some(api_key) => if is_header_text("Bearer "@ + api_key) {
                    r is Ok && r->Ok_0 is Some && (r->Ok_0->0)@ == authorization(api_key)
                } else {
                    r is Err && r->Err_0@ == ProviderErrorView::RequestSetup(
                        "the OpenRouter API key is invalid"@,
                    )
                },
            },
    {
        match &self.api_key {
            None => Ok(None),
            Some(api_key) => match openrouter_authorization_header(api_key.as_str()) {
                Ok(header) => Ok(Some(header)),
                Err(error) => Err(error),
            },
        }
    }

    /// Take in the reply for the page at [`CatalogWalk::next_url`]; after an error the walk is as
    /// it was. No error holds the key, if the key stands out from the fixed wording of errors.
    pub fn take_reply(&mut self, reply: CatalogReply) -> (r: Result<(), ProviderError>)
        ensures
            match walk_step(old(self)@, reply) {
                Ok(walk) => r is Ok && final(self)@ == walk,
                Err(error) => r is Err && r->Err_0@ == error && final(self)@ == old(self)@,
            },
            r is Err && old(self)@.api_key is Some && stands_out_in_catalog(old(self)@.api_key->0)
                ==> !occurs(provider_error_text(r->Err_0@), old(self)@.api_key->0),
    {
        if !is_success_status(reply.status) {
            let api_key = match &self.api_key {
                Some(api_key) => Some(api_key.as_str()),
                None => None,
            };
            let message = format_http_error(
                reply.status,
                reply.envelope,
                &reply.context,
                false,
                api_key,
            );
            proof {
                if self@.api_key is Some && stands_out_in_catalog(self@.api_key->0) {
                    lemma_page_errors_hide_key(reply, self@.api_key->0);
                }
            }
            return Err(ProviderError::RequestSetup(message));
        }
        let (page_models, next_link) = match parse_catalog_page(reply.page) {
            Ok(page) => page,
            Err(detail) => {
                proof {
                    if self@.api_key is Some && stands_out_in_catalog(self@.api_key->0) {
                        lemma_page_errors_hide_key(reply, self@.api_key->0);
                    }
                }
                return Err(ProviderError::RequestSetup(detail));
            },
        };
        let ghost added = metadata_views(page_models@);
        let ghost before = metadata_views(self.models@);
        let mut more = page_models;
        match next_link {
            None => {
                self.models.append(&mut more);
                self.finished = true;
            },
            Some(next_link) => match resolve_catalog_next_url(
                self.next_url.as_str(),
                next_link.as_str(),
            ) {
                Ok(url) => {
                    self.models.append(&mut more);
                    self.next_url = url;
                },
                Err(detail) => {
                    return Err(ProviderError::RequestSetup(detail));
                },
            },
        }
        assert(metadata_views(self.models@) =~= before + added);
        Ok(())
    }

    /// The models of all pages read, in order.
    pub fn into_models(self) -> (models: Vec<ModelMetadata>)
        ensures
            metadata_views(models@) == self@.models,
    {
        self.models
    }
}

/// The key stands out from the fixed wording of catalog errors too.
pub open spec fn stands_out_in_catalog(api_key: Seq<char>) -> bool {
    &&& stands_out(api_key)
    &&& forall|detail: Seq<char>| #[trigger]
        is_catalog_fault(detail) ==> !occurs(
            provider_error_text(ProviderErrorView::RequestSetup(detail)),
            api_key,
        )
}

proof fn lemma_page_errors_hide_key(reply: CatalogReply, api_key: Seq<char>)
    requires
        stands_out_in_catalog(api_key),
        reply_page(reply, Some(api_key)) is Err,
    ensures
        !occurs(provider_error_text(reply_page(reply, Some(api_key))->Err_0), api_key),
{
    if !is_success(reply.status) {
        lemma_errors_hide_key(
            reply.status,
            envelope_message(reply.envelope),
            Seq::empty(),
            reply.context@,
            false,
            api_key,
        );
    } else {
        lemma_page_faults_are_fixed(decoded_page(reply.page));
        assert(is_catalog_fault(catalog_page(decoded_page(reply.page))->Err_0));
    }
}

/// No error of a catalog walk holds the key that the walk carries, for every key that stands out from
/// the fixed wording of errors. A link that cannot be joined is reported with a text of the URL
/// parser.
pub proof fn lemma_catalog_errors_hide_key(
    walk: CatalogWalkView,
    reply: CatalogReply,
    api_key: Seq<char>,
)
    requires
        walk.api_key == Some(api_key),
        stands_out_in_catalog(api_key),
        walk_step(walk, reply) is Err,
        forall|link: Seq<char>| (#[trigger] url_join(walk.next_url, link)) is Err ==> is_url_fault(
            url_join(walk.next_url, link)->Err_0,
        ),
    ensures
        !occurs(provider_error_text(walk_step(walk, reply)->Err_0), api_key),
{
    match reply_page(reply, walk.api_key) {
        Err(_) => {
            lemma_page_errors_hide_key(reply, api_key);
        },
        Ok((_, next)) => {
            let joined = url_join(walk.next_url, next->0);
            let detail = next_url(walk.next_url, joined)->Err_0;
            assert(is_catalog_fault(detail));
        },
    }
}

/// A walk stays at the origin where it began, so the key it carries is never sent elsewhere, and it
/// keeps that key.
pub proof fn lemma_catalog_walk_stays_at_origin(walk: CatalogWalkView, reply: CatalogReply)
    requires
        walk_step(walk, reply) is Ok,
    ensures
        same_origin(walk.next_url, (walk_step(walk, reply)->Ok_0).next_url),
        (walk_step(walk, reply)->Ok_0).api_key == walk.api_key,
{
}

/// A walk only adds models, in the order of the pages.
pub proof fn lemma_catalog_walk_keeps_models(walk: CatalogWalkView, reply: CatalogReply)
    requires
        walk_step(walk, reply) is Ok,
    ensures
        walk.models.is_prefix_of((walk_step(walk, reply)->Ok_0).models),
{
}

// ---------------------------------------------------------------------------
// The provider
// ---------------------------------------------------------------------------

/// The requests of the thin OpenRouter HTTP provider adapter.
#[derive(Debug, PartialEq, Eq)]
pub struct OpenRouterProvider {
    base_url: String,
}

impl View for OpenRouterProvider {
    type V = Seq<char>;

    /// The base URL of the API.
    closed spec fn view(&self) -> Seq<char> {
        self.base_url@
    }
}

/// What is known of the default model without asking.
pub open spec fn default_metadata() -> ModelMetadataView {
    ModelMetadataView {
        model_id: "deepseek/deepseek-v4-flash-0731"@,
        display_name: "DeepSeek: DeepSeek V4 Flash 0731"@,
        limits: ModelLimits {
            context_window_tokens: 1_048_576,
            maximum_output_tokens: Some(393_216),
        },
        prompt_price_usd_per_million_tokens: None,
        completion_price_usd_per_million_tokens: None,
    }
}

impl OpenRouterProvider {
    /// The provider at the official OpenRouter endpoints.
    pub fn new() -> (provider: Self)
        ensures
            provider@ == "https://openrouter.ai/api/v1/"@,
    {
        OpenRouterProvider { base_url: "https://openrouter.ai/api/v1/".to_owned() }
    }

    /// The provider at another base URL.
    pub fn at_base_url(base_url: String) -> (provider: Self)
        ensures
            provider@ == base_url@,
    {
        OpenRouterProvider { base_url }
    }

    pub fn default_model_metadata() -> (metadata: ModelMetadata)
        ensures
            metadata@ == default_metadata(),
    {
        ModelMetadata {
            model_id: "deepseek/deepseek-v4-flash-0731".to_owned(),
            display_name: "DeepSeek: DeepSeek V4 Flash 0731".to_owned(),
            limits: ModelLimits {
                context_window_tokens: 1_048_576,
                maximum_output_tokens: Some(393_216),
            },
            prompt_price_usd_per_million_tokens: None,
            completion_price_usd_per_million_tokens: None,
        }
    }

    /// The bundled metadata of a model; only the default model has any.
    pub fn model_metadata(&self, model_id: &str) -> (r: Result<ModelMetadata, ProviderError>)
        ensures
            if model_id@ == "deepseek/deepseek-v4-flash-0731"@ {
                r is Ok && r->Ok_0@ == default_metadata()
            } else {
                r is Err && r->Err_0@ == (ProviderErrorView::UnknownModel { model_id: model_id@ })
            },
    {
        if same_text(model_id, OPENROUTER_DEFAULT_MODEL_ID) {
            return Ok(OpenRouterProvider::default_model_metadata());
        }
        Err(ProviderError::UnknownModel { model_id: model_id.to_owned() })
    }

    /// The generation request for these messages.
    pub fn plan_generation(&self, key: Result<String, String>, request: &ModelRequest) -> (r: Result<
        GenerationPlan,
        ProviderError,
    >)
        ensures
            match planned_generation(
                credential(key),
                url_join(self@, "chat/completions"@),
                request@,
            ) {
                Ok(plan) => r is Ok && r->Ok_0@ == plan,
                Err(error) => r is Err && r->Err_0@ == error,
            },
    {
        assemble_generation(
            key,
            join_url(self.base_url.as_str(), "chat/completions"),
            request,
        )
    }

    /// The walk over the model catalog: with a key over the user's own, else over the public one.
    pub fn plan_catalog(&self, key: Result<String, String>) -> (r: Result<
        CatalogWalk,
        ProviderError,
    >)
        ensures
            match walk_start(credential(key), url_join(self@, catalog_path(credential(key)))) {
                Ok(walk) => r is Ok && r->Ok_0@ == walk,
                Err(error) => r is Err && r->Err_0@ == error,
            },
    {
        let path = match &key {
            Ok(_) => "models/user",
            Err(_) => "models",
        };
        let catalog_url = join_url(self.base_url.as_str(), path);
        CatalogWalk::begin(key, catalog_url)
    }
}

} // verus!
