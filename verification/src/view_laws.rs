//! The mathematical forms keep every text, number and order of the values that they stand for.

use vstd::prelude::*;

use crate::provider::openrouter::auth::{environment_key, key_result, opt_path, EnvironmentValue};
use crate::provider::openrouter::stream::StreamInput;
use crate::provider::openrouter::wire::{
    catalog_models, choice_views, decoded_chunk, decoded_page, metadata_views, CatalogModel,
    CatalogResponse, ChatChoice, ChatChunk, ParsedSseEvent,
};
use crate::provider::openrouter::{
    credential, header_views, url_result, GenerationPlan, RequestHeader, ResponseContext,
};
use crate::provider::{
    message_views, stream_item, stream_items, tool_call_ids, tool_call_views, ModelEvent,
    ModelMessage, ModelMetadata, ModelRequest, ProviderError, ToolCall, ToolCallView,
};
use crate::runtime::{event_views, HarnessEvent, RuntimeCommand, TurnInput};
use crate::session::{
    exchange_views, record_views, run_views, ConversationRecord, ProviderExchange, Run,
    RunTerminalState,
};
use crate::text::{opt_str, opt_text, texts};
use crate::tui::app::{display_views, AppAction, Message, RuntimeStatus};
use crate::tui::conversation::ConversationScene;
use crate::tui::input::InputScene;
use crate::tui::model_picker::{referenced_models, CatalogState, ModelPickerAction};
use crate::tui::picker_scene::{PickerBody, PickerContent, PickerScene};
use crate::tui::status_line::StatusScene;
use crate::tui::Scene;

verus! {

/// Optional texts and results keep the characters.
pub proof fn lemma_optional_texts(
    text: Option<String>,
    slice: Option<&str>,
    path: Option<&[u8]>,
    result: Result<String, String>,
    environment: EnvironmentValue,
)
    ensures
        text is Some <==> opt_text(text) is Some,
        text is Some ==> opt_text(text)->0 == text->0@,
        slice is Some <==> opt_str(slice) is Some,
        slice is Some ==> opt_str(slice)->0 == slice->0@,
        path is Some <==> opt_path(path) is Some,
        path is Some ==> opt_path(path)->0 == path->0@,
        result is Ok ==> credential(result) == Ok::<Seq<char>, Seq<char>>(result->Ok_0@),
        result is Err ==> credential(result) == Err::<Seq<char>, Seq<char>>(result->Err_0@),
        url_result(result) == credential(result),
        key_result(result) == credential(result),
        environment is Text <==> environment_key(environment) is Some,
        environment matches EnvironmentValue::Text(key) ==> environment_key(environment) == Some(
            key@,
        ),
{
}

/// Lists keep their elements, in order.
pub proof fn lemma_lists(
    strings: Seq<String>,
    messages: Seq<ModelMessage>,
    tool_calls: Seq<ToolCall>,
    calls: Seq<ToolCallView>,
    items: Seq<Result<ModelEvent, ProviderError>>,
    catalog: Seq<CatalogModel>,
    metadata: Seq<ModelMetadata>,
    references: Seq<&ModelMetadata>,
    choices: Seq<ChatChoice>,
    headers: Seq<RequestHeader>,
    events: Seq<HarnessEvent>,
    shown: Seq<Message>,
    records: Seq<ConversationRecord>,
    runs: Seq<Run>,
    exchanges: Seq<ProviderExchange>,
    i: int,
)
    ensures
        texts(strings).len() == strings.len(),
        0 <= i < strings.len() ==> texts(strings)[i] == strings[i]@,
        message_views(messages).len() == messages.len(),
        0 <= i < messages.len() ==> message_views(messages)[i] == messages[i]@,
        tool_call_views(tool_calls).len() == tool_calls.len(),
        0 <= i < tool_calls.len() ==> tool_call_views(tool_calls)[i] == tool_calls[i]@,
        tool_call_ids(calls).len() == calls.len(),
        0 <= i < calls.len() ==> tool_call_ids(calls)[i] == calls[i].tool_call_id,
        stream_items(items).len() == items.len(),
        0 <= i < items.len() ==> stream_items(items)[i] == stream_item(items[i]),
        0 <= i < items.len() && items[i] is Ok ==> stream_items(items)[i] is Ok
            && stream_items(items)[i]->Ok_0 == items[i]->Ok_0@,
        0 <= i < items.len() && items[i] is Err ==> stream_items(items)[i] is Err
            && stream_items(items)[i]->Err_0 == items[i]->Err_0@,
        catalog_models(catalog).len() == catalog.len(),
        0 <= i < catalog.len() ==> catalog_models(catalog)[i] == catalog[i]@,
        metadata_views(metadata).len() == metadata.len(),
        0 <= i < metadata.len() ==> metadata_views(metadata)[i] == metadata[i]@,
        referenced_models(references).len() == references.len(),
        0 <= i < references.len() ==> referenced_models(references)[i] == references[i]@,
        choice_views(choices).len() == choices.len(),
        0 <= i < choices.len() ==> choice_views(choices)[i] == choices[i]@,
        header_views(headers).len() == headers.len(),
        0 <= i < headers.len() ==> header_views(headers)[i] == headers[i]@,
        event_views(events).len() == events.len(),
        0 <= i < events.len() ==> event_views(events)[i] == events[i]@,
        display_views(shown).len() == shown.len(),
        0 <= i < shown.len() ==> display_views(shown)[i] == shown[i]@,
        record_views(records).len() == records.len(),
        0 <= i < records.len() ==> record_views(records)[i] == records[i]@,
        run_views(runs).len() == runs.len(),
        0 <= i < runs.len() ==> run_views(runs)[i] == runs[i]@,
        exchange_views(exchanges).len() == exchanges.len(),
        0 <= i < exchanges.len() ==> exchange_views(exchanges)[i] == exchanges[i]@,
{
}

/// Messages, tool calls and requests keep their texts, identities and order.
pub proof fn lemma_model_messages(
    message: ModelMessage,
    tool_call: ToolCall,
    request: ModelRequest,
)
    ensures
        message matches ModelMessage::User { content } ==> message@ is User
            && message@->User_content == content@,
        message matches ModelMessage::Assistant { content, tool_calls } ==> message@ is Assistant
            && message@->Assistant_content == content@ && message@->tool_calls == tool_call_views(
            tool_calls@,
        ),
        message matches ModelMessage::ToolResult { tool_call_id, content }
            ==> message@ is ToolResult && message@->tool_call_id == tool_call_id@
            && message@->ToolResult_content == content@,
        tool_call@.tool_call_id == tool_call.tool_call_id@,
        tool_call@.tool_name == tool_call.tool_name@,
        tool_call@.arguments == tool_call.arguments,
        request@.model_id == request.model_id@,
        request@.messages == message_views(request.messages@),
{
}

/// Metadata, events and errors of a provider keep their texts and numbers.
pub proof fn lemma_provider_values(
    metadata: ModelMetadata,
    event: ModelEvent,
    error: ProviderError,
)
    ensures
        metadata@.model_id == metadata.model_id@,
        metadata@.display_name == metadata.display_name@,
        metadata@.limits == metadata.limits,
        metadata@.prompt_price_usd_per_million_tokens == opt_text(
            metadata.prompt_price_usd_per_million_tokens,
        ),
        metadata@.completion_price_usd_per_million_tokens == opt_text(
            metadata.completion_price_usd_per_million_tokens,
        ),
        event matches ModelEvent::TextDelta(text) ==> event@ is TextDelta && event@->TextDelta_0
            == text@,
        event matches ModelEvent::ReasoningDelta(text) ==> event@ is ReasoningDelta
            && event@->ReasoningDelta_0 == text@,
        event matches ModelEvent::ToolCall(tool_call) ==> event@ is ToolCall && event@->ToolCall_0
            == tool_call@,
        event matches ModelEvent::Usage(usage) ==> event@ is Usage && event@->Usage_0 == usage,
        event matches ModelEvent::Finished(outcome) ==> event@ is Finished && event@->Finished_0
            == outcome,
        error matches ProviderError::UnknownModel { model_id } ==> error@ is UnknownModel
            && error@->model_id == model_id@,
        error matches ProviderError::RequestSetup(detail) ==> error@ is RequestSetup
            && error@->RequestSetup_0 == detail@,
        error matches ProviderError::Streaming(detail) ==> error@ is Streaming
            && error@->Streaming_0 == detail@,
{
}

/// Catalog pages keep every field of every model, and their link.
pub proof fn lemma_catalog_values(
    model: CatalogModel,
    page: CatalogResponse,
    decoded: Option<CatalogResponse>,
)
    ensures
        model@.id == model.id@,
        model@.name == model.name@,
        model@.context_length == model.context_length,
        model@.max_completion_tokens == model.top_provider.max_completion_tokens,
        model.pricing is None ==> model@.prompt_price is None && model@.completion_price is None,
        model.pricing is Some ==> model@.prompt_price == opt_text(model.pricing->0.prompt),
        model.pricing is Some ==> model@.completion_price == opt_text(model.pricing->0.completion),
        page@.data == catalog_models(page.data@),
        page.links is None ==> page@.next is None,
        page.links is Some ==> page@.next == opt_text(page.links->0.next),
        decoded is Some <==> decoded_page(decoded) is Some,
        decoded is Some ==> decoded_page(decoded)->0 == decoded->0@,
{
}

/// Stream chunks keep their texts, reasons and counts, and whether tools are called.
pub proof fn lemma_chunk_values(
    choice: ChatChoice,
    chunk: ChatChunk,
    decoded: Option<ChatChunk>,
    input: StreamInput,
    parsed: ParsedSseEvent,
)
    ensures
        choice@.content == opt_text(choice.delta.content),
        choice@.finish_reason == opt_text(choice.finish_reason),
        choice@.calls_tools <==> choice.delta.tool_calls is Some
            && choice.delta.tool_calls->0@.len() > 0,
        chunk.choices is Some <==> chunk@.choices is Some,
        chunk.choices is Some ==> chunk@.choices->0 == choice_views(chunk.choices->0@),
        chunk@.usage == chunk.usage,
        chunk.error is Some <==> chunk@.error is Some,
        chunk.error is Some ==> chunk@.error->0 == chunk.error->0.message@,
        decoded is Some <==> decoded_chunk(decoded) is Some,
        decoded is Some ==> decoded_chunk(decoded)->0 == decoded->0@,
        input is Ended ==> input@ is Ended,
        input is TransportError ==> input@ is TransportError,
        input matches StreamInput::Event { data, chunk } ==> input@ is Event && input@->data
            == data@ && input@->chunk == decoded_chunk(chunk),
        parsed is Done ==> parsed@ is Done,
        parsed matches ParsedSseEvent::Error(message) ==> parsed@ is Error && parsed@->Error_0
            == message@,
        parsed matches ParsedSseEvent::Chunk(chunk) ==> parsed@ is Chunk
            && parsed@->Chunk_0.text_deltas == texts(chunk.text_deltas@)
            && parsed@->Chunk_0.usage == chunk.usage && parsed@->Chunk_0.finish_reason
            == chunk.finish_reason,
{
}

/// Requests and response contexts keep their addresses, headers, bodies and keys.
pub proof fn lemma_request_values(
    header: RequestHeader,
    plan: GenerationPlan,
    context: ResponseContext,
)
    ensures
        header@.name == header.name@,
        header@.value == header.value@,
        header@.sensitive == header.sensitive,
        plan@.url == plan.url@,
        plan@.headers == header_views(plan.headers@),
        plan@.body == plan.body@,
        plan@.api_key == plan.api_key@,
        context@.retry_after == opt_text(context.retry_after),
        context@.generation_id == opt_text(context.generation_id),
{
}

/// Commands and events of the runtime keep what they carry.
pub proof fn lemma_runtime_values(command: RuntimeCommand, event: HarnessEvent, input: TurnInput)
    ensures
        command matches RuntimeCommand::Submit(text) ==> command@ is Submit && command@->Submit_0
            == text@,
        command is DiscoverModels ==> command@ is DiscoverModels,
        command matches RuntimeCommand::SelectModel(model_id) ==> command@ is SelectModel
            && command@->SelectModel_0 == model_id@,
        event is ResponseStarted ==> event@ is ResponseStarted,
        event is ResponseFinished ==> event@ is ResponseFinished,
        event is ResponseTruncated ==> event@ is ResponseTruncated,
        event matches HarnessEvent::AssistantDelta(text) ==> event@ is AssistantDelta
            && event@->AssistantDelta_0 == text@,
        event matches HarnessEvent::Usage(usage) ==> event@ is Usage && event@->Usage_0 == usage,
        event matches HarnessEvent::Error(error) ==> event@ is Error && event@->Error_0 == error@,
        event matches HarnessEvent::CatalogLoaded(models) ==> event@ is CatalogLoaded
            && event@->CatalogLoaded_0 == metadata_views(models@),
        event matches HarnessEvent::CatalogFailed(error) ==> event@ is CatalogFailed
            && event@->CatalogFailed_0 == error@,
        event matches HarnessEvent::ModelSelected(metadata) ==> event@ is ModelSelected
            && event@->ModelSelected_0 == metadata@,
        event matches HarnessEvent::ModelSelectionFailed(error) ==> event@ is ModelSelectionFailed
            && event@->ModelSelectionFailed_0 == error@,
        input matches TurnInput::SetupFailed(error) ==> input@ is SetupFailed
            && input@->SetupFailed_0 == error@,
        input is Ended ==> input@ is Ended,
        input matches TurnInput::Item(item) ==> input@ is Item && input@->Item_0 == stream_item(
            item,
        ),
{
}

/// Actions, states and the catalog of the interface keep what they carry.
pub proof fn lemma_interface_values(
    action: AppAction,
    status: RuntimeStatus,
    catalog: CatalogState,
    wanted: ModelPickerAction,
    state: RunTerminalState,
)
    ensures
        action is Continue ==> action@ is Continue,
        action is OpenModelPicker ==> action@ is OpenModelPicker,
        action is Exit ==> action@ is Exit,
        action matches AppAction::Submit(text) ==> action@ is Submit && action@->Submit_0 == text@,
        action matches AppAction::SelectModel(model_id) ==> action@ is SelectModel
            && action@->SelectModel_0 == model_id@,
        status is Idle ==> status@ is Idle,
        status is Responding ==> status@ is Responding,
        status is Truncated ==> status@ is Truncated,
        status matches RuntimeStatus::Error(error) ==> status@ is Error && status@->Error_0
            == error@,
        catalog is Loading ==> catalog@ is Loading,
        catalog matches CatalogState::Loaded(models) ==> catalog@ is Loaded && catalog@->Loaded_0
            == metadata_views(models@),
        catalog matches CatalogState::Failed(error) ==> catalog@ is Failed && catalog@->Failed_0
            == error@,
        wanted is Continue ==> wanted@ is Continue,
        wanted matches ModelPickerAction::SelectModel(model_id) ==> wanted@ is SelectModel
            && wanted@->SelectModel_0 == model_id@,
        state is Running ==> state@ is Running,
        state matches RunTerminalState::Completed(outcome) ==> state@ is Completed
            && state@->Completed_0 == outcome,
        state matches RunTerminalState::Failed(failure) ==> state@ is Failed && state@->Failed_0
            == failure@,
{
}

/// What is to be drawn keeps its areas, texts and cursors.
pub proof fn lemma_scene_values(
    conversation: ConversationScene,
    status: StatusScene,
    input: InputScene,
    content: PickerContent,
    body: PickerBody,
    picker: PickerScene,
    scene: Scene,
)
    ensures
        conversation@.area == conversation.area,
        conversation@.lines == texts(conversation.lines@),
        conversation@.scroll == conversation.scroll,
        status@.area == status.area,
        status@.text == status.text@,
        input@.area == input.area,
        input@.text == input.text@,
        input@.cursor_x == input.cursor_x,
        input@.cursor_y == input.cursor_y,
        content@.area == content.area,
        content@.error == opt_text(content.error),
        content@.lines == texts(content.lines@),
        content@.scroll == content.scroll,
        body@.search_area == body.search_area,
        body@.search_text == body.search_text@,
        body@.cursor_x == body.cursor_x,
        body@.cursor_y == body.cursor_y,
        body.content is Some <==> body@.content is Some,
        body.content is Some ==> body@.content->0 == body.content->0@,
        body.footer is Some <==> body@.footer is Some,
        body.footer is Some ==> body@.footer->0 == ((body.footer->0).0, (body.footer->0).1@),
        picker@.modal == picker.modal,
        picker.body is Some <==> picker@.body is Some,
        picker.body is Some ==> picker@.body->0 == picker.body->0@,
        scene.conversation is Some <==> scene@.conversation is Some,
        scene.conversation is Some ==> scene@.conversation->0 == scene.conversation->0@,
        scene.status is Some <==> scene@.status is Some,
        scene.status is Some ==> scene@.status->0 == scene.status->0@,
        scene.input is Some <==> scene@.input is Some,
        scene.input is Some ==> scene@.input->0 == scene.input->0@,
        scene.picker is Some <==> scene@.picker is Some,
        scene.picker is Some ==> scene@.picker->0 == scene.picker->0@,
{
}

} // verus!
