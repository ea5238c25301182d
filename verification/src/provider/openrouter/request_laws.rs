//! What goes into requests and what is said of their failures.

use vstd::prelude::*;
use vstd::utf8::encode_utf8;

use crate::provider::openrouter::auth::{
    auth_path, key_of_file, key_of_reply, key_resolution, AuthFile, FileCredentialPlatform,
    ReadFailure,
};
use crate::provider::openrouter::body::{
    json_of_value, json_string, message_json, messages_json, request_json, tool_call_json,
    tool_calls_json,
};
use crate::provider::openrouter::secret::{redacted, redacted_if_known};
use crate::provider::openrouter::stream_laws::lemma_context_follows_message;
use crate::provider::openrouter::wire::{envelope_message, ErrorEnvelope};
use crate::provider::openrouter::{
    catalog_path, http_error_text, is_header_text, planned_generation, RequestHeaderView,
    ResponseContextView,
};
use crate::provider::{ModelMessageView, ModelRequestView, ProviderErrorView, ToolCallView};
use crate::text::{ascii_lower, decimal, occurs};
use crate::text_laws::{
    lemma_first_occurrence_is_replaced, lemma_occurrence_is_at_a_position, stands_in,
};

verus! {

/// The texts, each with a comma behind it, one after the other.
pub open spec fn comma_ended(texts: Seq<Seq<char>>) -> Seq<char> {
    texts.map_values(|text: Seq<char>| text + ","@).flatten()
}

proof fn lemma_one_more_text(texts: Seq<Seq<char>>)
    requires
        texts.len() > 0,
    ensures
        comma_ended(texts) == comma_ended(texts.drop_last()) + texts.last() + ","@,
{
    let ended = |text: Seq<char>| text + ","@;
    let before = texts.drop_last().map_values(ended);
    assert(texts.map_values(ended) =~= before.push(texts.last() + ","@));
    before.lemma_flatten_push(texts.last() + ","@);
    assert(comma_ended(texts) =~= comma_ended(texts.drop_last()) + texts.last() + ","@);
}

/// A request carries every message, in order, with commas between them: with one more comma they are
/// the messages with a comma behind each.
pub proof fn lemma_request_carries_every_message(
    model_id: Seq<char>,
    messages: Seq<ModelMessageView>,
)
    requires
        messages.len() > 0,
    ensures
        exists|list: Seq<char>|
            {
                &&& request_json(model_id, messages) == "{\"model\":"@ + json_string(model_id)
                    + ",\"messages\":["@ + list + "],\"stream\":true}"@
                &&& #[trigger] (list + ","@) == comma_ended(
                    messages.map_values(|message: ModelMessageView| message_json(message)),
                )
            },
{
    lemma_messages_are_joined(messages);
    let list = messages_json(messages);
    assert(list + ","@ == comma_ended(
        messages.map_values(|message: ModelMessageView| message_json(message)),
    ));
}

proof fn lemma_messages_are_joined(messages: Seq<ModelMessageView>)
    requires
        messages.len() > 0,
    ensures
        messages_json(messages) + ","@ == comma_ended(
            messages.map_values(|message: ModelMessageView| message_json(message)),
        ),
    decreases messages.len(),
{
    let written = |message: ModelMessageView| message_json(message);
    let texts = messages.map_values(written);
    let before = messages.drop_last();
    lemma_one_more_text(texts);
    assert(texts.drop_last() =~= before.map_values(written));
    if messages.len() == 1 {
        assert(before.map_values(written).map_values(|text: Seq<char>| text + ","@)
            =~= Seq::empty());
        assert(comma_ended(before.map_values(written)) =~= Seq::<char>::empty());
        assert(messages.last() == messages[0]);
        assert(messages_json(messages) + ","@ =~= comma_ended(texts));
    } else {
        lemma_messages_are_joined(before);
        assert(messages_json(messages) + ","@ =~= messages_json(before) + ","@ + message_json(
            messages.last(),
        ) + ","@);
    }
}

/// A message is written with its role and with its texts, as they are, as JSON strings; an assistant
/// message names its tool calls, if it has any.
pub proof fn lemma_message_is_written_whole(
    content: Seq<char>,
    tool_calls: Seq<ToolCallView>,
    tool_call_id: Seq<char>,
)
    ensures
        message_json(ModelMessageView::User { content }) == "{\"role\":\"user\",\"content\":"@
            + json_string(content) + "}"@,
        message_json(ModelMessageView::ToolResult { tool_call_id, content })
            == "{\"role\":\"tool\",\"tool_call_id\":"@ + json_string(tool_call_id)
            + ",\"content\":"@ + json_string(content) + "}"@,
        tool_calls.len() == 0 ==> message_json(ModelMessageView::Assistant { content, tool_calls })
            == "{\"role\":\"assistant\",\"content\":"@ + json_string(content) + "}"@,
        tool_calls.len() > 0 ==> exists|list: Seq<char>|
            {
                &&& message_json(ModelMessageView::Assistant { content, tool_calls })
                    == "{\"role\":\"assistant\",\"content\":"@ + json_string(content)
                    + ",\"tool_calls\":["@ + list + "]}"@
                &&& #[trigger] (list + ","@) == comma_ended(
                    tool_calls.map_values(|tool_call: ToolCallView| tool_call_json(tool_call)),
                )
            },
{
    if tool_calls.len() > 0 {
        lemma_tool_calls_are_joined(tool_calls);
        let list = tool_calls_json(tool_calls);
        assert(list + ","@ == comma_ended(
            tool_calls.map_values(|tool_call: ToolCallView| tool_call_json(tool_call)),
        ));
    }
}

proof fn lemma_tool_calls_are_joined(tool_calls: Seq<ToolCallView>)
    requires
        tool_calls.len() > 0,
    ensures
        tool_calls_json(tool_calls) + ","@ == comma_ended(
            tool_calls.map_values(|tool_call: ToolCallView| tool_call_json(tool_call)),
        ),
    decreases tool_calls.len(),
{
    let written = |tool_call: ToolCallView| tool_call_json(tool_call);
    let texts = tool_calls.map_values(written);
    let before = tool_calls.drop_last();
    lemma_one_more_text(texts);
    assert(texts.drop_last() =~= before.map_values(written));
    if tool_calls.len() == 1 {
        assert(before.map_values(written).map_values(|text: Seq<char>| text + ","@)
            =~= Seq::empty());
        assert(comma_ended(before.map_values(written)) =~= Seq::<char>::empty());
        assert(tool_calls.last() == tool_calls[0]);
        assert(tool_calls_json(tool_calls) + ","@ =~= comma_ended(texts));
    } else {
        lemma_tool_calls_are_joined(before);
        assert(tool_calls_json(tool_calls) + ","@ =~= tool_calls_json(before) + ","@
            + tool_call_json(tool_calls.last()) + ","@);
    }
}

/// A tool call is written with its identity, its name and the JSON text of its arguments.
pub proof fn lemma_tool_call_is_written_whole(tool_call: ToolCallView)
    ensures
        tool_call_json(tool_call) == "{\"id\":"@ + json_string(tool_call.tool_call_id)
            + ",\"type\":\"function\",\"function\":{\"name\":"@ + json_string(tool_call.tool_name)
            + ",\"arguments\":"@ + json_string(json_of_value(tool_call.arguments)) + "}}"@,
{
}

/// A generation request goes to the address that it is given, carries the key in its first header and
/// nowhere else among them, and holds the request of the model and its messages. It fails without a
/// key, with a key that no header can carry, and without an address, in this order.
pub proof fn lemma_generation_is_planned_whole(
    key: Result<Seq<char>, Seq<char>>,
    chat_url: Result<Seq<char>, Seq<char>>,
    request: ModelRequestView,
)
    ensures
        planned_generation(key, chat_url, request) is Ok <==> key is Ok && is_header_text(
            "Bearer "@ + key->Ok_0,
        ) && chat_url is Ok,
        planned_generation(key, chat_url, request) matches Ok(plan) ==> {
            &&& plan.url == chat_url->Ok_0
            &&& plan.api_key == key->Ok_0
            &&& plan.body == encode_utf8(request_json(request.model_id, request.messages))
            &&& plan.headers.len() == 4
            &&& plan.headers[0] == RequestHeaderView {
                name: "Authorization"@,
                value: "Bearer "@ + key->Ok_0,
                sensitive: true,
            }
            &&& plan.headers[1] == RequestHeaderView {
                name: "content-type"@,
                value: "application/json"@,
                sensitive: false,
            }
            &&& plan.headers[2].name == "x-openrouter-title"@ && plan.headers[2].value == "nano"@
            &&& plan.headers[3].name == "x-openrouter-categories"@ && plan.headers[3].value
                == "cli-agent"@
        },
        key is Err ==> planned_generation(key, chat_url, request)->Err_0
            == ProviderErrorView::RequestSetup(key->Err_0),
        key is Ok && !is_header_text("Bearer "@ + key->Ok_0) ==> planned_generation(
            key,
            chat_url,
            request,
        )->Err_0 == ProviderErrorView::RequestSetup("the OpenRouter API key is invalid"@),
        key is Ok && is_header_text("Bearer "@ + key->Ok_0) && chat_url is Err
            ==> planned_generation(key, chat_url, request)->Err_0
            == ProviderErrorView::RequestSetup(
            "unable to build the OpenRouter generation URL: "@ + chat_url->Err_0,
        ),
        key is Ok ==> catalog_path(key) == "models/user"@,
        key is Err ==> catalog_path(key) == "models"@,
{
}

/// Redaction puts the marker in the place of the first occurrence of the key, keeps what stands before
/// it, and goes on behind it.
pub proof fn lemma_key_is_replaced_by_the_marker(
    before: Seq<char>,
    api_key: Seq<char>,
    after: Seq<char>,
)
    requires
        api_key.len() > 0,
        forall|at: int|
            0 <= at < before.len() ==> !api_key.is_prefix_of(
                #[trigger] (before + api_key + after).skip(at),
            ),
    ensures
        redacted(before + api_key + after, api_key) == before + "[redacted]"@ + redacted(
            after,
            api_key,
        ),
{
    lemma_first_occurrence_is_replaced(before, api_key, after, "[redacted]"@);
}

/// Without a key nothing is redacted.
pub proof fn lemma_nothing_is_redacted_without_key(message: Seq<char>)
    ensures
        redacted(message, Seq::empty()) == message,
        redacted_if_known(message, None) == message,
{
}

/// What an HTTP error says, where nothing of it holds the key: the words of the server, or else the
/// status, then what the headers tell, and for a model request the hint to choose another model where
/// the status is 404, or 400 with talk of a model, or 503 with no provider left.
pub proof fn lemma_http_error_says_why(
    status: u16,
    api_message: Option<Seq<char>>,
    context: ResponseContextView,
    model_request: bool,
    api_key: Seq<char>,
)
    requires
        ({
            let reason = if api_message is Some {
                api_message->0
            } else {
                "HTTP status "@ + decimal(status as nat)
            };
            !occurs(reason, api_key)
        }),
        context.retry_after is Some ==> !occurs(context.retry_after->0, api_key),
        context.generation_id is Some ==> !occurs(context.generation_id->0, api_key),
    ensures
        ({
            let reason = if api_message is Some {
                api_message->0
            } else {
                "HTTP status "@ + decimal(status as nat)
            };
            let retry = if context.retry_after is Some {
                "; retry after "@ + context.retry_after->0
            } else {
                Seq::empty()
            };
            let generation = if context.generation_id is Some {
                "; generation id "@ + context.generation_id->0
            } else {
                Seq::empty()
            };
            let told = reason + retry + generation;
            let lower = ascii_lower(told);
            let hint = {
                ||| status == 404
                ||| status == 400 && stands_in(lower, "model"@)
                ||| status == 503 && stands_in(
                    lower,
                    "no allowed providers are available"@,
                )
                ||| status == 503 && stands_in(
                    lower,
                    "no available model provider that meets your routing requirements"@,
                )
            };
            let text = http_error_text(status, api_message, context, model_request, Some(api_key));
            let open_text = http_error_text(status, api_message, context, model_request, None);
            &&& model_request && hint ==> text == told
                + "; open Ctrl-P and choose another model"@
            &&& !(model_request && hint) ==> text == told
            &&& open_text == text
        }),
{
    let reason = if api_message is Some {
        api_message->0
    } else {
        "HTTP status "@ + decimal(status as nat)
    };
    lemma_context_follows_message(reason, context, api_key);
    let retry = if context.retry_after is Some {
        "; retry after "@ + context.retry_after->0
    } else {
        Seq::empty()
    };
    let generation = if context.generation_id is Some {
        "; generation id "@ + context.generation_id->0
    } else {
        Seq::empty()
    };
    let lower = ascii_lower(reason + retry + generation);
    lemma_occurrence_is_at_a_position(lower, "model"@);
    lemma_occurrence_is_at_a_position(lower, "no allowed providers are available"@);
    lemma_occurrence_is_at_a_position(
        lower,
        "no available model provider that meets your routing requirements"@,
    );
}

/// The message of an error response is what the server says, unless that is empty.
pub proof fn lemma_error_message_is_the_servers(envelope: Option<ErrorEnvelope>)
    ensures
        envelope_message(envelope) is Some <==> envelope is Some && envelope->0.error.message@.len()
            > 0,
        envelope_message(envelope) is Some ==> envelope_message(envelope)->0
            == envelope->0.error.message@,
{
}

/// The key of an auth file is the one that it gives for `api` credentials, as it is; an empty one does
/// not count.
pub proof fn lemma_key_of_file_is_kept(file: Option<AuthFile>)
    ensures
        key_of_file(file) is Ok <==> {
            &&& file is Some
            &&& file->0.openrouter is Some
            &&& file->0.openrouter->0.credential_type@ == "api"@
            &&& file->0.openrouter->0.api_key is Some
            &&& file->0.openrouter->0.api_key->0@.len() > 0
        },
        key_of_file(file) matches Ok(key) ==> key == file->0.openrouter->0.api_key->0@,
        key_of_reply(Ok(file)) == key_of_file(file),
        key_of_reply(Err(ReadFailure::NotFound)) is Err,
        key_of_reply(Err(ReadFailure::Other)) is Err,
{
}

/// What is said where an auth file gives no key.
pub proof fn lemma_missing_key_is_explained(file: Option<AuthFile>)
    ensures
        key_of_reply(Err(ReadFailure::NotFound)) == Err::<Seq<char>, Seq<char>>(
            "no OpenRouter API key found in the environment or auth file"@,
        ),
        key_of_reply(Err(ReadFailure::Other)) == Err::<Seq<char>, Seq<char>>(
            "unable to read the OpenRouter auth file"@,
        ),
        file is None ==> key_of_file(file) == Err::<Seq<char>, Seq<char>>(
            "the OpenRouter auth file is malformed"@,
        ),
        file is Some && (file->0.openrouter is None || file->0.openrouter->0.credential_type@
            != "api"@) ==> key_of_file(file) == Err::<Seq<char>, Seq<char>>(
            "the OpenRouter auth file contains unsupported credentials"@,
        ),
        file is Some && file->0.openrouter is Some && file->0.openrouter->0.credential_type@
            == "api"@ && (file->0.openrouter->0.api_key is None
            || file->0.openrouter->0.api_key->0@.len() == 0) ==> key_of_file(file) == Err::<
            Seq<char>,
            Seq<char>,
        >("the OpenRouter auth file contains an empty API key"@),
{
}

/// A key of the environment that is not empty is the key, as it is, whatever an auth file holds. Else
/// the key is what the reply for the auth file gives, and without a path for that file there is none.
pub proof fn lemma_environment_key_wins<ReadFile>(
    environment_api_key: Option<Seq<char>>,
    path: Option<Seq<u8>>,
    platform: FileCredentialPlatform,
    read_file: ReadFile,
    r: Result<Seq<char>, Seq<char>>,
) where ReadFile: FnOnce(&[u8]) -> Result<Option<AuthFile>, ReadFailure>
    requires
        key_resolution(environment_api_key, path, platform, read_file, r),
    ensures
        environment_api_key is Some && environment_api_key->0.len() > 0 ==> r == Ok::<
            Seq<char>,
            Seq<char>,
        >(environment_api_key->0),
        environment_api_key is None || environment_api_key->0.len() == 0 ==> {
            &&& path is None && platform is Unix ==> r == Err::<Seq<char>, Seq<char>>(
                "no OpenRouter API key found; no supported auth file path is configured"@,
            )
            &&& path is None && platform is Unsupported ==> r == Err::<Seq<char>, Seq<char>>(
                "no OpenRouter API key found; file credentials are unsupported on this platform"@,
            )
            &&& path is Some ==> exists|
                opened: &[u8],
                reply: Result<Option<AuthFile>, ReadFailure>,
            |
                {
                    &&& opened@ == path->0
                    &&& #[trigger] call_ensures(read_file, (opened,), reply)
                    &&& r == key_of_reply(reply)
                }
        },
{
}

/// The auth file lies under the configuration directory, if that is an absolute path, and else under
/// the home directory, if that is known; elsewhere than on Unix there is none.
pub proof fn lemma_auth_file_is_looked_for(
    xdg_config_home: Option<Seq<u8>>,
    home: Option<Seq<u8>>,
    platform: FileCredentialPlatform,
)
    ensures
        ({
            let path = auth_path(xdg_config_home, home, platform);
            let absolute = xdg_config_home is Some && xdg_config_home->0.len() > 0
                && xdg_config_home->0[0] == 47;
            let known = home is Some && home->0.len() > 0;
            &&& path is Some <==> platform is Unix && (absolute || known)
            &&& path is Some && absolute && xdg_config_home->0.last() != 47 ==> path->0
                == xdg_config_home->0.push(47) + encode_utf8("nano/auth.json"@)
            &&& path is Some && absolute && xdg_config_home->0.last() == 47 ==> path->0
                == xdg_config_home->0 + encode_utf8("nano/auth.json"@)
            &&& path is Some && !absolute && home->0.last() != 47 ==> path->0 == home->0.push(47)
                + encode_utf8(".config/nano/auth.json"@)
            &&& path is Some && !absolute && home->0.last() == 47 ==> path->0 == home->0
                + encode_utf8(".config/nano/auth.json"@)
        }),
{
}

} // verus!
