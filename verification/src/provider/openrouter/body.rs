//! The JSON bodies of generation requests.

use vstd::prelude::*;
use vstd::slice::slice_to_vec;
use vstd::utf8::encode_utf8;

use crate::provider::{
    message_views, tool_call_views, ModelMessage, ModelMessageView, ToolCall, ToolCallView,
};

verus! {

/// A hexadecimal digit, in lower case.
pub open spec fn hex_digit(d: int) -> char {
    if d < 10 {
        ((48 + d) as u32) as char
    } else {
        ((87 + d) as u32) as char
    }
}

/// How a character is written inside a JSON string.
pub open spec fn json_escape(c: char) -> Seq<char> {
    if c == '"' || c == '\\' {
        seq!['\\', c]
    } else if c == '\u{8}' {
        seq!['\\', 'b']
    } else if c == '\t' {
        seq!['\\', 't']
    } else if c == '\n' {
        seq!['\\', 'n']
    } else if c == '\u{c}' {
        seq!['\\', 'f']
    } else if c == '\r' {
        seq!['\\', 'r']
    } else if (c as int) <= 31 {
        seq!['\\', 'u', '0', '0', hex_digit(c as int / 16), hex_digit(c as int % 16)]
    } else {
        seq![c]
    }
}

/// The characters of a text, each as it is written inside a JSON string.
pub open spec fn json_escaped(text: Seq<char>) -> Seq<char>
    decreases text.len(),
{
    if text.len() == 0 {
        Seq::empty()
    } else {
        json_escaped(text.drop_last()) + json_escape(text.last())
    }
}

/// A text as a JSON string.
pub open spec fn json_string(text: Seq<char>) -> Seq<char> {
    seq!['"'] + json_escaped(text) + seq!['"']
}

/// `serde_json::Error`, carried through as an opaque value.
#[verifier::external_type_specification]
#[verifier::external_body]
pub struct ExJsonError(serde_json::Error);

/// `serde_json::to_string` of a string slice: the text between quotes, with quotes, backslashes and
/// control characters escaped. It writes to memory, which does not fail.
#[verifier::external_body]
fn quote_json(text: &str) -> (r: Result<String, serde_json::Error>)
    ensures
        r is Ok,
        (r->Ok_0)@ == json_string(text@),
{
    serde_json::to_string(text)
}

/// A JSON value as compact text.
pub uninterp spec fn json_of_value(value: serde_json::Value) -> Seq<char>;

/// `serde_json::to_string` of a `Value`: its compact JSON text, which depends on the value alone.
/// A `Value` holds string keys and finite numbers only, so writing it to memory does not fail.
#[verifier::external_body]
fn compact_json(value: &serde_json::Value) -> (r: Result<String, serde_json::Error>)
    ensures
        r is Ok,
        (r->Ok_0)@ == json_of_value(*value),
{
    serde_json::to_string(value)
}

/// One tool call of an assistant message; its arguments travel as a string of JSON text.
pub open spec fn tool_call_json(tool_call: ToolCallView) -> Seq<char> {
    "{\"id\":"@ + json_string(tool_call.tool_call_id)
        + ",\"type\":\"function\",\"function\":{\"name\":"@ + json_string(tool_call.tool_name)
        + ",\"arguments\":"@ + json_string(json_of_value(tool_call.arguments)) + "}}"@
}

/// A list of tool calls, with commas between them.
pub open spec fn tool_calls_json(tool_calls: Seq<ToolCallView>) -> Seq<char>
    decreases tool_calls.len(),
{
    if tool_calls.len() == 0 {
        Seq::empty()
    } else if tool_calls.len() == 1 {
        tool_call_json(tool_calls[0])
    } else {
        tool_calls_json(tool_calls.drop_last()) + ","@ + tool_call_json(tool_calls.last())
    }
}

/// One message of a generation request; an assistant message names its tool calls if it has any.
pub open spec fn message_json(message: ModelMessageView) -> Seq<char> {
    match message {
        ModelMessageView::User { content } => "{\"role\":\"user\",\"content\":"@ + json_string(
            content,
        ) + "}"@,
        ModelMessageView::Assistant { content, tool_calls } => {
            let start = "{\"role\":\"assistant\",\"content\":"@ + json_string(content);
            if tool_calls.len() == 0 {
                start + "}"@
            } else {
                start + ",\"tool_calls\":["@ + tool_calls_json(tool_calls) + "]}"@
            }
        },
        ModelMessageView::ToolResult { tool_call_id, content } =>
        "{\"role\":\"tool\",\"tool_call_id\":"@ + json_string(tool_call_id) + ",\"content\":"@
            + json_string(content) + "}"@,
    }
}

/// A list of messages, with commas between them.
pub open spec fn messages_json(messages: Seq<ModelMessageView>) -> Seq<char>
    decreases messages.len(),
{
    if messages.len() == 0 {
        Seq::empty()
    } else if messages.len() == 1 {
        message_json(messages[0])
    } else {
        messages_json(messages.drop_last()) + ","@ + message_json(messages.last())
    }
}

/// The text of a generation request: the model, the messages in order, and a streamed reply.
pub open spec fn request_json(model_id: Seq<char>, messages: Seq<ModelMessageView>) -> Seq<char> {
    "{\"model\":"@ + json_string(model_id) + ",\"messages\":["@ + messages_json(messages)
        + "],\"stream\":true}"@
}

fn write_tool_call(tool_call: &ToolCall) -> (r: Result<String, serde_json::Error>)
    ensures
        r is Ok,
        (r->Ok_0)@ == tool_call_json(tool_call@),
{
    let arguments = compact_json(&tool_call.arguments)?;
    let mut out = "{\"id\":".to_owned();
    out.append(quote_json(tool_call.tool_call_id.as_str())?.as_str());
    out.append(",\"type\":\"function\",\"function\":{\"name\":");
    out.append(quote_json(tool_call.tool_name.as_str())?.as_str());
    out.append(",\"arguments\":");
    out.append(quote_json(arguments.as_str())?.as_str());
    out.append("}}");
    Ok(out)
}

fn write_tool_calls(tool_calls: &Vec<ToolCall>) -> (r: Result<String, serde_json::Error>)
    ensures
        r is Ok,
        (r->Ok_0)@ == tool_calls_json(tool_call_views(tool_calls@)),
{
    let ghost views = tool_call_views(tool_calls@);
    let mut out = String::new();
    let mut i: usize = 0;
    assert(views.take(0) =~= Seq::empty());
    while i < tool_calls.len()
        invariant
            views == tool_call_views(tool_calls@),
            i <= tool_calls@.len(),
            out@ == tool_calls_json(views.take(i as int)),
        decreases tool_calls@.len() - i,
    {
        proof {
            assert(views.take(i + 1).drop_last() =~= views.take(i as int));
            assert(views.take(i + 1).last() == tool_calls@[i as int]@);
        }
        let text = write_tool_call(&tool_calls[i])?;
        if i > 0 {
            out.append(",");
        } else {
            assert(out@ =~= Seq::empty());
            assert(out@ + text@ =~= text@);
        }
        out.append(text.as_str());
        i += 1;
    }
    assert(views.take(i as int) =~= views);
    Ok(out)
}

fn write_message(message: &ModelMessage) -> (r: Result<String, serde_json::Error>)
    ensures
        r is Ok,
        (r->Ok_0)@ == message_json(message@),
{
    match message {
        ModelMessage::User { content } => {
            let mut out = "{\"role\":\"user\",\"content\":".to_owned();
            out.append(quote_json(content.as_str())?.as_str());
            out.append("}");
            Ok(out)
        },
        ModelMessage::Assistant { content, tool_calls } => {
            let mut out = "{\"role\":\"assistant\",\"content\":".to_owned();
            out.append(quote_json(content.as_str())?.as_str());
            if tool_calls.len() > 0 {
                out.append(",\"tool_calls\":[");
                out.append(write_tool_calls(tool_calls)?.as_str());
                out.append("]}");
            } else {
                out.append("}");
            }
            Ok(out)
        },
        ModelMessage::ToolResult { tool_call_id, content } => {
            let mut out = "{\"role\":\"tool\",\"tool_call_id\":".to_owned();
            out.append(quote_json(tool_call_id.as_str())?.as_str());
            out.append(",\"content\":");
            out.append(quote_json(content.as_str())?.as_str());
            out.append("}");
            Ok(out)
        },
    }
}

fn write_messages(messages: &Vec<ModelMessage>) -> (r: Result<String, serde_json::Error>)
    ensures
        r is Ok,
        (r->Ok_0)@ == messages_json(message_views(messages@)),
{
    let ghost views = message_views(messages@);
    let mut out = String::new();
    let mut i: usize = 0;
    assert(views.take(0) =~= Seq::empty());
    while i < messages.len()
        invariant
            views == message_views(messages@),
            i <= messages@.len(),
            out@ == messages_json(views.take(i as int)),
        decreases messages@.len() - i,
    {
        proof {
            assert(views.take(i + 1).drop_last() =~= views.take(i as int));
            assert(views.take(i + 1).last() == messages@[i as int]@);
        }
        let text = write_message(&messages[i])?;
        if i > 0 {
            out.append(",");
        } else {
            assert(out@ =~= Seq::empty());
            assert(out@ + text@ =~= text@);
        }
        out.append(text.as_str());
        i += 1;
    }
    assert(views.take(i as int) =~= views);
    Ok(out)
}

fn write_request(model_id: &str, messages: &Vec<ModelMessage>) -> (r: Result<
    String,
    serde_json::Error,
>)
    ensures
        r is Ok,
        (r->Ok_0)@ == request_json(model_id@, message_views(messages@)),
{
    let mut out = "{\"model\":".to_owned();
    out.append(quote_json(model_id)?.as_str());
    out.append(",\"messages\":[");
    out.append(write_messages(messages)?.as_str());
    out.append("],\"stream\":true}");
    Ok(out)
}

/// The body of a generation request that carries these messages, in order.
pub fn conversation_request_body(model_id: &str, messages: &Vec<ModelMessage>) -> (r: Result<
    Vec<u8>,
    String,
>)
    ensures
        r is Ok,
        (r->Ok_0)@ == encode_utf8(request_json(model_id@, message_views(messages@))),
{
    match write_request(model_id, messages) {
        Ok(text) => Ok(slice_to_vec(text.as_str().as_bytes())),
        Err(_) => Err("unable to serialize the OpenRouter generation request".to_owned()),
    }
}

/// The body of a generation request that carries one user text and nothing else.
pub fn generation_request_body(model_id: &str, input: &str) -> (r: Result<Vec<u8>, String>)
    ensures
        r is Ok,
        (r->Ok_0)@ == encode_utf8(
            request_json(model_id@, seq![ModelMessageView::User { content: input@ }]),
        ),
{
    let mut messages: Vec<ModelMessage> = Vec::new();
    messages.push(ModelMessage::User { content: input.to_owned() });
    assert(message_views(messages@) =~= seq![ModelMessageView::User { content: input@ }]);
    conversation_request_body(model_id, &messages)
}

/// The request for one user text holds the model and that text, and nothing else.
pub proof fn lemma_independent_request(model_id: Seq<char>, input: Seq<char>)
    ensures
        request_json(model_id, seq![ModelMessageView::User { content: input }]) == "{\"model\":"@
            + json_string(model_id) + ",\"messages\":["@ + (
        "{\"role\":\"user\",\"content\":"@ + json_string(input) + "}"@) + "],\"stream\":true}"@,
{
}

} // verus!
