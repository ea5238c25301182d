//! What holds of the editor, the conversation and its scrolling.

use vstd::prelude::*;
use vstd::utf8::encode_utf8;

use crate::runtime::HarnessEventView;
use crate::text::{lemma_encode_concat, utf8_len};
use crate::tui::app::{
    app_event_step, app_key_step, app_valid, deleted_next, deleted_previous, is_control_letter,
    is_response_event, maximum_top, measured, moved_left, moved_right, paged_down, paged_up, typed,
    AppActionView, AppView,
};
use crate::tui::keys::KeyEvent;

verus! {

/// Typing a character and deleting it again leaves the draft and the cursor as they were.
pub proof fn lemma_backspace_undoes_typing(v: AppView, c: char)
    requires
        app_valid(v),
    ensures
        deleted_previous(typed(v, c)) == v,
{
    assert(v.input.insert(v.cursor, c).remove(v.cursor) =~= v.input);
}

/// Moving left and right again leaves the cursor where it was, unless it stood at the start.
pub proof fn lemma_right_undoes_left(v: AppView)
    requires
        app_valid(v),
        v.cursor > 0,
    ensures
        moved_right(moved_left(v)) == v,
{
}

/// Deleting the next character after moving left is the same as deleting the previous one.
pub proof fn lemma_delete_after_left_is_backspace(v: AppView)
    requires
        app_valid(v),
        v.cursor > 0,
    ensures
        deleted_next(moved_left(v)) == deleted_previous(v),
{
}

/// The byte offset of the cursor is where the text before it ends: on a character boundary, never
/// beyond the draft.
pub proof fn lemma_cursor_is_on_boundary(v: AppView)
    requires
        app_valid(v),
    ensures
        utf8_len(v.input.take(v.cursor)) <= utf8_len(v.input),
        encode_utf8(v.input).take(utf8_len(v.input.take(v.cursor)) as int) == encode_utf8(
            v.input.take(v.cursor),
        ),
        encode_utf8(v.input).skip(utf8_len(v.input.take(v.cursor)) as int) == encode_utf8(
            v.input.skip(v.cursor),
        ),
{
    let before = v.input.take(v.cursor);
    let after = v.input.skip(v.cursor);
    assert(v.input =~= before + after);
    lemma_encode_concat(before, after);
    assert(encode_utf8(v.input).take(utf8_len(before) as int) =~= encode_utf8(before));
    assert(encode_utf8(v.input).skip(utf8_len(before) as int) =~= encode_utf8(after));
}

/// Every key keeps the state valid.
pub proof fn lemma_keys_keep_app_valid(v: AppView, key: KeyEvent)
    requires
        app_valid(v),
    ensures
        app_valid(app_key_step(v, key).0),
{
}

/// Every runtime event keeps the state valid.
pub proof fn lemma_events_keep_app_valid(v: AppView, event: HarnessEventView)
    requires
        app_valid(v),
    ensures
        app_valid(app_event_step(v, event)),
{
}

/// Events of a response that is not awaited change nothing.
pub proof fn lemma_stale_events_change_nothing(v: AppView, event: HarnessEventView)
    requires
        !(v.status is Responding),
        is_response_event(event),
    ensures
        app_event_step(v, event) == v,
{
}

/// A response that ends at the output limit is shown as truncated and no longer awaited, whether or
/// not any of its text arrived.
pub proof fn lemma_truncation_is_shown(v: AppView)
    requires
        v.status is Responding,
    ensures
        ({
            let post = app_event_step(v, HarnessEventView::ResponseTruncated);
            &&& post.status is Truncated
            &&& post.active_message is None
            &&& post.messages == v.messages
        }),
{
}

/// Keys never touch the conversation, the runtime status or the model.
pub proof fn lemma_keys_keep_conversation(v: AppView, key: KeyEvent)
    ensures
        app_key_step(v, key).0.messages == v.messages,
        app_key_step(v, key).0.status == v.status,
        app_key_step(v, key).0.model_id == v.model_id,
        app_key_step(v, key).0.active_message == v.active_message,
{
}

/// While the picker is open it owns the keys: the draft and the scrolling stay as they are.
pub proof fn lemma_open_picker_owns_keys(v: AppView, key: KeyEvent)
    requires
        v.picker.open,
    ensures
        app_key_step(v, key).0 == (AppView { picker: app_key_step(v, key).0.picker, ..v }),
{
}

/// Nothing is submitted while a response is awaited, and nothing empty ever.
pub proof fn lemma_submission_waits_its_turn(v: AppView, key: KeyEvent, submission: Seq<char>)
    requires
        app_key_step(v, key).1 == AppActionView::Submit(submission),
    ensures
        !(v.status is Responding),
        submission == v.input,
        submission.len() > 0,
        app_key_step(v, key).0 == v,
{
}

/// Control-C exits whatever else is going on.
pub proof fn lemma_control_c_exits(v: AppView, key: KeyEvent)
    requires
        is_control_letter(key, 'c', 'C'),
        !(key.kind is Release),
    ensures
        app_key_step(v, key) == (v, AppActionView::Exit),
{
}

/// No event takes a message away or shortens it: messages stay, in order, and only the last one can
/// grow.
pub proof fn lemma_events_keep_messages(v: AppView, event: HarnessEventView)
    requires
        app_valid(v),
    ensures
        ({
            let post = app_event_step(v, event);
            &&& v.messages.len() <= post.messages.len()
            &&& forall|i: int|
                0 <= i < v.messages.len() ==> {
                    &&& (#[trigger] post.messages[i]).role == v.messages[i].role
                    &&& v.messages[i].content.is_prefix_of(post.messages[i].content)
                    &&& i < v.messages.len() - 1 ==> post.messages[i] == v.messages[i]
                }
        }),
{
}

/// Text deltas build the assistant message in order.
pub proof fn lemma_deltas_build_message(v: AppView, first: Seq<char>, second: Seq<char>)
    requires
        app_valid(v),
    ensures
        app_event_step(
            app_event_step(v, HarnessEventView::AssistantDelta(first)),
            HarnessEventView::AssistantDelta(second),
        ) == app_event_step(v, HarnessEventView::AssistantDelta(first + second)),
{
    let middle = app_event_step(v, HarnessEventView::AssistantDelta(first));
    let left = app_event_step(middle, HarnessEventView::AssistantDelta(second));
    let right = app_event_step(v, HarnessEventView::AssistantDelta(first + second));
    match v.active_message {
        Some(index) => {
            assert((v.messages[index].content + first) + second =~= v.messages[index].content + (
            first + second));
            assert(left.messages =~= right.messages);
        },
        None => {},
    }
}

/// A followed conversation shows its end after every measurement; one that is not followed stays
/// where it is, unless that is beyond its end.
pub proof fn lemma_scrolling_is_stable(v: AppView, content_lines: usize, viewport_height: usize)
    requires
        app_valid(v),
    ensures
        ({
            let post = measured(v, content_lines, viewport_height);
            &&& v.auto_follow ==> post.top == maximum_top(post)
            &&& !v.auto_follow && v.top <= maximum_top(post) ==> post.top == v.top
            &&& post.top <= maximum_top(post)
            &&& post.auto_follow == v.auto_follow
        }),
{
}

/// Paging up and down again returns to the same place where a full screen lies above it.
pub proof fn lemma_paging_returns(v: AppView)
    requires
        app_valid(v),
        v.top >= v.viewport_height,
    ensures
        paged_down(paged_up(v)).top == v.top,
{
}

} // verus!
