//! What keys and events do to the draft, the conversation and the model, said of the texts themselves.

use vstd::prelude::*;

use crate::provider::{ModelMetadataView, Usage};
use crate::runtime::{HarnessEventView, RuntimeCommandView};
use crate::tui::app::{
    app_event_step, app_key_step, app_valid, measured, new_app, submitted, AppActionView, AppView,
    MessageRole, MessageView, RuntimeStatusView,
};
use crate::tui::dispatch::{command_of, settled, EnqueueOutcome};
use crate::tui::keys::{KeyCode, KeyEvent};
use crate::tui::model_picker::{
    picker_key_step, CatalogStateView, ModelPickerActionView, PickerView,
};

verus! {

/// Whether a key is this one, pressed or repeated, whatever modifiers are held.
pub open spec fn is_pressed(key: KeyEvent, code: KeyCode) -> bool {
    key.code == code && !(key.kind is Release)
}

/// A printable character is inserted at the cursor, as it is, and the cursor goes behind it; the text
/// before and behind the cursor stays.
pub proof fn lemma_character_is_inserted(v: AppView, key: KeyEvent, c: char)
    requires
        app_valid(v),
        !v.picker.open,
        key.code == KeyCode::Char(c),
        !(key.kind is Release),
        !key.modifiers.control,
        !key.modifiers.alt,
        c as u32 > 0x1f,
        !(0x7f <= c as u32 <= 0x9f),
    ensures
        ({
            let (post, action) = app_key_step(v, key);
            &&& action is Continue
            &&& post.input == v.input.take(v.cursor).push(c) + v.input.skip(v.cursor)
            &&& post.cursor == v.cursor + 1
            &&& post == (AppView { input: post.input, cursor: post.cursor, ..v })
        }),
{
    let post = app_key_step(v, key).0;
    assert(post.input =~= v.input.take(v.cursor).push(c) + v.input.skip(v.cursor));
}

/// Backspace takes the character before the cursor away, Delete the one behind it; at the end of the
/// draft in that direction they do nothing.
pub proof fn lemma_character_is_deleted(v: AppView, key: KeyEvent)
    requires
        app_valid(v),
        !v.picker.open,
        is_pressed(key, KeyCode::Backspace) || is_pressed(key, KeyCode::Delete),
    ensures
        ({
            let (post, action) = app_key_step(v, key);
            &&& action is Continue
            &&& key.code is Backspace && v.cursor > 0 ==> {
                &&& post.input == v.input.take(v.cursor - 1) + v.input.skip(v.cursor)
                &&& post.cursor == v.cursor - 1
            }
            &&& key.code is Delete && v.cursor < v.input.len() ==> {
                &&& post.input == v.input.take(v.cursor) + v.input.skip(v.cursor + 1)
                &&& post.cursor == v.cursor
            }
            &&& key.code is Backspace && v.cursor == 0 ==> post == v
            &&& key.code is Delete && v.cursor == v.input.len() ==> post == v
            &&& post == (AppView { input: post.input, cursor: post.cursor, ..v })
        }),
{
    let post = app_key_step(v, key).0;
    if key.code is Backspace && v.cursor > 0 {
        assert(post.input =~= v.input.take(v.cursor - 1) + v.input.skip(v.cursor));
    }
    if key.code is Delete && v.cursor < v.input.len() {
        assert(post.input =~= v.input.take(v.cursor) + v.input.skip(v.cursor + 1));
    }
}

/// Left and right move the cursor by one character, Home and End to the ends of the draft; the draft
/// stays.
pub proof fn lemma_cursor_moves(v: AppView, key: KeyEvent)
    requires
        app_valid(v),
        !v.picker.open,
        ({
            ||| is_pressed(key, KeyCode::Left)
            ||| is_pressed(key, KeyCode::Right)
            ||| is_pressed(key, KeyCode::Home)
            ||| is_pressed(key, KeyCode::End) && !key.modifiers.control
        }),
    ensures
        ({
            let (post, action) = app_key_step(v, key);
            &&& action is Continue
            &&& post == (AppView { cursor: post.cursor, ..v })
            &&& key.code is Left && v.cursor > 0 ==> post.cursor == v.cursor - 1
            &&& key.code is Left && v.cursor == 0 ==> post.cursor == 0
            &&& key.code is Right && v.cursor < v.input.len() ==> post.cursor == v.cursor + 1
            &&& key.code is Right && v.cursor == v.input.len() ==> post.cursor == v.cursor
            &&& key.code is Home ==> post.cursor == 0
            &&& key.code is End ==> post.cursor == v.input.len()
        }),
{
}

/// Enter submits the whole draft, as it is, unless it is empty or a response is awaited; the draft
/// stays until the submission has been handed over.
pub proof fn lemma_enter_submits_the_draft(v: AppView, key: KeyEvent)
    requires
        !v.picker.open,
        is_pressed(key, KeyCode::Enter),
    ensures
        app_key_step(v, key) == if v.input.len() > 0 && !(v.status is Responding) {
            (v, AppActionView::Submit(v.input))
        } else {
            (v, AppActionView::Continue)
        },
{
}

/// Escape clears a draft; without one it leaves the application.
pub proof fn lemma_escape_clears_the_draft(v: AppView, key: KeyEvent)
    requires
        !v.picker.open,
        is_pressed(key, KeyCode::Esc),
    ensures
        ({
            let (post, action) = app_key_step(v, key);
            &&& v.input.len() == 0 ==> post == v && action is Exit
            &&& v.input.len() > 0 ==> {
                &&& action is Continue
                &&& post.input.len() == 0
                &&& post.cursor == 0
                &&& post == (AppView { input: post.input, cursor: 0, ..v })
            }
        }),
{
}

/// The keys of a screen move the conversation by the height of its area, not beyond its ends, and
/// stop following it; Control-End goes to its end and follows it again.
pub proof fn lemma_conversation_is_paged(v: AppView, key: KeyEvent)
    requires
        app_valid(v),
        !v.picker.open,
        !(key.kind is Release),
        ({
            ||| is_pressed(key, KeyCode::PageUp)
            ||| is_pressed(key, KeyCode::PageDown)
            ||| key.code is End && key.modifiers.control
        }),
    ensures
        ({
            let (post, action) = app_key_step(v, key);
            let bottom = if v.content_lines >= v.viewport_height {
                v.content_lines - v.viewport_height
            } else {
                0
            };
            &&& action is Continue
            &&& post == (AppView { top: post.top, auto_follow: post.auto_follow, ..v })
            &&& post.auto_follow == (key.code is End)
            &&& key.code is End ==> post.top == bottom
            &&& key.code is PageUp && v.top >= v.viewport_height ==> post.top == v.top
                - v.viewport_height
            &&& key.code is PageUp && v.top < v.viewport_height ==> post.top == 0
            &&& key.code is PageDown && v.top + v.viewport_height <= bottom ==> post.top == v.top
                + v.viewport_height
            &&& key.code is PageDown && v.top + v.viewport_height > bottom ==> post.top == bottom
        }),
{
}

/// Up, down, keys without a use, control characters, and letters with alt held, or with control held
/// but for C and P, do nothing outside the picker.
pub proof fn lemma_other_keys_do_nothing(v: AppView, key: KeyEvent)
    requires
        !v.picker.open,
        ({
            ||| key.code is Up
            ||| key.code is Down
            ||| key.code is Other
            ||| {
                &&& key.code is Char
                &&& {
                    ||| key.modifiers.alt
                    ||| key.modifiers.control
                    ||| key.code->Char_0 as u32 <= 0x1f
                    ||| 0x7f <= key.code->Char_0 as u32 <= 0x9f
                }
                &&& key.modifiers.control ==> key.code->Char_0 != 'c' && key.code->Char_0 != 'C'
                    && key.code->Char_0 != 'p' && key.code->Char_0 != 'P'
            }
        }),
    ensures
        app_key_step(v, key) == (v, AppActionView::Continue),
{
}

/// A key that comes up does nothing.
pub proof fn lemma_release_does_nothing(v: AppView, key: KeyEvent)
    requires
        key.kind is Release,
    ensures
        app_key_step(v, key) == (v, AppActionView::Continue),
{
}

/// Control-P opens the picker with an empty search and asks for the catalog, unless a response is
/// awaited; a catalog that failed to load counts as loading again.
pub proof fn lemma_control_p_opens_the_picker(v: AppView, key: KeyEvent)
    requires
        !v.picker.open,
        !(key.kind is Release),
        key.modifiers.control,
        key.code == KeyCode::Char('p') || key.code == KeyCode::Char('P'),
    ensures
        ({
            let (post, action) = app_key_step(v, key);
            &&& v.status is Responding ==> post == v && action is Continue
            &&& !(v.status is Responding) ==> {
                &&& action is OpenModelPicker
                &&& post == (AppView { picker: post.picker, ..v })
                &&& post.picker.open
                &&& post.picker.query.len() == 0
                &&& post.picker.active_row == 0
                &&& post.picker.error is None
                &&& post.picker.pending_model_id == v.picker.pending_model_id
                &&& v.picker.catalog is Failed ==> post.picker.catalog is Loading
                &&& !(v.picker.catalog is Failed) ==> post.picker.catalog == v.picker.catalog
            }
        }),
{
}

/// While the picker is open, keys go to it, with the model in use as the current one; what it selects
/// is what is asked for.
pub proof fn lemma_open_picker_gets_the_keys(v: AppView, key: KeyEvent)
    requires
        v.picker.open,
        !(key.kind is Release),
        !(key.modifiers.control && (key.code == KeyCode::Char('c') || key.code == KeyCode::Char(
            'C',
        ))),
    ensures
        ({
            let (post, action) = app_key_step(v, key);
            let (picker, wanted) = picker_key_step(v.picker, key, v.model_id);
            &&& post == (AppView { picker, ..v })
            &&& wanted is Continue ==> action is Continue
            &&& wanted matches ModelPickerActionView::SelectModel(model_id) ==> action
                == AppActionView::SelectModel(model_id)
        }),
{
}

/// The command for an action carries what the action names, as it is.
pub proof fn lemma_command_carries_the_text(text: Seq<char>)
    ensures
        command_of(AppActionView::Submit(text)) == Some(RuntimeCommandView::Submit(text)),
        command_of(AppActionView::SelectModel(text)) == Some(RuntimeCommandView::SelectModel(text)),
        command_of(AppActionView::OpenModelPicker) == Some(RuntimeCommandView::DiscoverModels),
        command_of(AppActionView::Continue) is None,
        command_of(AppActionView::Exit) is None,
{
}

/// A submission that was handed over is the last message, as it is, from the user; the draft is empty,
/// and a response is awaited whose text and counts are yet to come. Nothing else changes.
pub proof fn lemma_submission_is_shown_verbatim(v: AppView, submission: Seq<char>)
    ensures
        submission.len() == 0 || v.status is Responding ==> submitted(v, submission) == v,
        submission.len() > 0 && !(v.status is Responding) ==> {
            let post = submitted(v, submission);
            &&& post.messages == v.messages.push(
                MessageView { role: MessageRole::User, content: submission },
            )
            &&& post.input.len() == 0
            &&& post.cursor == 0
            &&& post.status is Responding
            &&& post.active_message is None
            &&& post.usage is None
            &&& post.model_id == v.model_id
            &&& post.model_name == v.model_name
            &&& post.picker == v.picker
            &&& post.top == v.top
            &&& post.auto_follow == v.auto_follow
        },
        settled(v, AppActionView::Submit(submission), EnqueueOutcome::Sent) == submitted(
            v,
            submission,
        ),
{
}

/// What could not be handed over is said, where it was asked for: a full queue and a closed channel are
/// told apart. All else stays.
pub proof fn lemma_rejected_command_is_shown(v: AppView, text: Seq<char>, outcome: EnqueueOutcome)
    requires
        !(outcome is Sent),
    ensures
        ({
            let words = if outcome is Full {
                "runtime command queue is full"@
            } else {
                "runtime command channel is closed"@
            };
            &&& settled(v, AppActionView::Submit(text), outcome) == (AppView {
                status: RuntimeStatusView::Error(words),
                ..v
            })
            &&& settled(v, AppActionView::OpenModelPicker, outcome) == (AppView {
                picker: PickerView { error: Some(words), ..v.picker },
                ..v
            })
            &&& settled(v, AppActionView::SelectModel(text), outcome) == (AppView {
                picker: PickerView { error: Some(words), pending_model_id: None, ..v.picker },
                ..v
            })
        }),
{
}

/// What asks for no command changes nothing more, and a catalog that was asked for is awaited.
pub proof fn lemma_settling_changes_nothing_else(v: AppView, outcome: EnqueueOutcome)
    ensures
        settled(v, AppActionView::Continue, outcome) == v,
        settled(v, AppActionView::Exit, outcome) == v,
        settled(v, AppActionView::OpenModelPicker, EnqueueOutcome::Sent) == v,
{
}

/// A selection that was handed over is pending until the runtime answers.
pub proof fn lemma_selection_is_pending(v: AppView, model_id: Seq<char>)
    ensures
        ({
            let post = settled(v, AppActionView::SelectModel(model_id), EnqueueOutcome::Sent);
            &&& post == (AppView { picker: post.picker, ..v })
            &&& post.picker.pending_model_id == Some(model_id)
            &&& post.picker.error is None
            &&& post.picker == (PickerView {
                pending_model_id: post.picker.pending_model_id,
                error: post.picker.error,
                ..v.picker
            })
        }),
{
}

/// A response that starts adds an empty message of the assistant, once.
pub proof fn lemma_started_response_is_shown(v: AppView)
    requires
        v.status is Responding,
    ensures
        ({
            let post = app_event_step(v, HarnessEventView::ResponseStarted);
            &&& v.active_message is Some ==> post == v
            &&& v.active_message is None ==> {
                &&& post.messages.len() == v.messages.len() + 1
                &&& post.messages.drop_last() == v.messages
                &&& post.messages.last().role is Assistant
                &&& post.messages.last().content.len() == 0
                &&& post.active_message == Some(v.messages.len() as int)
                &&& post == (AppView {
                    messages: post.messages,
                    active_message: post.active_message,
                    ..v
                })
            }
        }),
{
    let post = app_event_step(v, HarnessEventView::ResponseStarted);
    if v.active_message is None {
        assert(post.messages.drop_last() =~= v.messages);
    }
}

/// Text of the awaited response is added to the assistant's message verbatim: behind what stood there,
/// exactly the characters that came. Nothing else changes.
pub proof fn lemma_text_is_shown_verbatim(v: AppView, text: Seq<char>)
    requires
        app_valid(v),
        v.status is Responding,
        v.active_message is Some,
    ensures
        ({
            let post = app_event_step(v, HarnessEventView::AssistantDelta(text));
            &&& post.messages.len() == v.messages.len()
            &&& post.messages.drop_last() == v.messages.drop_last()
            &&& post.messages.last().role is Assistant
            &&& post.messages.last().content == v.messages.last().content + text
            &&& post == (AppView { messages: post.messages, ..v })
        }),
{
    let post = app_event_step(v, HarnessEventView::AssistantDelta(text));
    assert(post.messages.drop_last() =~= v.messages.drop_last());
}

/// The end of the awaited response is shown for what it was: complete, cut off at the output limit, or
/// failed for this reason, in these words. The messages stay. A completion counts once the response
/// has started.
pub proof fn lemma_end_of_response_is_shown(v: AppView, error: Seq<char>)
    requires
        v.status is Responding,
    ensures
        ({
            let finished = app_event_step(v, HarnessEventView::ResponseFinished);
            let truncated = app_event_step(v, HarnessEventView::ResponseTruncated);
            let failed = app_event_step(v, HarnessEventView::Error(error));
            &&& v.active_message is None ==> finished == v
            &&& v.active_message is Some ==> finished == (AppView {
                status: RuntimeStatusView::Idle,
                active_message: None,
                ..v
            })
            &&& truncated == (AppView {
                status: RuntimeStatusView::Truncated,
                active_message: None,
                ..v
            })
            &&& failed == (AppView {
                status: RuntimeStatusView::Error(error),
                active_message: None,
                ..v
            })
        }),
{
}

/// A model that the runtime selected is the one in use, under the name that the catalog gives it; the
/// picker closes if it was waiting for that model.
pub proof fn lemma_selected_model_is_in_use(v: AppView, metadata: ModelMetadataView)
    ensures
        ({
            let post = app_event_step(v, HarnessEventView::ModelSelected(metadata));
            &&& post.model_id == metadata.model_id
            &&& post.model_name == metadata.display_name
            &&& post == (AppView {
                model_id: post.model_id,
                model_name: post.model_name,
                picker: post.picker,
                ..v
            })
            &&& post.picker.catalog == v.picker.catalog
            &&& v.picker.pending_model_id == Some(metadata.model_id) ==> !post.picker.open
                && post.picker.pending_model_id is None && post.picker.error is None
            &&& v.picker.pending_model_id != Some(metadata.model_id) ==> post.picker == v.picker
        }),
{
}

/// A selection that the runtime refused changes no model; the picker shows why, in these words, and
/// opens again if it was waiting.
pub proof fn lemma_refused_selection_is_shown(v: AppView, error: Seq<char>)
    ensures
        ({
            let post = app_event_step(v, HarnessEventView::ModelSelectionFailed(error));
            &&& post == (AppView { picker: post.picker, ..v })
            &&& post.picker.error == Some(error)
            &&& post.picker.pending_model_id is None
            &&& post.picker.open == (v.picker.open || v.picker.pending_model_id is Some)
            &&& post.picker.catalog == v.picker.catalog
            &&& post.picker.query == v.picker.query
        }),
{
}

/// A catalog that the runtime loaded is what the picker shows; a failure is shown in its words.
pub proof fn lemma_catalog_reaches_the_picker(
    v: AppView,
    models: Seq<ModelMetadataView>,
    error: Seq<char>,
)
    ensures
        ({
            let loaded = app_event_step(v, HarnessEventView::CatalogLoaded(models));
            let failed = app_event_step(v, HarnessEventView::CatalogFailed(error));
            &&& loaded == (AppView { picker: loaded.picker, ..v })
            &&& loaded.picker.catalog == CatalogStateView::Loaded(models)
            &&& loaded.picker.query == v.picker.query
            &&& loaded.picker.open == v.picker.open
            &&& failed == (AppView { picker: failed.picker, ..v })
            &&& failed.picker.catalog == CatalogStateView::Failed(error)
            &&& failed.picker.query == v.picker.query
            &&& failed.picker.open == v.picker.open
        }),
{
}

/// The counts that the runtime reports for the awaited response are the counts that are kept.
pub proof fn lemma_usage_is_kept(v: AppView, usage: Usage)
    requires
        v.status is Responding,
    ensures
        app_event_step(v, HarnessEventView::Usage(usage)) == (AppView { usage: Some(usage), ..v }),
{
}

/// The messages after a series of text deltas.
pub open spec fn after_deltas(v: AppView, texts: Seq<Seq<char>>) -> AppView
    decreases texts.len(),
{
    if texts.len() == 0 {
        v
    } else {
        app_event_step(
            after_deltas(v, texts.drop_last()),
            HarnessEventView::AssistantDelta(texts.last()),
        )
    }
}

/// A whole exchange: after a submission, the start of its response, its text in any number of pieces
/// and its completion, the conversation has grown by the submission and by the whole answer, both
/// character for character, and nothing is awaited.
pub proof fn lemma_exchange_is_shown_whole(
    v: AppView,
    submission: Seq<char>,
    answer: Seq<Seq<char>>,
)
    requires
        app_valid(v),
        submission.len() > 0,
        !(v.status is Responding),
    ensures
        ({
            let started = app_event_step(
                submitted(v, submission),
                HarnessEventView::ResponseStarted,
            );
            let post = app_event_step(
                after_deltas(started, answer),
                HarnessEventView::ResponseFinished,
            );
            &&& post.messages == v.messages.push(
                MessageView { role: MessageRole::User, content: submission },
            ).push(MessageView { role: MessageRole::Assistant, content: answer.flatten() })
            &&& post.status is Idle
            &&& post.active_message is None
        }),
{
    let sent = submitted(v, submission);
    let started = app_event_step(sent, HarnessEventView::ResponseStarted);
    lemma_deltas_are_shown_whole(started, answer);
    let shown = after_deltas(started, answer);
    assert(shown.messages.drop_last() =~= sent.messages);
    assert(Seq::<char>::empty() + answer.flatten() =~= answer.flatten());
    assert(shown.messages =~= sent.messages.push(
        MessageView { role: MessageRole::Assistant, content: answer.flatten() },
    ));
}

proof fn lemma_deltas_are_shown_whole(v: AppView, texts: Seq<Seq<char>>)
    requires
        app_valid(v),
        v.status is Responding,
        v.active_message is Some,
    ensures
        ({
            let post = after_deltas(v, texts);
            &&& post == (AppView { messages: post.messages, ..v })
            &&& app_valid(post)
            &&& post.messages.len() == v.messages.len()
            &&& post.messages.drop_last() == v.messages.drop_last()
            &&& post.messages.last() == (MessageView {
                content: v.messages.last().content + texts.flatten(),
                ..v.messages.last()
            })
        }),
    decreases texts.len(),
{
    if texts.len() == 0 {
        assert(texts.flatten() =~= Seq::<char>::empty());
        let content = v.messages.last().content;
        assert(content + Seq::<char>::empty() =~= content);
    } else {
        let earlier = texts.drop_last();
        let text = texts.last();
        lemma_deltas_are_shown_whole(v, earlier);
        assert(earlier.push(text) =~= texts);
        earlier.lemma_flatten_push(text);
        lemma_text_is_shown_verbatim(after_deltas(v, earlier), text);
        let content = v.messages.last().content;
        assert((content + earlier.flatten()) + text =~= content + (earlier.flatten() + text));
    }
}

/// A new state has no messages and no draft, waits for nothing, and names the model that it is given.
pub proof fn lemma_new_state_is_empty(model_id: Seq<char>, model_name: Seq<char>)
    ensures
        ({
            let v = new_app(model_id, model_name);
            &&& v.model_id == model_id
            &&& v.model_name == model_name
            &&& v.messages.len() == 0
            &&& v.input.len() == 0
            &&& v.cursor == 0
            &&& v.status is Idle
            &&& v.active_message is None
            &&& v.usage is None
            &&& v.auto_follow
            &&& !v.picker.open
            &&& v.picker.catalog is Loading
            &&& app_valid(v)
        }),
{
}

/// A measured conversation that is followed shows its last lines; any other stays where it is as far
/// as it has lines.
pub proof fn lemma_measuring_scrolls(v: AppView, content_lines: usize, viewport_height: usize)
    ensures
        ({
            let post = measured(v, content_lines, viewport_height);
            let bottom = if content_lines >= viewport_height {
                content_lines - viewport_height
            } else {
                0
            };
            &&& post == (AppView { content_lines, viewport_height, top: post.top, ..v })
            &&& post.top == if v.auto_follow || v.top > bottom {
                bottom
            } else {
                v.top as int
            }
        }),
{
}

} // verus!
