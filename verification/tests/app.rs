//! The editor, the conversation and its scrolling.

use nano::runtime::HarnessEvent;
use nano::tui::app::{AppAction, AppState, MessageRole, RuntimeStatus};
use nano::tui::keys::{KeyCode, KeyEvent, KeyEventKind, KeyModifiers};
use nano::tui::model_picker::CatalogState;

fn key_event(key_code: KeyCode) -> KeyEvent {
    KeyEvent::new(key_code, KeyModifiers::none())
}

fn modified_key_event(key_code: KeyCode, modifiers: KeyModifiers) -> KeyEvent {
    KeyEvent::new(key_code, modifiers)
}

fn assert_user_message(app_state: &AppState, expected_content: &str) {
    assert_eq!(app_state.messages().len(), 1);
    assert_eq!(app_state.messages()[0].role(), MessageRole::User);
    assert_eq!(app_state.messages()[0].content(), expected_content);
}

#[test]
fn editor_inserts_and_moves_across_utf8_boundaries() {
    let mut app_state = AppState::new("test-model");

    assert_eq!(
        app_state.handle_key(key_event(KeyCode::Char('a'))),
        AppAction::Continue
    );
    assert_eq!(
        app_state.handle_key(key_event(KeyCode::Char('é'))),
        AppAction::Continue
    );
    assert_eq!(
        app_state.handle_key(key_event(KeyCode::Char('界'))),
        AppAction::Continue
    );
    assert_eq!(app_state.input(), "aé界");
    assert_eq!(app_state.cursor_byte_offset(), "aé界".len());

    app_state.handle_key(key_event(KeyCode::Left));
    app_state.handle_key(key_event(KeyCode::Backspace));
    assert_eq!(app_state.input(), "a界");
    assert_eq!(app_state.cursor_byte_offset(), "a".len());

    app_state.handle_key(key_event(KeyCode::Delete));
    assert_eq!(app_state.input(), "a");
    assert_eq!(app_state.cursor_byte_offset(), "a".len());

    app_state.handle_key(key_event(KeyCode::Home));
    app_state.handle_key(key_event(KeyCode::Right));
    app_state.handle_key(key_event(KeyCode::Char('中')));
    app_state.handle_key(key_event(KeyCode::End));
    assert_eq!(app_state.input(), "a中");
    assert_eq!(app_state.cursor_byte_offset(), "a中".len());
}

#[test]
fn printable_q_and_modified_character_rules_are_explicit() {
    let mut app_state = AppState::new("test-model");

    assert_eq!(
        app_state.handle_key(key_event(KeyCode::Char('q'))),
        AppAction::Continue
    );
    app_state.handle_key(modified_key_event(
        KeyCode::Char('x'),
        KeyModifiers::control(),
    ));
    app_state.handle_key(modified_key_event(KeyCode::Char('y'), KeyModifiers::alt()));
    app_state.handle_key(modified_key_event(KeyCode::Char('Z'), KeyModifiers::shift()));

    assert_eq!(app_state.input(), "qZ");
}

#[test]
fn enter_ignores_empty_input_and_preserves_draft_while_responding() {
    let mut app_state = AppState::new("test-model");

    assert_eq!(
        app_state.handle_key(key_event(KeyCode::Enter)),
        AppAction::Continue
    );

    app_state.handle_key(key_event(KeyCode::Char('d')));
    assert_eq!(
        app_state.handle_key(key_event(KeyCode::Enter)),
        AppAction::Submit("d".to_owned())
    );
    app_state.accept_submission("d".to_owned());

    app_state.handle_key(key_event(KeyCode::Char('r')));
    assert_eq!(
        app_state.handle_key(key_event(KeyCode::Enter)),
        AppAction::Continue
    );
    assert_eq!(app_state.input(), "r");
    assert!(app_state.is_responding());
}

#[test]
fn esc_clears_non_empty_draft_then_exits_when_empty() {
    let mut app_state = AppState::new("test-model");
    app_state.handle_key(key_event(KeyCode::Char('x')));

    assert_eq!(
        app_state.handle_key(key_event(KeyCode::Esc)),
        AppAction::Continue
    );
    assert_eq!(app_state.input(), "");
    assert_eq!(app_state.cursor_byte_offset(), 0);
    assert_eq!(
        app_state.handle_key(key_event(KeyCode::Esc)),
        AppAction::Exit
    );
}

#[test]
fn ctrl_c_exits_and_release_events_do_not_mutate_state() {
    let mut app_state = AppState::new("test-model");
    let mut release_event = key_event(KeyCode::Char('x'));
    release_event.kind = KeyEventKind::Release;

    assert_eq!(app_state.handle_key(release_event), AppAction::Continue);
    assert_eq!(app_state.input(), "");
    assert_eq!(
        app_state.handle_key(modified_key_event(
            KeyCode::Char('c'),
            KeyModifiers::control(),
        )),
        AppAction::Exit
    );
}

#[test]
fn accepted_submission_commits_all_state_together() {
    let mut app_state = AppState::new("test-model");
    for character in "  hello  ".chars() {
        app_state.handle_key(key_event(KeyCode::Char(character)));
    }
    app_state.handle_key(key_event(KeyCode::Left));
    let cursor_before_submission = app_state.cursor_byte_offset();
    let submitted_text = match app_state.handle_key(key_event(KeyCode::Enter)) {
        AppAction::Submit(submitted_text) => submitted_text,
        action => panic!("expected submission action, got {action:?}"),
    };

    assert_eq!(app_state.input(), "  hello  ");
    assert_eq!(app_state.cursor_byte_offset(), cursor_before_submission);
    assert!(app_state.messages().is_empty());

    app_state.accept_submission(submitted_text);

    assert_user_message(&app_state, "  hello  ");
    assert_eq!(app_state.input(), "");
    assert_eq!(app_state.cursor_byte_offset(), 0);
    assert_eq!(app_state.runtime_status(), &RuntimeStatus::Responding);
}

#[test]
fn rejected_submission_preserves_draft_cursor_and_messages() {
    let mut app_state = AppState::new("test-model");
    app_state.handle_key(key_event(KeyCode::Char('a')));
    app_state.handle_key(key_event(KeyCode::Char('é')));
    app_state.handle_key(key_event(KeyCode::Left));
    let input_before_rejection = app_state.input().to_owned();
    let cursor_before_rejection = app_state.cursor_byte_offset();

    app_state.reject_submission("queue is full".to_owned());

    assert_eq!(app_state.input(), input_before_rejection);
    assert_eq!(app_state.cursor_byte_offset(), cursor_before_rejection);
    assert!(app_state.messages().is_empty());
    assert_eq!(
        app_state.runtime_status(),
        &RuntimeStatus::Error("queue is full".to_owned())
    );
    assert!(!app_state.is_responding());
    assert_eq!(
        app_state.handle_key(key_event(KeyCode::Enter)),
        AppAction::Submit("aé".to_owned())
    );
}

#[test]
fn complete_runtime_events_append_one_ordered_assistant_message() {
    let mut app_state = AppState::new("test-model");
    app_state.accept_submission("request".to_owned());
    app_state.handle_harness_event(HarnessEvent::ResponseStarted);
    app_state.handle_harness_event(HarnessEvent::AssistantDelta("first ".to_owned()));
    app_state.handle_harness_event(HarnessEvent::AssistantDelta("second".to_owned()));

    assert!(app_state.is_responding());
    assert_eq!(app_state.messages().len(), 2);
    assert_eq!(app_state.messages()[1].role(), MessageRole::Assistant);
    assert_eq!(app_state.messages()[1].content(), "first second");

    app_state.handle_harness_event(HarnessEvent::ResponseFinished);

    assert_eq!(app_state.runtime_status(), &RuntimeStatus::Idle);
    assert!(!app_state.is_responding());
    assert!(app_state.active_assistant_message().is_none());
}

#[test]
fn runtime_error_keeps_partial_response_and_allows_recovery() {
    let mut app_state = AppState::new("test-model");
    app_state.accept_submission("first request".to_owned());
    app_state.handle_harness_event(HarnessEvent::ResponseStarted);
    app_state.handle_harness_event(HarnessEvent::AssistantDelta("partial".to_owned()));
    app_state.handle_harness_event(HarnessEvent::Error("runtime failed".to_owned()));

    assert_eq!(app_state.messages()[1].content(), "partial");
    assert_eq!(
        app_state.runtime_status(),
        &RuntimeStatus::Error("runtime failed".to_owned())
    );
    assert!(!app_state.is_responding());

    app_state.handle_key(key_event(KeyCode::Char('n')));
    let next_submission = match app_state.handle_key(key_event(KeyCode::Enter)) {
        AppAction::Submit(next_submission) => next_submission,
        action => panic!("expected recovery submission action, got {action:?}"),
    };
    app_state.accept_submission(next_submission);

    assert_eq!(app_state.runtime_status(), &RuntimeStatus::Responding);
    assert_eq!(app_state.messages()[0].content(), "first request");
    assert_eq!(app_state.messages()[2].content(), "n");
}

#[test]
fn runtime_error_before_response_started_unlocks_submission() {
    let mut app_state = AppState::new("test-model");
    app_state.accept_submission("first request".to_owned());

    app_state.handle_harness_event(HarnessEvent::Error("runtime failed".to_owned()));

    assert_eq!(
        app_state.runtime_status(),
        &RuntimeStatus::Error("runtime failed".to_owned())
    );
    assert!(!app_state.is_responding());
    assert_eq!(app_state.messages().len(), 1);
    assert_eq!(app_state.messages()[0].role(), MessageRole::User);
    assert_eq!(app_state.messages()[0].content(), "first request");

    app_state.accept_submission("second request".to_owned());

    assert_eq!(app_state.runtime_status(), &RuntimeStatus::Responding);
    assert_eq!(app_state.messages().len(), 2);
    assert_eq!(app_state.messages()[1].role(), MessageRole::User);
    assert_eq!(app_state.messages()[1].content(), "second request");
}

#[test]
fn stale_runtime_events_do_not_mutate_state() {
    let mut app_state = AppState::new("test-model");

    app_state.handle_harness_event(HarnessEvent::AssistantDelta("stale".to_owned()));
    app_state.handle_harness_event(HarnessEvent::ResponseFinished);
    app_state.handle_harness_event(HarnessEvent::Error("stale error".to_owned()));
    assert!(app_state.messages().is_empty());
    assert_eq!(app_state.runtime_status(), &RuntimeStatus::Idle);

    app_state.accept_submission("request".to_owned());
    app_state.handle_harness_event(HarnessEvent::ResponseStarted);
    app_state.handle_harness_event(HarnessEvent::ResponseFinished);
    let messages_after_finish = app_state.messages().to_owned();

    app_state.handle_harness_event(HarnessEvent::AssistantDelta("stale".to_owned()));
    app_state.handle_harness_event(HarnessEvent::ResponseStarted);
    app_state.handle_harness_event(HarnessEvent::Error("stale error".to_owned()));

    assert_eq!(app_state.messages(), messages_after_finish.as_slice());
    assert_eq!(app_state.runtime_status(), &RuntimeStatus::Idle);
}

#[test]
fn scroll_metrics_follow_bottom_and_manual_navigation_is_stable() {
    let mut app_state = AppState::new("test-model");
    app_state.update_conversation_metrics(20, 5);
    assert_eq!(app_state.top_wrapped_line_offset(), 15);
    assert!(app_state.is_auto_following());

    app_state.handle_key(key_event(KeyCode::PageUp));
    assert_eq!(app_state.top_wrapped_line_offset(), 10);
    assert!(!app_state.is_auto_following());

    app_state.update_conversation_metrics(30, 5);
    assert_eq!(app_state.top_wrapped_line_offset(), 10);
    app_state.handle_key(key_event(KeyCode::PageDown));
    assert_eq!(app_state.top_wrapped_line_offset(), 15);
    assert!(!app_state.is_auto_following());

    app_state.update_conversation_metrics(8, 5);
    assert_eq!(app_state.top_wrapped_line_offset(), 3);
    assert!(!app_state.is_auto_following());

    app_state.handle_key(key_event(KeyCode::PageDown));
    assert_eq!(app_state.top_wrapped_line_offset(), 3);
    assert!(!app_state.is_auto_following());

    app_state.update_conversation_metrics(40, 5);
    assert_eq!(app_state.top_wrapped_line_offset(), 3);
    app_state.handle_key(modified_key_event(KeyCode::End, KeyModifiers::control()));
    assert_eq!(app_state.top_wrapped_line_offset(), 35);
    assert!(app_state.is_auto_following());
}

#[test]
fn scroll_metrics_clamp_without_underflow_for_zero_sized_values() {
    let mut app_state = AppState::new("test-model");
    app_state.update_conversation_metrics(0, 0);
    assert_eq!(app_state.top_wrapped_line_offset(), 0);

    app_state.handle_key(key_event(KeyCode::PageDown));
    assert_eq!(app_state.top_wrapped_line_offset(), 0);
    assert!(!app_state.is_auto_following());

    app_state.update_conversation_metrics(4, 0);
    assert_eq!(app_state.top_wrapped_line_offset(), 0);

    app_state.handle_key(key_event(KeyCode::PageDown));
    assert_eq!(app_state.top_wrapped_line_offset(), 0);
    app_state.handle_key(modified_key_event(KeyCode::End, KeyModifiers::control()));
    assert_eq!(app_state.top_wrapped_line_offset(), 4);

    app_state.update_conversation_metrics(0, 4);
    assert_eq!(app_state.top_wrapped_line_offset(), 0);
    assert!(app_state.is_auto_following());
}

#[test]
fn editing_keys_undo_each_other() {
    let mut app_state = AppState::new("mock-runtime");
    for character in "aé界b".chars() {
        app_state.handle_key(key_event(KeyCode::Char(character)));
    }
    app_state.handle_key(key_event(KeyCode::Left));
    let before = app_state.clone();

    app_state.handle_key(key_event(KeyCode::Char('ß')));
    assert_ne!(app_state, before);
    app_state.handle_key(key_event(KeyCode::Backspace));
    assert_eq!(app_state, before);

    app_state.handle_key(key_event(KeyCode::Left));
    assert_ne!(app_state, before);
    app_state.handle_key(key_event(KeyCode::Right));
    assert_eq!(app_state, before);

    let mut other = before.clone();
    app_state.handle_key(key_event(KeyCode::Left));
    app_state.handle_key(key_event(KeyCode::Delete));
    other.handle_key(key_event(KeyCode::Backspace));
    assert_eq!(app_state, other);
    assert_eq!(app_state.input(), "aéb");
    assert_eq!(app_state.cursor_byte_offset(), 3);
}

#[test]
fn paging_up_and_down_returns_to_the_same_line() {
    let mut app_state = AppState::new("mock-runtime");
    app_state.update_conversation_metrics(50, 10);
    app_state.handle_key(key_event(KeyCode::PageUp));
    app_state.handle_key(key_event(KeyCode::PageUp));
    assert_eq!(app_state.top_wrapped_line_offset(), 20);
    app_state.handle_key(key_event(KeyCode::PageUp));
    app_state.handle_key(key_event(KeyCode::PageDown));
    assert_eq!(app_state.top_wrapped_line_offset(), 20);
}

#[test]
fn an_open_picker_owns_the_keys_but_not_control_c() {
    let mut app_state = AppState::with_model("current", "Current");
    app_state.handle_key(key_event(KeyCode::Char('d')));
    app_state.handle_key(modified_key_event(
        KeyCode::Char('p'),
        KeyModifiers::control(),
    ));
    for key_code in [
        KeyCode::Char('x'),
        KeyCode::Backspace,
        KeyCode::Left,
        KeyCode::Enter,
        KeyCode::PageUp,
    ] {
        assert_eq!(
            app_state.handle_key(key_event(key_code)),
            AppAction::Continue
        );
        assert_eq!(app_state.input(), "d");
        assert_eq!(app_state.cursor_byte_offset(), 1);
        assert!(app_state.is_auto_following());
    }
    assert_eq!(
        app_state.handle_key(modified_key_event(
            KeyCode::Char('C'),
            KeyModifiers::control()
        )),
        AppAction::Exit
    );
}

#[test]
fn a_failed_catalog_is_asked_for_again_but_not_while_responding() {
    let control_p = || modified_key_event(KeyCode::Char('P'), KeyModifiers::control());
    let mut app_state = AppState::with_model("current", "Current");
    app_state.handle_harness_event(HarnessEvent::CatalogFailed("offline".to_owned()));
    assert_eq!(
        app_state.model_picker().catalog_state(),
        &CatalogState::Failed("offline".to_owned())
    );
    assert_eq!(app_state.handle_key(control_p()), AppAction::OpenModelPicker);
    assert_eq!(
        app_state.model_picker().catalog_state(),
        &CatalogState::Loading
    );
    app_state.handle_key(key_event(KeyCode::Esc));
    assert!(!app_state.model_picker().is_open());

    app_state.accept_submission("request".to_owned());
    assert_eq!(app_state.handle_key(control_p()), AppAction::Continue);
    assert!(!app_state.model_picker().is_open());
    assert_eq!(app_state.input(), "");
}

#[test]
fn a_closed_event_channel_ends_an_awaited_response_only() {
    let mut app_state = AppState::new("mock-runtime");
    app_state.runtime_channel_closed();
    assert_eq!(app_state.runtime_status(), &RuntimeStatus::Idle);

    app_state.accept_submission("request".to_owned());
    app_state.runtime_channel_closed();
    assert_eq!(
        app_state.runtime_status(),
        &RuntimeStatus::Error("runtime event channel is closed".to_owned())
    );
}

#[test]
fn a_truncated_response_without_text_is_shown_and_no_longer_awaited() {
    let mut app_state = AppState::new("test-model");
    app_state.accept_submission("request".to_owned());
    app_state.handle_harness_event(HarnessEvent::ResponseTruncated);

    assert_eq!(app_state.runtime_status(), &RuntimeStatus::Truncated);
    assert!(!app_state.is_responding());
    assert_user_message(&app_state, "request");

    app_state.handle_key(key_event(KeyCode::Char('x')));
    assert_eq!(
        app_state.handle_key(key_event(KeyCode::Enter)),
        AppAction::Submit("x".to_owned())
    );
}

#[test]
fn a_truncation_that_nothing_awaits_changes_nothing() {
    let mut app_state = AppState::new("test-model");
    app_state.handle_harness_event(HarnessEvent::ResponseTruncated);

    assert_eq!(app_state.runtime_status(), &RuntimeStatus::Idle);
    assert!(app_state.messages().is_empty());
}
