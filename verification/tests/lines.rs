//! Wrapped conversation lines and the status line.

use nano::tui::app::{Message, MessageRole};
use nano::tui::conversation::{format_message_line, wrap_line, wrap_messages};
use nano::tui::layout::Rect;
use nano::tui::status_line::truncate_status_line;
use ratatui::text::Line;

fn wrapped_line_texts(messages: &[Message], width: u16) -> Vec<String> {
    let wrapped_lines = wrap_messages(messages, width);
    (0..wrapped_lines.len())
        .map(|line_index| {
            wrapped_lines
                .get(line_index)
                .expect("line index should be within wrapped lines")
                .to_string()
        })
        .collect()
}

#[test]
fn prose_wraps_at_word_boundaries() {
    let mut wrapped_lines = Vec::new();

    wrap_line("some that", 8, &mut wrapped_lines);

    assert_eq!(wrapped_lines, ["some", "that"]);
}

#[test]
fn overlong_words_still_break_within_width() {
    let mut wrapped_lines = Vec::new();

    wrap_line("abcdefgh", 3, &mut wrapped_lines);

    assert_eq!(wrapped_lines, ["abc", "def", "gh"]);
}

#[test]
fn unicode_line_breaks_respect_display_width() {
    let mut wrapped_lines = Vec::new();

    wrap_line("日本語東京", 6, &mut wrapped_lines);

    assert_eq!(wrapped_lines, ["日本語", "東京"]);
    assert!(wrapped_lines
        .iter()
        .all(|line| Line::from(line.as_str()).width() <= 6));
}

#[test]
fn explicit_empty_lines_and_zero_width_are_preserved() {
    let messages = [Message::new(MessageRole::User, "\nsecond\n".to_owned())];

    assert_eq!(wrapped_line_texts(&messages, 10), ["You:", "second", ""]);
    assert!(wrap_messages(&messages, 0).lines.is_empty());
}

#[test]
fn role_prefix_only_applies_to_the_first_content_line() {
    let messages = [Message::new(
        MessageRole::Assistant,
        "first\nsecond".to_owned(),
    )];

    assert_eq!(
        wrapped_line_texts(&messages, 20),
        ["Assistant: first", "second"]
    );
}

#[test]
fn short_and_exact_fit_status_lines_are_unchanged() {
    assert_eq!(truncate_status_line("idle", 10), "idle");
    assert_eq!(truncate_status_line("exact", 5), "exact");
}

#[test]
fn ascii_status_lines_are_marked_when_truncated() {
    assert_eq!(truncate_status_line("abcdefghijk", 8), "abcde...");
}

#[test]
fn unicode_truncation_keeps_double_width_graphemes_together() {
    let truncated = truncate_status_line("a👨‍👩‍👧‍👦bcdx", 6);

    assert_eq!(truncated, "a👨‍👩‍👧‍👦...");
    assert_eq!(Line::from(truncated.as_str()).width(), 6);
}

#[test]
fn tiny_widths_use_a_safe_grapheme_prefix() {
    assert_eq!(truncate_status_line("abcdef", 0), "");
    assert_eq!(truncate_status_line("abcdef", 1), "a");
    assert_eq!(truncate_status_line("abcdef", 2), "ab");
    assert_eq!(truncate_status_line("界abcdef", 1), "");
    assert_eq!(truncate_status_line("界abcdef", 2), "界");
}

#[test]
fn messages_are_separated_by_one_empty_line() {
    let messages = [
        Message::new(MessageRole::User, "question".to_owned()),
        Message::new(MessageRole::Assistant, String::new()),
    ];

    assert_eq!(
        wrapped_line_texts(&messages, 40),
        ["You: question", "", "Assistant:"]
    );
}

#[test]
fn later_lines_of_a_message_have_no_label() {
    assert_eq!(format_message_line(MessageRole::User, "text", 0), "You: text");
    assert_eq!(format_message_line(MessageRole::Assistant, "", 0), "Assistant:");
    assert_eq!(format_message_line(MessageRole::Assistant, "text", 1), "text");
    assert_eq!(format_message_line(MessageRole::User, "", 3), "");
}

#[test]
fn areas_are_cut_off_where_coordinates_end() {
    let area = Rect::new(65_530, 1, 20, 2);
    assert_eq!((area.x, area.y, area.width, area.height), (65_530, 1, 5, 2));
    assert!(Rect::new(0, 0, 0, 3).is_empty());
    assert!(!Rect::new(0, 0, 1, 1).is_empty());
}
