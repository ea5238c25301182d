//! The drawn interface and the commands that its keys send.

use ratatui::backend::TestBackend;
use ratatui::style::{Color, Style};
use ratatui::text::{Line, Span};
use ratatui::widgets::{Block, Borders, Clear, Paragraph};
use ratatui::{Frame, Terminal};
use tokio::sync::mpsc;

use nano::provider::{ModelLimits, ModelMetadata, Usage};
use nano::runtime::{HarnessEvent, RuntimeCommand};
use nano::tui::app::{AppAction, AppState, RuntimeStatus};
use nano::tui::conversation::wrap_messages;
use nano::tui::dispatch::{planned_command, settle_action, EnqueueOutcome};
use nano::tui::keys::{KeyCode, KeyEvent, KeyModifiers};
use nano::tui::layout::Rect;
use nano::tui::{input, render, Scene};

fn area(area: Rect) -> ratatui::layout::Rect {
    ratatui::layout::Rect {
        x: area.x,
        y: area.y,
        width: area.width,
        height: area.height,
    }
}

fn lines(texts: &[String]) -> Vec<Line<'_>> {
    texts.iter().map(|text| Line::from(text.as_str())).collect()
}

fn paint(frame: &mut Frame, scene: &Scene) {
    if let Some(conversation) = &scene.conversation {
        frame.render_widget(
            Paragraph::new(lines(&conversation.lines)).scroll((conversation.scroll, 0)),
            area(conversation.area),
        );
    }
    if let Some(status) = &scene.status {
        frame.render_widget(Paragraph::new(status.text.as_str()), area(status.area));
    }
    if let Some(input) = &scene.input {
        frame.render_widget(Line::from(input.text.as_str()), area(input.area));
        frame.set_cursor_position((input.cursor_x, input.cursor_y));
    }
    let Some(picker) = &scene.picker else {
        return;
    };
    frame.render_widget(Clear, area(picker.modal));
    frame.render_widget(
        Block::default().borders(Borders::ALL).title(" Models "),
        area(picker.modal),
    );
    let Some(body) = &picker.body else {
        return;
    };
    frame.render_widget(
        Paragraph::new(body.search_text.as_str()),
        area(body.search_area),
    );
    frame.set_cursor_position((body.cursor_x, body.cursor_y));
    if let Some(content) = &body.content {
        let mut content_lines = Vec::new();
        if let Some(error) = &content.error {
            content_lines.push(Line::from(Span::styled(
                error.as_str(),
                Style::default().fg(Color::Red),
            )));
        }
        content_lines.extend(lines(&content.lines));
        frame.render_widget(
            Paragraph::new(content_lines).scroll((content.scroll, 0)),
            area(content.area),
        );
    }
    if let Some((footer_area, footer)) = &body.footer {
        frame.render_widget(Paragraph::new(footer.as_str()), area(*footer_area));
    }
}

fn draw(terminal: &mut Terminal<TestBackend>, app_state: &mut AppState) {
    terminal
        .draw(|frame| {
            let frame_area = frame.area();
            let scene = render(
                Rect::new(
                    frame_area.x,
                    frame_area.y,
                    frame_area.width,
                    frame_area.height,
                ),
                app_state,
            );
            paint(frame, &scene);
        })
        .expect("TestBackend drawing should succeed");
}

fn resize(terminal: &mut Terminal<TestBackend>, width: u16, height: u16) {
    terminal.backend_mut().resize(width, height);
    terminal
        .resize(ratatui::layout::Rect::new(0, 0, width, height))
        .expect("TestBackend resizing should succeed");
}

fn buffer_line(terminal: &Terminal<TestBackend>, row: u16) -> String {
    let buffer = terminal.backend().buffer();
    let mut line = String::new();
    for column in 0..buffer.area.width {
        line.push_str(buffer[(column, row)].symbol());
    }
    line
}

fn buffer_text(terminal: &Terminal<TestBackend>) -> String {
    let buffer = terminal.backend().buffer();
    (0..buffer.area.height)
        .map(|row| buffer_line(terminal, row))
        .collect::<Vec<_>>()
        .join("\n")
}

fn key_event(key_code: KeyCode) -> KeyEvent {
    KeyEvent::new(key_code, KeyModifiers::none())
}

fn control_key(character: char) -> KeyEvent {
    KeyEvent::new(KeyCode::Char(character), KeyModifiers::control())
}

fn type_input(app_state: &mut AppState, input: &str) {
    for character in input.chars() {
        app_state.handle_key(key_event(KeyCode::Char(character)));
    }
}

fn settled_conversation() -> AppState {
    let mut app_state = AppState::with_model("mock-runtime", "mock-runtime");
    app_state.accept_submission("hello from user".to_owned());
    app_state.handle_harness_event(HarnessEvent::ResponseStarted);
    app_state.handle_harness_event(HarnessEvent::AssistantDelta(
        "hello from assistant".to_owned(),
    ));
    app_state.handle_harness_event(HarnessEvent::Usage(Usage {
        input_tokens: 24,
        cached_input_tokens: 8,
        output_tokens: 16,
    }));
    app_state.handle_harness_event(HarnessEvent::ResponseFinished);
    app_state
}

fn model_metadata(
    model_id: &str,
    display_name: &str,
    prompt_price: Option<&str>,
    completion_price: Option<&str>,
) -> ModelMetadata {
    ModelMetadata {
        model_id: model_id.to_owned(),
        display_name: display_name.to_owned(),
        limits: ModelLimits {
            context_window_tokens: 16_384,
            maximum_output_tokens: Some(2_048),
        },
        prompt_price_usd_per_million_tokens: prompt_price.map(str::to_owned),
        completion_price_usd_per_million_tokens: completion_price.map(str::to_owned),
    }
}

fn dispatch_action(
    app_state: &mut AppState,
    command_sender: &mpsc::Sender<RuntimeCommand>,
    key_event: KeyEvent,
) -> bool {
    nano::tui::dispatch::dispatch_action(app_state, key_event, |command| {
        match command_sender.try_send(command) {
            Ok(()) => EnqueueOutcome::Sent,
            Err(mpsc::error::TrySendError::Full(_)) => EnqueueOutcome::Full,
            Err(mpsc::error::TrySendError::Closed(_)) => EnqueueOutcome::Closed,
        }
    })
}

fn settled_app_state() -> AppState {
    let mut app_state = AppState::with_model("mock-runtime", "mock-runtime");
    app_state.accept_submission("existing request".to_owned());
    app_state.handle_harness_event(HarnessEvent::ResponseStarted);
    app_state.handle_harness_event(HarnessEvent::AssistantDelta(
        "existing response".to_owned(),
    ));
    app_state.handle_harness_event(HarnessEvent::ResponseFinished);
    app_state
}

#[test]
fn normal_render_projects_conversation_status_input_and_utf8_cursor() {
    let mut terminal = Terminal::new(TestBackend::new(40, 8)).unwrap();
    let mut app_state = settled_conversation();
    type_input(&mut app_state, "aé界");

    draw(&mut terminal, &mut app_state);

    let text = buffer_text(&terminal);
    assert!(text.contains("You: hello from user"));
    assert!(text.contains("Assistant: hello from assistant"));
    assert!(text.contains("model: mock-runtime | idle"));
    assert!(text.contains("> aé界"));
    assert_eq!(app_state.runtime_status(), &RuntimeStatus::Idle);
    assert_eq!(app_state.content_lines(), 3);
    assert_eq!(app_state.viewport_height(), 6);
    assert!(terminal.backend().cursor_visible());
    assert_eq!(terminal.backend().cursor_position(), (6, 7).into());
}

#[test]
fn completed_usage_is_rendered_with_exact_raw_counts() {
    let mut terminal = Terminal::new(TestBackend::new(80, 4)).unwrap();
    let mut app_state = settled_conversation();

    draw(&mut terminal, &mut app_state);

    assert!(buffer_line(&terminal, 2)
        .contains("model: mock-runtime | idle | in 24 | cache 8 | out 16"));
}

#[test]
fn responding_and_error_statuses_are_rendered_without_token_placeholders() {
    let mut terminal = Terminal::new(TestBackend::new(80, 4)).unwrap();
    let mut app_state = AppState::with_model("mock-runtime", "mock-runtime");
    app_state.accept_submission("request".to_owned());

    draw(&mut terminal, &mut app_state);
    assert!(buffer_line(&terminal, 2).contains("model: mock-runtime | responding"));
    assert!(!buffer_text(&terminal).contains("ctx"));
    assert!(!buffer_text(&terminal).contains("cache"));
    assert!(!buffer_text(&terminal).contains("out"));

    app_state.handle_harness_event(HarnessEvent::Usage(Usage {
        input_tokens: 12,
        cached_input_tokens: 4,
        output_tokens: 8,
    }));
    app_state.handle_harness_event(HarnessEvent::Error("runtime failed".to_owned()));
    draw(&mut terminal, &mut app_state);
    assert!(buffer_line(&terminal, 2)
        .contains("model: mock-runtime | error: runtime failed | in 12 | cache 4 | out 8"));
}

#[test]
fn length_limited_status_is_visible_and_retry_starts_without_old_usage() {
    let mut terminal = Terminal::new(TestBackend::new(80, 6)).unwrap();
    let mut app_state = AppState::with_model("mock-runtime", "mock-runtime");
    app_state.accept_submission("request".to_owned());
    app_state.handle_harness_event(HarnessEvent::ResponseStarted);
    app_state.handle_harness_event(HarnessEvent::AssistantDelta("partial".to_owned()));
    app_state.handle_harness_event(HarnessEvent::Usage(Usage {
        input_tokens: 42,
        cached_input_tokens: 17,
        output_tokens: 99,
    }));
    app_state.handle_harness_event(HarnessEvent::ResponseTruncated);

    draw(&mut terminal, &mut app_state);

    assert!(buffer_text(&terminal).contains("Assistant: partial"));
    assert!(buffer_line(&terminal, 4).contains(
        "model: mock-runtime | truncated: output length limit | in 42 | cache 17 | out 99"
    ));

    app_state.accept_submission("retry".to_owned());
    draw(&mut terminal, &mut app_state);

    assert!(buffer_line(&terminal, 4).contains("model: mock-runtime | responding"));
    assert!(!buffer_text(&terminal).contains("| in 42 | cache 17 | out 99"));
    assert!(buffer_text(&terminal).contains("Assistant: partial"));
}

#[test]
fn truncated_status_stays_one_row_at_narrow_dimensions() {
    let mut terminal = Terminal::new(TestBackend::new(20, 4)).unwrap();
    let mut app_state = AppState::with_model("mock-runtime", "mock-runtime");
    app_state.accept_submission("request".to_owned());
    app_state.handle_harness_event(HarnessEvent::Usage(Usage {
        input_tokens: 100,
        cached_input_tokens: 50,
        output_tokens: 200,
    }));
    app_state.handle_harness_event(HarnessEvent::ResponseTruncated);

    draw(&mut terminal, &mut app_state);

    let status_line = buffer_line(&terminal, 2);
    assert_eq!(status_line.chars().count(), 20);
    assert_eq!(status_line.trim_end(), "model: mock-runti...");
}

#[test]
fn long_error_status_is_marked_without_affecting_the_input_row() {
    let mut terminal = Terminal::new(TestBackend::new(36, 4)).unwrap();
    let mut app_state = AppState::with_model("mock-runtime", "mock-runtime");
    type_input(&mut app_state, "draft");
    app_state.reject_submission("runtime failure with a deliberately long message".to_owned());

    draw(&mut terminal, &mut app_state);

    let status_line = buffer_line(&terminal, 2);
    assert_eq!(status_line.chars().count(), 36);
    assert!(status_line.trim_end().ends_with("..."));
    assert!(!status_line.contains("deliberately long message"));
    assert_eq!(buffer_line(&terminal, 3).trim_end(), "> draft");
}

#[test]
fn wrapping_measurement_and_manual_scroll_use_the_same_lines() {
    let mut terminal = Terminal::new(TestBackend::new(12, 8)).unwrap();
    let mut app_state = AppState::with_model("mock-runtime", "mock-runtime");
    app_state.accept_submission("abcdefghijklmnopqrstuvwxyzabcdefghijklmnopqrstuvwxyz".to_owned());
    app_state.handle_harness_event(HarnessEvent::ResponseStarted);
    app_state.handle_harness_event(HarnessEvent::AssistantDelta(
        "0123456789012345678901234567890123456789".to_owned(),
    ));

    draw(&mut terminal, &mut app_state);

    let wrapped_lines = wrap_messages(app_state.messages(), 12);
    assert_eq!(app_state.content_lines(), wrapped_lines.len());
    assert_eq!(app_state.viewport_height(), 6);
    assert_eq!(
        app_state.top_wrapped_line_offset(),
        wrapped_lines.len().saturating_sub(6)
    );
    assert_eq!(
        buffer_line(&terminal, 0).trim_end(),
        wrapped_lines
            .get(app_state.top_wrapped_line_offset())
            .expect("the auto-follow offset should point at a rendered line")
            .to_string()
    );

    app_state.handle_key(key_event(KeyCode::PageUp));
    app_state.handle_key(key_event(KeyCode::PageDown));
    let manual_offset = app_state.top_wrapped_line_offset();
    assert!(!app_state.is_auto_following());
    assert!(manual_offset > 0);
    draw(&mut terminal, &mut app_state);
    assert_eq!(app_state.top_wrapped_line_offset(), manual_offset);

    app_state.handle_harness_event(HarnessEvent::AssistantDelta(
        " additional streamed content that grows the response".to_owned(),
    ));
    draw(&mut terminal, &mut app_state);
    assert_eq!(app_state.top_wrapped_line_offset(), manual_offset);
    let wrapped_lines_after_growth = wrap_messages(app_state.messages(), 12);
    assert!(
        buffer_line(&terminal, 0).trim_end()
            == wrapped_lines_after_growth
                .get(manual_offset)
                .expect("the manual offset should point at a rendered line")
                .to_string()
    );

    resize(&mut terminal, 5, 4);
    draw(&mut terminal, &mut app_state);
    assert_eq!(app_state.top_wrapped_line_offset(), manual_offset);
    assert_eq!(
        app_state.content_lines(),
        wrap_messages(app_state.messages(), 5).len()
    );

    resize(&mut terminal, 60, 8);
    draw(&mut terminal, &mut app_state);
    let clamped_offset = app_state
        .content_lines()
        .saturating_sub(app_state.viewport_height());
    assert_eq!(clamped_offset, 0);
    assert_eq!(app_state.top_wrapped_line_offset(), 0);
}

#[test]
fn status_and_input_take_priority_when_only_two_rows_are_available() {
    let mut terminal = Terminal::new(TestBackend::new(30, 2)).unwrap();
    let mut app_state = settled_conversation();
    type_input(&mut app_state, "draft");

    draw(&mut terminal, &mut app_state);

    assert!(buffer_line(&terminal, 0).contains("model: mock-runtime | idle"));
    assert!(buffer_line(&terminal, 1).starts_with("> draft"));
    assert_eq!(app_state.viewport_height(), 0);
}

#[test]
fn tiny_and_zero_sized_terminals_do_not_panic_or_change_app_content() {
    let mut terminal = Terminal::new(TestBackend::new(20, 6)).unwrap();
    let mut app_state = settled_conversation();
    type_input(&mut app_state, "draft");
    app_state.reject_submission("temporary error".to_owned());

    let expected_messages = app_state.messages().to_owned();
    let expected_input = app_state.input().to_owned();
    let expected_cursor = app_state.cursor_byte_offset();
    let expected_status = app_state.runtime_status().clone();

    for (width, height) in [(1, 2), (2, 2), (1, 1), (0, 1), (2, 0), (0, 0)] {
        resize(&mut terminal, width, height);
        draw(&mut terminal, &mut app_state);

        assert_eq!(app_state.messages(), expected_messages.as_slice());
        assert_eq!(app_state.input(), expected_input);
        assert_eq!(app_state.cursor_byte_offset(), expected_cursor);
        assert_eq!(app_state.runtime_status(), &expected_status);
    }

    resize(&mut terminal, 20, 6);
    draw(&mut terminal, &mut app_state);
    assert_eq!(app_state.messages(), expected_messages.as_slice());
    assert_eq!(app_state.input(), expected_input);
    assert_eq!(app_state.cursor_byte_offset(), expected_cursor);
    assert_eq!(app_state.runtime_status(), &expected_status);
    assert!(buffer_text(&terminal).contains("You: hello from user"));
}

#[test]
fn empty_conversation_is_renderable_at_narrow_dimensions() {
    let mut terminal = Terminal::new(TestBackend::new(1, 1)).unwrap();
    let mut app_state = AppState::with_model("mock-runtime", "mock-runtime");

    draw(&mut terminal, &mut app_state);

    assert_eq!(buffer_line(&terminal, 0), ">");
    assert_eq!(terminal.backend().cursor_position(), (0, 0).into());
    assert!(terminal.backend().cursor_visible());
    assert_eq!(app_state.content_lines(), 0);
    assert_eq!(app_state.viewport_height(), 0);
}

#[test]
fn picker_overlay_renders_loading_search_and_owns_the_cursor() {
    let mut terminal = Terminal::new(TestBackend::new(60, 8)).unwrap();
    let mut app_state = AppState::with_model("current-id", "Current model");
    app_state.handle_key(control_key('p'));
    type_input(&mut app_state, "draft");
    draw(&mut terminal, &mut app_state);

    let text = buffer_text(&terminal);
    assert!(text.contains("Models"));
    assert!(text.contains("Search: "));
    assert!(text.contains("Loading models..."));
    assert!(text.contains("Enter select"));
    assert_eq!(app_state.input(), "");
    assert!(terminal.backend().cursor_position().y < 7);
}

#[test]
fn picker_overlay_renders_sorted_rows_metadata_prices_and_search_filter() {
    let mut terminal = Terminal::new(TestBackend::new(100, 10)).unwrap();
    let mut app_state = AppState::with_model("current-id", "Current model");
    app_state.handle_key(control_key('p'));
    app_state.handle_harness_event(HarnessEvent::CatalogLoaded(vec![
        model_metadata("z-id", "Zulu", None, None),
        model_metadata("current-id", "Current model", Some("0.10"), Some("0.40")),
        model_metadata("alpha-id", "Alpha", Some("0.15"), Some("0.60")),
    ]));
    draw(&mut terminal, &mut app_state);

    let text = buffer_text(&terminal);
    assert!(text.contains("Current model | current-id | ctx 16384 | in $0.10/M | out $0.40/M"));
    assert!(text.contains("Alpha | alpha-id | ctx 16384 | in $0.15/M | out $0.60/M"));
    assert!(text.contains("Zulu | z-id | ctx 16384 | in unknown | out unknown"));

    for character in "alpha".chars() {
        app_state.handle_key(key_event(KeyCode::Char(character)));
    }
    draw(&mut terminal, &mut app_state);
    let filtered_text = buffer_text(&terminal);
    assert!(filtered_text.contains("Search: alpha"));
    assert!(filtered_text.contains("Alpha | alpha-id"));
    assert!(!filtered_text.contains("Zulu | z-id"));
    assert!(filtered_text.contains('>'));
}

#[test]
fn picker_overlay_renders_failure_and_pending_selection_without_fallback() {
    let mut terminal = Terminal::new(TestBackend::new(80, 8)).unwrap();
    let alternate_model = model_metadata("alternate-id", "Alternate", None, None);
    let mut app_state = AppState::with_model("current-id", "Current model");
    app_state.handle_key(control_key('p'));
    app_state.handle_harness_event(HarnessEvent::CatalogLoaded(vec![alternate_model.clone()]));
    app_state.accept_model_selection("alternate-id".to_owned());
    draw(&mut terminal, &mut app_state);
    assert!(buffer_text(&terminal).contains("Waiting for runtime selection..."));
    assert!(buffer_text(&terminal).contains("Alternate | alternate-id"));
    assert_eq!(app_state.model_id(), "current-id");

    app_state.handle_harness_event(HarnessEvent::ModelSelectionFailed(
        "selection\nrejected".to_owned(),
    ));
    draw(&mut terminal, &mut app_state);
    assert!(buffer_text(&terminal).contains("Error: selection rejected"));
    assert!(app_state.model_picker().is_open());
    assert_eq!(app_state.model_id(), "current-id");

    app_state.accept_model_selection("alternate-id".to_owned());
    app_state.handle_harness_event(HarnessEvent::ModelSelected(alternate_model));
    draw(&mut terminal, &mut app_state);
    assert!(!app_state.model_picker().is_open());
    assert_eq!(app_state.model_id(), "alternate-id");
    assert!(!buffer_text(&terminal).contains("Waiting for runtime selection"));
}

#[test]
fn picker_overlay_is_safe_at_tiny_and_zero_sized_dimensions() {
    let mut terminal = Terminal::new(TestBackend::new(20, 6)).unwrap();
    let mut app_state = AppState::with_model("current-id", "Current model");
    app_state.handle_key(control_key('p'));
    app_state.handle_harness_event(HarnessEvent::CatalogLoaded(vec![model_metadata(
        "model-id",
        "Model",
        Some("0.1"),
        Some("0.2"),
    )]));

    for (width, height) in [(1, 2), (2, 2), (1, 1), (0, 1), (2, 0), (0, 0)] {
        resize(&mut terminal, width, height);
        draw(&mut terminal, &mut app_state);
    }

    resize(&mut terminal, 20, 6);
    draw(&mut terminal, &mut app_state);
    assert!(buffer_text(&terminal).contains("Models"));
    assert_eq!(app_state.model_id(), "current-id");
}

#[test]
fn full_enqueue_preserves_state_and_allows_retry() {
    let (command_sender, mut command_receiver) = mpsc::channel(1);
    command_sender
        .try_send(RuntimeCommand::Submit("already queued".to_owned()))
        .expect("the test command should fill the bounded channel");

    let mut app_state = settled_app_state();
    type_input(&mut app_state, "retry");
    let messages_before_rejection = app_state.messages().to_owned();

    assert!(dispatch_action(
        &mut app_state,
        &command_sender,
        key_event(KeyCode::Enter),
    ));

    assert_eq!(app_state.messages(), messages_before_rejection.as_slice());
    assert_eq!(app_state.input(), "retry");
    assert!(matches!(
        app_state.runtime_status(),
        RuntimeStatus::Error(error) if error.contains("full")
    ));

    assert_eq!(
        command_receiver.try_recv(),
        Ok(RuntimeCommand::Submit("already queued".to_owned()))
    );
    assert!(dispatch_action(
        &mut app_state,
        &command_sender,
        key_event(KeyCode::Enter),
    ));
    assert_eq!(
        command_receiver.try_recv(),
        Ok(RuntimeCommand::Submit("retry".to_owned()))
    );
    assert_eq!(app_state.input(), "");
    assert!(app_state.is_responding());
}

#[test]
fn closed_enqueue_preserves_state_and_exit_remains_available() {
    let (command_sender, command_receiver) = mpsc::channel(1);
    drop(command_receiver);

    let mut app_state = settled_app_state();
    type_input(&mut app_state, "draft");
    let messages_before_rejection = app_state.messages().to_owned();

    assert!(dispatch_action(
        &mut app_state,
        &command_sender,
        key_event(KeyCode::Enter),
    ));
    assert_eq!(app_state.messages(), messages_before_rejection.as_slice());
    assert_eq!(app_state.input(), "draft");
    assert!(matches!(
        app_state.runtime_status(),
        RuntimeStatus::Error(error) if error.contains("closed")
    ));

    assert!(dispatch_action(
        &mut app_state,
        &command_sender,
        key_event(KeyCode::Enter),
    ));
    assert_eq!(app_state.input(), "draft");
    assert!(!dispatch_action(
        &mut app_state,
        &command_sender,
        control_key('c'),
    ));
}

#[test]
fn picker_actions_enqueue_runtime_commands_and_wait_for_selection_acknowledgment() {
    let (command_sender, mut command_receiver) = mpsc::channel(4);
    let alternate_model =
        model_metadata("alternate-id", "Alternate model", Some("0.10"), Some("0.40"));
    let mut app_state = AppState::with_model("current-id", "Current model");
    type_input(&mut app_state, "draft");

    assert!(dispatch_action(
        &mut app_state,
        &command_sender,
        control_key('p'),
    ));
    assert_eq!(
        command_receiver.try_recv(),
        Ok(RuntimeCommand::DiscoverModels)
    );
    app_state.handle_harness_event(HarnessEvent::CatalogLoaded(vec![alternate_model.clone()]));

    assert!(dispatch_action(
        &mut app_state,
        &command_sender,
        key_event(KeyCode::Enter),
    ));
    assert_eq!(
        command_receiver.try_recv(),
        Ok(RuntimeCommand::SelectModel("alternate-id".to_owned()))
    );
    assert_eq!(app_state.model_id(), "current-id");
    assert_eq!(app_state.input(), "draft");
    assert_eq!(
        app_state.model_picker().pending_model_id(),
        Some("alternate-id")
    );
    assert!(app_state.model_picker().is_open());

    app_state.handle_harness_event(HarnessEvent::ModelSelected(alternate_model));
    assert_eq!(app_state.model_id(), "alternate-id");
    assert_eq!(app_state.model_name(), "Alternate model");
    assert_eq!(app_state.input(), "draft");
    assert!(!app_state.model_picker().is_open());
}

#[test]
fn picker_enqueue_rejection_preserves_selection_and_draft() {
    let (command_sender, mut command_receiver) = mpsc::channel(1);
    let alternate_model =
        model_metadata("alternate-id", "Alternate model", Some("0.10"), Some("0.40"));
    let mut app_state = AppState::with_model("current-id", "Current model");
    type_input(&mut app_state, "draft");
    dispatch_action(&mut app_state, &command_sender, control_key('p'));
    command_receiver
        .try_recv()
        .expect("discovery command should be queued");
    app_state.handle_harness_event(HarnessEvent::CatalogLoaded(vec![alternate_model]));
    command_sender
        .try_send(RuntimeCommand::Submit("already queued".to_owned()))
        .expect("the test command should fill the queue");

    assert!(dispatch_action(
        &mut app_state,
        &command_sender,
        key_event(KeyCode::Enter),
    ));
    assert_eq!(app_state.model_id(), "current-id");
    assert_eq!(app_state.input(), "draft");
    assert!(app_state.model_picker().is_open());
    assert_eq!(app_state.model_picker().pending_model_id(), None);
    assert!(matches!(
        app_state.model_picker().error(),
        Some(error) if error.contains("full")
    ));
}

#[test]
fn picker_open_rejection_is_local_to_the_open_modal() {
    let (command_sender, command_receiver) = mpsc::channel(1);
    drop(command_receiver);
    let mut app_state = AppState::with_model("current-id", "Current model");
    type_input(&mut app_state, "draft");

    assert!(dispatch_action(
        &mut app_state,
        &command_sender,
        control_key('p'),
    ));
    assert!(app_state.model_picker().is_open());
    assert_eq!(app_state.model_id(), "current-id");
    assert_eq!(app_state.input(), "draft");
    assert!(matches!(
        app_state.model_picker().error(),
        Some(error) if error.contains("closed")
    ));
}

#[test]
fn successful_enqueue_commits_submission_once() {
    let (command_sender, mut command_receiver) = mpsc::channel(1);
    let mut app_state = AppState::with_model("mock-runtime", "mock-runtime");
    type_input(&mut app_state, "hello");

    assert!(dispatch_action(
        &mut app_state,
        &command_sender,
        key_event(KeyCode::Enter),
    ));

    assert_eq!(
        command_receiver.try_recv(),
        Ok(RuntimeCommand::Submit("hello".to_owned()))
    );
    assert_eq!(app_state.input(), "");
    assert!(app_state.is_responding());
    assert!(command_receiver.try_recv().is_err());
}

#[test]
fn responding_enter_does_not_enqueue_or_clear_next_draft() {
    let (command_sender, mut command_receiver) = mpsc::channel(1);
    let mut app_state = AppState::with_model("mock-runtime", "mock-runtime");
    app_state.accept_submission("first request".to_owned());
    type_input(&mut app_state, "second request");

    assert!(dispatch_action(
        &mut app_state,
        &command_sender,
        key_event(KeyCode::Enter),
    ));

    assert_eq!(app_state.input(), "second request");
    assert!(app_state.is_responding());
    assert!(command_receiver.try_recv().is_err());
}

#[test]
fn an_enqueued_submission_is_sent_once_and_shown() {
    let (command_sender, mut command_receiver) = mpsc::channel(2);
    let mut app_state = AppState::with_model("mock-runtime", "mock-runtime");
    type_input(&mut app_state, "hello");

    assert!(dispatch_action(
        &mut app_state,
        &command_sender,
        key_event(KeyCode::Enter),
    ));
    type_input(&mut app_state, "second request");
    assert!(dispatch_action(
        &mut app_state,
        &command_sender,
        key_event(KeyCode::Enter),
    ));

    assert_eq!(
        command_receiver.try_recv(),
        Ok(RuntimeCommand::Submit("hello".to_owned()))
    );
    assert!(command_receiver.try_recv().is_err());
    assert_eq!(app_state.messages().len(), 1);
    assert_eq!(app_state.input(), "second request");
    assert!(app_state.is_responding());
}

#[test]
fn actions_without_a_command_change_nothing() {
    let mut app_state = settled_app_state();
    type_input(&mut app_state, "draft");
    for action in [AppAction::Continue, AppAction::Exit] {
        assert_eq!(planned_command(&action), None);
        settle_action(&mut app_state, action, EnqueueOutcome::Closed);
        assert_eq!(app_state.input(), "draft");
        assert_eq!(app_state.runtime_status(), &RuntimeStatus::Idle);
        assert_eq!(app_state.messages().len(), 2);
    }
}

#[test]
fn keys_without_a_command_enqueue_nothing() {
    let mut app_state = AppState::with_model("mock-runtime", "mock-runtime");
    app_state.accept_submission("first request".to_owned());
    for (key, goes_on) in [
        (key_event(KeyCode::Char('x')), true),
        (key_event(KeyCode::Left), true),
        (key_event(KeyCode::Enter), true),
        (control_key('c'), false),
    ] {
        assert_eq!(
            nano::tui::dispatch::dispatch_action(&mut app_state, key, |command| {
                panic!("{command:?} should not be enqueued")
            }),
            goes_on
        );
    }
    assert_eq!(app_state.input(), "x");
    assert!(app_state.is_responding());
}

#[test]
fn long_input_scrolls_so_that_the_cursor_stays_visible() {
    let scene = |text: &str, cursor: usize, width: u16| {
        let scene = input::render(Rect::new(3, 4, width, 2), text, cursor)
            .expect("the input line should be shown");
        assert_eq!((scene.area.x, scene.area.y, scene.area.height), (3, 4, 1));
        assert_eq!(scene.cursor_y, 4);
        (scene.text, scene.cursor_x)
    };

    assert_eq!(scene("abcdef", 6, 10), ("> abcdef".to_owned(), 11));
    assert_eq!(scene("abcdefghij", 10, 6), ("> hij".to_owned(), 8));
    assert_eq!(scene("abcdefghij", 0, 6), ("> abcd".to_owned(), 5));
    assert_eq!(scene("日本語", 9, 6), ("> 語".to_owned(), 7));
    assert_eq!(scene("日本語", 4, 6), ("> 日本".to_owned(), 7));
    assert_eq!(scene("abc", 99, 8), ("> abc".to_owned(), 8));
    assert_eq!(scene("abc", 3, 2), ("> ".to_owned(), 4));
    assert_eq!(scene("abc", 3, 1), (">".to_owned(), 3));
    assert!(input::render(Rect::new(0, 0, 0, 1), "abc", 0).is_none());
}

#[test]
fn the_regions_of_a_frame_fill_it() {
    let mut app_state = settled_conversation();
    let scene = render(Rect::new(2, 3, 20, 9), &mut app_state);

    assert_eq!(
        scene.conversation.map(|conversation| conversation.area),
        Some(Rect::new(2, 3, 20, 7))
    );
    assert_eq!(
        scene.status.map(|status| status.area),
        Some(Rect::new(2, 10, 20, 1))
    );
    assert_eq!(
        scene.input.map(|input| input.area),
        Some(Rect::new(2, 11, 20, 1))
    );
    assert_eq!(scene.picker, None);
}

#[test]
fn the_active_row_of_a_long_catalog_stays_inside_the_modal() {
    let mut terminal = Terminal::new(TestBackend::new(80, 10)).unwrap();
    let mut app_state = AppState::with_model("current-id", "Current model");
    app_state.handle_key(control_key('p'));
    app_state.handle_harness_event(HarnessEvent::CatalogLoaded(
        (10..40)
            .map(|index| {
                model_metadata(&format!("id-{index}"), &format!("Model {index}"), None, None)
            })
            .collect(),
    ));

    for step in 0..29 {
        app_state.handle_key(key_event(KeyCode::Down));
        draw(&mut terminal, &mut app_state);
        let expected = format!(">  Model {} | id-{}", step + 11, step + 11);
        assert!(buffer_text(&terminal).contains(&expected), "{expected}");
    }
}
