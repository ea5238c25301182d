//! The state that the terminal interface shows and edits.

use vstd::prelude::*;

use crate::provider::Usage;
use crate::runtime::{HarnessEvent, HarnessEventView};
use crate::text::{
    byte_len, chars_of, insert_char, is_control, remove_char, string_of_range, utf8_len,
};
use crate::tui::keys::{KeyCode, KeyEvent};
use crate::tui::model_picker::{
    closed_picker, new_picker, opened, picker_key_step, types_character, with_catalog, CatalogState,
    CatalogStateView, ModelPickerAction, ModelPickerActionView, ModelPickerState, PickerView,
};

verus! {

/// The role of a displayable conversation message.
#[derive(Debug, Clone, Copy, PartialEq, Eq)]
pub enum MessageRole {
    User,
    Assistant,
}

/// A displayable conversation message.
#[derive(Debug, PartialEq, Eq)]
pub struct Message {
    role: MessageRole,
    content: String,
}

/// The mathematical form of a displayable message.
#[verifier::ext_equal]
pub struct MessageView {
    pub role: MessageRole,
    pub content: Seq<char>,
}

impl View for Message {
    type V = MessageView;

    closed spec fn view(&self) -> MessageView {
        MessageView { role: self.role, content: self.content@ }
    }
}

impl Clone for Message {
    fn clone(&self) -> (copy: Self)
        ensures
            copy == *self,
    {
        Message { role: self.role, content: self.content.clone() }
    }
}

impl Message {
    pub fn new(role: MessageRole, content: String) -> (message: Self)
        ensures
            message@ == (MessageView { role, content: content@ }),
    {
        Message { role, content }
    }

    pub fn role(&self) -> (role: MessageRole)
        ensures
            role == self@.role,
    {
        self.role
    }

    pub fn content(&self) -> (content: &str)
        ensures
            content@ == self@.content,
    {
        self.content.as_str()
    }
}

/// The views of a list of displayable messages, in order.
pub open spec fn display_views(messages: Seq<Message>) -> Seq<MessageView> {
    messages.map_values(|message: Message| message@)
}

/// The transient status shown for the runtime turn.
#[derive(Debug, PartialEq, Eq)]
pub enum RuntimeStatus {
    Idle,
    Responding,
    /// The last response ended at the model's output limit.
    Truncated,
    Error(String),
}

/// The mathematical form of a runtime status.
#[verifier::ext_equal]
pub enum RuntimeStatusView {
    Idle,
    Responding,
    Truncated,
    Error(Seq<char>),
}

impl View for RuntimeStatus {
    type V = RuntimeStatusView;

    open spec fn view(&self) -> RuntimeStatusView {
        match *self {
            RuntimeStatus::Idle => RuntimeStatusView::Idle,
            RuntimeStatus::Responding => RuntimeStatusView::Responding,
            RuntimeStatus::Truncated => RuntimeStatusView::Truncated,
            RuntimeStatus::Error(error) => RuntimeStatusView::Error(error@),
        }
    }
}

impl Clone for RuntimeStatus {
    fn clone(&self) -> (copy: Self)
        ensures
            copy == *self,
    {
        match self {
            RuntimeStatus::Idle => RuntimeStatus::Idle,
            RuntimeStatus::Responding => RuntimeStatus::Responding,
            RuntimeStatus::Truncated => RuntimeStatus::Truncated,
            RuntimeStatus::Error(error) => RuntimeStatus::Error(error.clone()),
        }
    }
}

/// The result of handling one logical key event.
#[derive(Debug, PartialEq, Eq)]
pub enum AppAction {
    Continue,
    Submit(String),
    OpenModelPicker,
    SelectModel(String),
    Exit,
}

/// The mathematical form of an application action.
#[verifier::ext_equal]
pub enum AppActionView {
    Continue,
    Submit(Seq<char>),
    OpenModelPicker,
    SelectModel(Seq<char>),
    Exit,
}

impl View for AppAction {
    type V = AppActionView;

    open spec fn view(&self) -> AppActionView {
        match *self {
            AppAction::Continue => AppActionView::Continue,
            AppAction::Submit(submission) => AppActionView::Submit(submission@),
            AppAction::OpenModelPicker => AppActionView::OpenModelPicker,
            AppAction::SelectModel(model_id) => AppActionView::SelectModel(model_id@),
            AppAction::Exit => AppActionView::Exit,
        }
    }
}

/// Transient state projected by the TUI and consumed by rendering and orchestration.
#[derive(Debug, PartialEq, Eq)]
pub struct AppState {
    model_id: String,
    model_name: String,
    messages: Vec<Message>,
    input: String,
    /// The number of characters before the cursor.
    cursor: usize,
    runtime_status: RuntimeStatus,
    active_assistant_message: Option<usize>,
    usage: Option<Usage>,
    model_picker: ModelPickerState,
    top_wrapped_line_offset: usize,
    auto_follow: bool,
    content_lines: usize,
    viewport_height: usize,
}

/// The mathematical form of the application state.
#[verifier::ext_equal]
pub struct AppView {
    pub model_id: Seq<char>,
    pub model_name: Seq<char>,
    pub messages: Seq<MessageView>,
    pub input: Seq<char>,
    pub cursor: int,
    pub status: RuntimeStatusView,
    pub active_message: Option<int>,
    pub usage: Option<Usage>,
    pub picker: PickerView,
    pub top: usize,
    pub auto_follow: bool,
    pub content_lines: usize,
    pub viewport_height: usize,
}

impl View for AppState {
    type V = AppView;

    closed spec fn view(&self) -> AppView {
        AppView {
            model_id: self.model_id@,
            model_name: self.model_name@,
            messages: display_views(self.messages@),
            input: self.input@,
            cursor: self.cursor as int,
            status: self.runtime_status@,
            active_message: match self.active_assistant_message {
                Some(index) => Some(index as int),
                None => None,
            },
            usage: self.usage,
            picker: self.model_picker@,
            top: self.top_wrapped_line_offset,
            auto_follow: self.auto_follow,
            content_lines: self.content_lines,
            viewport_height: self.viewport_height,
        }
    }
}

impl Clone for AppState {
    fn clone(&self) -> (copy: Self)
        ensures
            copy@ == self@,
    {
        AppState {
            model_id: self.model_id.clone(),
            model_name: self.model_name.clone(),
            messages: self.messages.clone(),
            input: self.input.clone(),
            cursor: self.cursor,
            runtime_status: self.runtime_status.clone(),
            active_assistant_message: self.active_assistant_message,
            usage: self.usage,
            model_picker: self.model_picker.clone(),
            top_wrapped_line_offset: self.top_wrapped_line_offset,
            auto_follow: self.auto_follow,
            content_lines: self.content_lines,
            viewport_height: self.viewport_height,
        }
    }
}

/// The topmost line from which the last line of the conversation is still shown at the bottom.
pub open spec fn maximum_top(v: AppView) -> usize {
    if v.content_lines >= v.viewport_height {
        (v.content_lines - v.viewport_height) as usize
    } else {
        0
    }
}

/// What holds of every application state: the cursor is inside the draft, the message that grows is
/// the last one and the assistant's, and the conversation is not scrolled beyond its end (while it
/// is followed, it is scrolled to its end).
pub open spec fn app_valid(v: AppView) -> bool {
    &&& 0 <= v.cursor <= v.input.len()
    &&& v.active_message matches Some(index) ==> {
        &&& index == v.messages.len() - 1
        &&& index >= 0
        &&& v.messages[index].role is Assistant
    }
    &&& v.top <= maximum_top(v)
    &&& v.auto_follow ==> v.top == maximum_top(v)
}

/// A fresh application state.
pub open spec fn new_app(model_id: Seq<char>, model_name: Seq<char>) -> AppView {
    AppView {
        model_id,
        model_name,
        messages: Seq::empty(),
        input: Seq::empty(),
        cursor: 0,
        status: RuntimeStatusView::Idle,
        active_message: None,
        usage: None,
        picker: new_picker(),
        top: 0,
        auto_follow: true,
        content_lines: 0,
        viewport_height: 0,
    }
}

// ---------------------------------------------------------------------------
// Keys
// ---------------------------------------------------------------------------

/// The draft with a character typed at the cursor.
pub open spec fn typed(v: AppView, c: char) -> AppView {
    AppView { input: v.input.insert(v.cursor, c), cursor: v.cursor + 1, ..v }
}

/// The cursor moved one character back.
pub open spec fn moved_left(v: AppView) -> AppView {
    if v.cursor == 0 {
        v
    } else {
        AppView { cursor: v.cursor - 1, ..v }
    }
}

/// The cursor moved one character on.
pub open spec fn moved_right(v: AppView) -> AppView {
    if v.cursor == v.input.len() {
        v
    } else {
        AppView { cursor: v.cursor + 1, ..v }
    }
}

/// The draft without the character before the cursor.
pub open spec fn deleted_previous(v: AppView) -> AppView {
    if v.cursor == 0 {
        v
    } else {
        AppView { input: v.input.remove(v.cursor - 1), cursor: v.cursor - 1, ..v }
    }
}

/// The draft without the character at the cursor.
pub open spec fn deleted_next(v: AppView) -> AppView {
    if v.cursor == v.input.len() {
        v
    } else {
        AppView { input: v.input.remove(v.cursor), ..v }
    }
}

/// The conversation scrolled one screen up.
pub open spec fn paged_up(v: AppView) -> AppView {
    AppView {
        auto_follow: false,
        top: if v.top >= v.viewport_height {
            (v.top - v.viewport_height) as usize
        } else {
            0
        },
        ..v
    }
}

/// The conversation scrolled one screen down, no further than its end.
pub open spec fn paged_down(v: AppView) -> AppView {
    AppView {
        auto_follow: false,
        top: if v.top + v.viewport_height <= maximum_top(v) {
            (v.top + v.viewport_height) as usize
        } else {
            maximum_top(v)
        },
        ..v
    }
}

/// The picker as Ctrl-P opens it: a catalog that failed to load is asked for again.
pub open spec fn reopened_picker(picker: PickerView) -> PickerView {
    if picker.catalog is Failed {
        PickerView {
            catalog: CatalogStateView::Loading,
            active_row: 0,
            error: None,
            ..opened(picker)
        }
    } else {
        opened(picker)
    }
}

/// Whether a key is this letter, in either case, with control held.
pub open spec fn is_control_letter(key: KeyEvent, lower: char, upper: char) -> bool {
    &&& key.modifiers.control
    &&& key.code is Char
    &&& (key.code->Char_0 == lower || key.code->Char_0 == upper)
}

/// What a key does to the application, and the action that it asks for.
pub open spec fn app_key_step(v: AppView, key: KeyEvent) -> (AppView, AppActionView) {
    if key.kind is Release {
        (v, AppActionView::Continue)
    } else if is_control_letter(key, 'c', 'C') {
        (v, AppActionView::Exit)
    } else if v.picker.open {
        let (picker, action) = picker_key_step(v.picker, key, v.model_id);
        (
            AppView { picker, ..v },
            match action {
                ModelPickerActionView::Continue => AppActionView::Continue,
                ModelPickerActionView::SelectModel(model_id) => AppActionView::SelectModel(
                    model_id,
                ),
            },
        )
    } else if is_control_letter(key, 'p', 'P') && !(v.status is Responding) {
        (AppView { picker: reopened_picker(v.picker), ..v }, AppActionView::OpenModelPicker)
    } else if key.code is Esc {
        if v.input.len() == 0 {
            (v, AppActionView::Exit)
        } else {
            (AppView { input: Seq::empty(), cursor: 0, ..v }, AppActionView::Continue)
        }
    } else if key.modifiers.control && key.code is End {
        (AppView { auto_follow: true, top: maximum_top(v), ..v }, AppActionView::Continue)
    } else {
        match key.code {
            KeyCode::Char(c) => (
                if types_character(key) {
                    typed(v, c)
                } else {
                    v
                },
                AppActionView::Continue,
            ),
            KeyCode::Left => (moved_left(v), AppActionView::Continue),
            KeyCode::Right => (moved_right(v), AppActionView::Continue),
            KeyCode::Home => (AppView { cursor: 0, ..v }, AppActionView::Continue),
            KeyCode::End => (
                AppView { cursor: v.input.len() as int, ..v },
                AppActionView::Continue,
            ),
            KeyCode::Backspace => (deleted_previous(v), AppActionView::Continue),
            KeyCode::Delete => (deleted_next(v), AppActionView::Continue),
            KeyCode::Enter => (
                v,
                if v.status is Responding || v.input.len() == 0 {
                    AppActionView::Continue
                } else {
                    AppActionView::Submit(v.input)
                },
            ),
            KeyCode::PageUp => (paged_up(v), AppActionView::Continue),
            KeyCode::PageDown => (paged_down(v), AppActionView::Continue),
            _ => (v, AppActionView::Continue),
        }
    }
}

// ---------------------------------------------------------------------------
// Submissions and runtime events
// ---------------------------------------------------------------------------

/// The state after a submission was handed to the runtime.
pub open spec fn submitted(v: AppView, submission: Seq<char>) -> AppView {
    if submission.len() == 0 || v.status is Responding {
        v
    } else {
        AppView {
            messages: v.messages.push(MessageView { role: MessageRole::User, content: submission }),
            input: Seq::empty(),
            cursor: 0,
            status: RuntimeStatusView::Responding,
            active_message: None,
            usage: None,
            ..v
        }
    }
}

/// What an event of the running response does.
pub open spec fn response_event_step(v: AppView, event: HarnessEventView) -> AppView {
    match event {
        HarnessEventView::ResponseStarted => if v.active_message is Some {
            v
        } else {
            AppView {
                messages: v.messages.push(
                    MessageView { role: MessageRole::Assistant, content: Seq::empty() },
                ),
                active_message: Some(v.messages.len() as int),
                ..v
            }
        },
        HarnessEventView::AssistantDelta(text) => match v.active_message {
            Some(index) => AppView {
                messages: v.messages.update(
                    index,
                    MessageView { content: v.messages[index].content + text, ..v.messages[index] },
                ),
                ..v
            },
            None => v,
        },
        HarnessEventView::Usage(usage) => AppView { usage: Some(usage), ..v },
        HarnessEventView::ResponseFinished => if v.active_message is Some {
            AppView { active_message: None, status: RuntimeStatusView::Idle, ..v }
        } else {
            v
        },
        HarnessEventView::ResponseTruncated => AppView {
            active_message: None,
            status: RuntimeStatusView::Truncated,
            ..v
        },
        HarnessEventView::Error(error) => AppView {
            active_message: None,
            status: RuntimeStatusView::Error(error),
            ..v
        },
        _ => v,
    }
}

/// Whether an event belongs to a response.
pub open spec fn is_response_event(event: HarnessEventView) -> bool {
    ||| event is ResponseStarted
    ||| event is AssistantDelta
    ||| event is Usage
    ||| event is ResponseFinished
    ||| event is ResponseTruncated
    ||| event is Error
}

/// What a runtime event does: events of a response count only while one is awaited.
pub open spec fn app_event_step(v: AppView, event: HarnessEventView) -> AppView {
    if is_response_event(event) {
        if v.status is Responding {
            response_event_step(v, event)
        } else {
            v
        }
    } else {
        match event {
            HarnessEventView::CatalogLoaded(models) => AppView {
                picker: with_catalog(v.picker, models),
                ..v
            },
            HarnessEventView::CatalogFailed(error) => AppView {
                picker: PickerView {
                    catalog: CatalogStateView::Failed(error),
                    active_row: 0,
                    error: None,
                    ..v.picker
                },
                ..v
            },
            HarnessEventView::ModelSelected(metadata) => AppView {
                model_id: metadata.model_id,
                model_name: metadata.display_name,
                picker: if v.picker.pending_model_id == Some(metadata.model_id) {
                    closed_picker(v.picker)
                } else {
                    v.picker
                },
                ..v
            },
            HarnessEventView::ModelSelectionFailed(error) => AppView {
                picker: PickerView {
                    open: v.picker.open || v.picker.pending_model_id is Some,
                    pending_model_id: None,
                    error: Some(error),
                    ..v.picker
                },
                ..v
            },
            _ => v,
        }
    }
}

/// The state with the measured conversation: a followed conversation scrolls to its end, any other
/// no further than that.
pub open spec fn measured(v: AppView, content_lines: usize, viewport_height: usize) -> AppView {
    let sized = AppView { content_lines, viewport_height, ..v };
    AppView {
        top: if v.auto_follow || v.top > maximum_top(sized) {
            maximum_top(sized)
        } else {
            v.top
        },
        ..sized
    }
}

impl AppState {
    /// Whether the state satisfies its invariant.
    pub open spec fn wf(self) -> bool {
        app_valid(self@)
    }

    /// The state for a model that is known by its name alone.
    pub fn new(model_name: &str) -> (app_state: Self)
        ensures
            app_state.wf(),
            app_state@ == new_app(model_name@, model_name@),
    {
        AppState::with_model(model_name, model_name)
    }

    /// The state for this model.
    pub fn with_model(model_id: &str, model_name: &str) -> (app_state: Self)
        ensures
            app_state.wf(),
            app_state@ == new_app(model_id@, model_name@),
    {
        let app_state = AppState {
            model_id: model_id.to_owned(),
            model_name: model_name.to_owned(),
            messages: Vec::new(),
            input: String::new(),
            cursor: 0,
            runtime_status: RuntimeStatus::Idle,
            active_assistant_message: None,
            usage: None,
            model_picker: ModelPickerState::new(),
            top_wrapped_line_offset: 0,
            auto_follow: true,
            content_lines: 0,
            viewport_height: 0,
        };
        assert(app_state@.messages =~= Seq::empty());
        assert(app_state@.input =~= Seq::empty());
        app_state
    }

    pub fn model_id(&self) -> (model_id: &str)
        ensures
            model_id@ == self@.model_id,
    {
        self.model_id.as_str()
    }

    pub fn model_name(&self) -> (model_name: &str)
        ensures
            model_name@ == self@.model_name,
    {
        self.model_name.as_str()
    }

    pub fn messages(&self) -> (messages: &[Message])
        ensures
            display_views(messages@) == self@.messages,
    {
        self.messages.as_slice()
    }

    pub fn input(&self) -> (input: &str)
        ensures
            input@ == self@.input,
    {
        self.input.as_str()
    }

    /// The editor cursor as a byte offset, always on a UTF-8 character boundary.
    pub fn cursor_byte_offset(&self) -> (offset: usize)
        requires
            self.wf(),
        ensures
            offset == utf8_len(self@.input.take(self@.cursor)),
    {
        let chars = chars_of(self.input.as_str());
        let before = string_of_range(chars.as_slice(), 0, self.cursor);
        assert(before@ =~= self@.input.take(self@.cursor));
        byte_len(before.as_str())
    }

    pub fn runtime_status(&self) -> (status: &RuntimeStatus)
        ensures
            status@ == self@.status,
    {
        &self.runtime_status
    }

    pub fn usage(&self) -> (usage: Option<Usage>)
        ensures
            usage == self@.usage,
    {
        self.usage
    }

    pub fn model_picker(&self) -> (picker: &ModelPickerState)
        ensures
            picker@ == self@.picker,
    {
        &self.model_picker
    }

    pub fn is_responding(&self) -> (responding: bool)
        ensures
            responding == (self@.status is Responding),
    {
        match self.runtime_status {
            RuntimeStatus::Responding => true,
            _ => false,
        }
    }

    /// The assistant message that the running response adds to.
    pub fn active_assistant_message(&self) -> (message: Option<&Message>)
        requires
            self.wf(),
        ensures
            match message {
                Some(message) => self@.active_message is Some && message@
                    == self@.messages[self@.active_message->0],
                None => self@.active_message is None,
            },
    {
        match self.active_assistant_message {
            Some(index) => Some(&self.messages[index]),
            None => None,
        }
    }

    pub fn top_wrapped_line_offset(&self) -> (offset: usize)
        ensures
            offset == self@.top,
    {
        self.top_wrapped_line_offset
    }

    pub fn is_auto_following(&self) -> (following: bool)
        ensures
            following == self@.auto_follow,
    {
        self.auto_follow
    }

    pub fn content_lines(&self) -> (lines: usize)
        ensures
            lines == self@.content_lines,
    {
        self.content_lines
    }

    pub fn viewport_height(&self) -> (height: usize)
        ensures
            height == self@.viewport_height,
    {
        self.viewport_height
    }

    fn maximum_top_wrapped_line_offset(&self) -> (offset: usize)
        ensures
            offset == maximum_top(self@),
    {
        self.content_lines.saturating_sub(self.viewport_height)
    }

    fn move_cursor_left(&mut self)
        ensures
            final(self)@ == moved_left(old(self)@),
    {
        if self.cursor > 0 {
            self.cursor = self.cursor - 1;
        }
    }

    fn move_cursor_right(&mut self)
        requires
            old(self).wf(),
        ensures
            final(self)@ == moved_right(old(self)@),
    {
        let length: usize = self.input.as_str().unicode_len();
        if self.cursor < length {
            self.cursor = self.cursor + 1;
        }
    }

    fn delete_previous_character(&mut self)
        requires
            old(self).wf(),
        ensures
            final(self)@ == deleted_previous(old(self)@),
    {
        if self.cursor > 0 {
            self.input = remove_char(self.input.as_str(), self.cursor - 1);
            self.cursor = self.cursor - 1;
        }
    }

    fn delete_next_character(&mut self)
        requires
            old(self).wf(),
        ensures
            final(self)@ == deleted_next(old(self)@),
    {
        if self.cursor < self.input.as_str().unicode_len() {
            self.input = remove_char(self.input.as_str(), self.cursor);
        }
    }

    fn clear_input(&mut self)
        ensures
            final(self)@ == (AppView { input: Seq::empty(), cursor: 0, ..old(self)@ }),
    {
        self.input = String::new();
        self.cursor = 0;
        assert(self@.input =~= Seq::empty());
    }

    fn open_model_picker(&mut self)
        ensures
            final(self)@ == (AppView {
                picker: reopened_picker(old(self)@.picker),
                ..old(self)@
            }),
    {
        let failed = match self.model_picker.catalog_state() {
            CatalogState::Failed(_) => true,
            _ => false,
        };
        self.model_picker.open();
        if failed {
            self.model_picker.catalog_loading();
        }
    }

    fn edit(&mut self, key_event: KeyEvent) -> (action: AppAction)
        requires
            old(self).wf(),
            !(key_event.kind is Release),
            !is_control_letter(key_event, 'c', 'C'),
            !old(self)@.picker.open,
            !(is_control_letter(key_event, 'p', 'P') && !(old(self)@.status is Responding)),
            !(key_event.code is Esc),
            !(key_event.modifiers.control && key_event.code is End),
        ensures
            final(self).wf(),
            (final(self)@, action@) == app_key_step(old(self)@, key_event),
    {
        match key_event.code {
            KeyCode::Char(character) => {
                if !key_event.modifiers.control && !key_event.modifiers.alt && !is_control(
                    character,
                ) {
                    self.input = insert_char(self.input.as_str(), self.cursor, character);
                    let length: usize = self.input.as_str().unicode_len();
                    assert(self.cursor < length);
                    self.cursor = self.cursor + 1;
                }
            },
            KeyCode::Left => {
                self.move_cursor_left();
            },
            KeyCode::Right => {
                self.move_cursor_right();
            },
            KeyCode::Home => {
                self.cursor = 0;
            },
            KeyCode::End => {
                self.cursor = self.input.as_str().unicode_len();
            },
            KeyCode::Backspace => {
                self.delete_previous_character();
            },
            KeyCode::Delete => {
                self.delete_next_character();
            },
            KeyCode::Enter => {
                if !self.is_responding() && self.input.as_str().unicode_len() > 0 {
                    return AppAction::Submit(self.input.clone());
                }
            },
            KeyCode::PageUp => {
                self.auto_follow = false;
                self.top_wrapped_line_offset = self.top_wrapped_line_offset.saturating_sub(
                    self.viewport_height,
                );
            },
            KeyCode::PageDown => {
                self.auto_follow = false;
                let target: usize = self.top_wrapped_line_offset.saturating_add(
                    self.viewport_height,
                );
                let maximum: usize = self.maximum_top_wrapped_line_offset();
                self.top_wrapped_line_offset = if target <= maximum {
                    target
                } else {
                    maximum
                };
            },
            _ => {},
        }
        AppAction::Continue
    }

    /// Handle one key.
    pub fn handle_key(&mut self, key_event: KeyEvent) -> (action: AppAction)
        requires
            old(self).wf(),
        ensures
            final(self).wf(),
            (final(self)@, action@) == app_key_step(old(self)@, key_event),
    {
        if key_event.is_release() {
            return AppAction::Continue;
        }
        if is_control_key(key_event, 'c', 'C') {
            return AppAction::Exit;
        }
        if self.model_picker.is_open() {
            return match self.model_picker.handle_key(key_event, self.model_id.as_str()) {
                ModelPickerAction::Continue => AppAction::Continue,
                ModelPickerAction::SelectModel(model_id) => AppAction::SelectModel(model_id),
            };
        }
        if is_control_key(key_event, 'p', 'P') && !self.is_responding() {
            self.open_model_picker();
            return AppAction::OpenModelPicker;
        }
        if let KeyCode::Esc = key_event.code {
            if self.input.as_str().unicode_len() == 0 {
                return AppAction::Exit;
            }
            self.clear_input();
            return AppAction::Continue;
        }
        if key_event.modifiers.control {
            if let KeyCode::End = key_event.code {
                self.auto_follow = true;
                self.top_wrapped_line_offset = self.maximum_top_wrapped_line_offset();
                return AppAction::Continue;
            }
        }
        self.edit(key_event)
    }

    /// Commit a submission after the runtime command has been enqueued successfully.
    pub fn accept_submission(&mut self, submission: String)
        requires
            old(self).wf(),
        ensures
            final(self).wf(),
            final(self)@ == submitted(old(self)@, submission@),
    {
        if submission.as_str().unicode_len() == 0 || self.is_responding() {
            return;
        }
        self.messages.push(Message::new(MessageRole::User, submission));
        self.clear_input();
        self.runtime_status = RuntimeStatus::Responding;
        self.active_assistant_message = None;
        self.usage = None;
        assert(self@.messages =~= submitted(old(self)@, submission@).messages);
    }

    /// Record a failed command enqueue without losing the draft or conversation.
    pub fn reject_submission(&mut self, error: String)
        requires
            old(self).wf(),
        ensures
            final(self).wf(),
            final(self)@ == (AppView { status: RuntimeStatusView::Error(error@), ..old(self)@ }),
    {
        self.runtime_status = RuntimeStatus::Error(error);
    }

    /// Wait for the runtime to acknowledge a selection that was enqueued.
    pub fn accept_model_selection(&mut self, model_id: String)
        requires
            old(self).wf(),
        ensures
            final(self).wf(),
            final(self)@ == (AppView {
                picker: PickerView {
                    pending_model_id: Some(model_id@),
                    error: None,
                    ..old(self)@.picker
                },
                ..old(self)@
            }),
    {
        self.model_picker.accept_selection_enqueue(model_id);
    }

    /// Record a selection that could not be enqueued.
    pub fn reject_model_selection(&mut self, error: String)
        requires
            old(self).wf(),
        ensures
            final(self).wf(),
            final(self)@ == (AppView {
                picker: PickerView {
                    pending_model_id: None,
                    error: Some(error@),
                    ..old(self)@.picker
                },
                ..old(self)@
            }),
    {
        self.model_picker.reject_selection_enqueue(error);
    }

    /// Record a model discovery that could not be enqueued; the picker stays open.
    pub fn reject_model_picker_open(&mut self, error: String)
        requires
            old(self).wf(),
        ensures
            final(self).wf(),
            final(self)@ == (AppView {
                picker: PickerView { error: Some(error@), ..old(self)@.picker },
                ..old(self)@
            }),
    {
        self.model_picker.reject_discovery_enqueue(error);
    }

    /// Give up an awaited response when the runtime can send no more events.
    pub fn runtime_channel_closed(&mut self)
        requires
            old(self).wf(),
        ensures
            final(self).wf(),
            final(self)@ == app_event_step(
                old(self)@,
                HarnessEventView::Error("runtime event channel is closed"@),
            ),
    {
        self.handle_harness_event(
            HarnessEvent::Error("runtime event channel is closed".to_owned()),
        );
    }

    fn handle_response_event(&mut self, harness_event: HarnessEvent)
        requires
            old(self).wf(),
        ensures
            final(self).wf(),
            final(self)@ == response_event_step(old(self)@, harness_event@),
    {
        match harness_event {
            HarnessEvent::ResponseStarted => {
                if self.active_assistant_message.is_none() {
                    let index: usize = self.messages.len();
                    self.messages.push(Message::new(MessageRole::Assistant, String::new()));
                    self.active_assistant_message = Some(index);
                    proof {
                        let post = response_event_step(old(self)@, harness_event@);
                        assert(self.messages@.last()@.content =~= Seq::empty());
                        assert(self@.messages =~= post.messages);
                    }
                }
            },
            HarnessEvent::AssistantDelta(text) => {
                if let Some(index) = self.active_assistant_message {
                    let ghost messages = self.messages@;
                    let message = &mut self.messages[index];
                    message.content.append(text.as_str());
                    proof {
                        let post = response_event_step(old(self)@, harness_event@);
                        assert(self@.messages =~= post.messages);
                    }
                }
            },
            HarnessEvent::Usage(usage) => {
                self.usage = Some(usage);
            },
            HarnessEvent::ResponseFinished => {
                if self.active_assistant_message.is_some() {
                    self.active_assistant_message = None;
                    self.runtime_status = RuntimeStatus::Idle;
                }
            },
            HarnessEvent::ResponseTruncated => {
                self.active_assistant_message = None;
                self.runtime_status = RuntimeStatus::Truncated;
            },
            HarnessEvent::Error(error) => {
                self.active_assistant_message = None;
                self.runtime_status = RuntimeStatus::Error(error);
            },
            _ => {},
        }
    }

    /// Take in one event of the runtime.
    pub fn handle_harness_event(&mut self, harness_event: HarnessEvent)
        requires
            old(self).wf(),
        ensures
            final(self).wf(),
            final(self)@ == app_event_step(old(self)@, harness_event@),
    {
        match harness_event {
            HarnessEvent::CatalogLoaded(models) => {
                self.model_picker.catalog_loaded(models);
            },
            HarnessEvent::CatalogFailed(error) => {
                self.model_picker.catalog_failed(error);
            },
            HarnessEvent::ModelSelected(metadata) => {
                self.model_picker.selection_acknowledged(metadata.model_id.as_str());
                self.model_id = metadata.model_id;
                self.model_name = metadata.display_name;
            },
            HarnessEvent::ModelSelectionFailed(error) => {
                self.model_picker.selection_failed(error);
            },
            event => {
                if self.is_responding() {
                    self.handle_response_event(event);
                }
            },
        }
    }

    /// Take in the measured size of the conversation.
    pub fn update_conversation_metrics(&mut self, content_lines: usize, viewport_height: usize)
        requires
            old(self).wf(),
        ensures
            final(self).wf(),
            final(self)@ == measured(old(self)@, content_lines, viewport_height),
    {
        self.content_lines = content_lines;
        self.viewport_height = viewport_height;
        let maximum: usize = self.maximum_top_wrapped_line_offset();
        if self.auto_follow || self.top_wrapped_line_offset > maximum {
            self.top_wrapped_line_offset = maximum;
        }
    }
}

fn is_control_key(key_event: KeyEvent, lower: char, upper: char) -> (r: bool)
    ensures
        r == is_control_letter(key_event, lower, upper),
{
    match key_event.code {
        KeyCode::Char(character) => key_event.modifiers.control && (character == lower || character
            == upper),
        _ => false,
    }
}

} // verus!
