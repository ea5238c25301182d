//! The lines of the conversation.

use vstd::prelude::*;

use crate::text::{concat3, split, split_on, texts};
use crate::tui::app::{display_views, Message, MessageRole, MessageView};
use crate::tui::layout::{is_empty_rect, saturated, wrap_text, wrapped_text, Rect};

verus! {

/// The lines of a wrapped conversation.
#[derive(Debug, PartialEq, Eq)]
pub struct WrappedLines {
    pub lines: Vec<String>,
}

impl WrappedLines {
    pub fn len(&self) -> (n: usize)
        ensures
            n == self.lines@.len(),
    {
        self.lines.len()
    }

    pub fn get(&self, line_index: usize) -> (line: Option<&String>)
        ensures
            match line {
                Some(line) => line_index < self.lines@.len() && *line
                    == self.lines@[line_index as int],
                None => line_index >= self.lines@.len(),
            },
    {
        if line_index < self.lines.len() {
            Some(&self.lines[line_index])
        } else {
            None
        }
    }
}

/// The label of a speaker.
pub open spec fn role_label(role: MessageRole) -> Seq<char> {
    match role {
        MessageRole::User => "You:"@,
        MessageRole::Assistant => "Assistant:"@,
    }
}

/// A line of a message as it is shown: the first one has the speaker in front.
pub open spec fn labelled_line(role: MessageRole, line: Seq<char>, index: int) -> Seq<char> {
    if index != 0 {
        line
    } else if line.len() == 0 {
        role_label(role)
    } else {
        role_label(role) + " "@ + line
    }
}

pub fn format_message_line(message_role: MessageRole, content_line: &str, content_line_index: usize)
    -> (line: String)
    ensures
        line@ == labelled_line(message_role, content_line@, content_line_index as int),
{
    if content_line_index != 0 {
        return content_line.to_owned();
    }
    let label = match message_role {
        MessageRole::User => "You:",
        MessageRole::Assistant => "Assistant:",
    };
    if content_line.unicode_len() == 0 {
        return label.to_owned();
    }
    concat3(label, " ", content_line)
}

/// The lines that one line is wrapped into; an empty line stays one.
pub open spec fn wrapped_line(content: Seq<char>, width: usize) -> Seq<Seq<char>> {
    if content.len() == 0 {
        seq![Seq::empty()]
    } else {
        wrapped_text(content, width)
    }
}

/// Wrap one line and add what it gives to the lines before.
pub fn wrap_line(content: &str, width: usize, wrapped_lines: &mut Vec<String>)
    ensures
        texts(final(wrapped_lines)@) == texts(old(wrapped_lines)@) + wrapped_line(content@, width),
{
    let ghost before = texts(wrapped_lines@);
    if content.unicode_len() == 0 {
        let empty = String::new();
        assert(empty@ =~= Seq::empty());
        wrapped_lines.push(empty);
        assert(texts(wrapped_lines@) =~= before + seq![Seq::<char>::empty()]);
        return;
    }
    let mut more = wrap_text(content, width);
    let ghost added = texts(more@);
    wrapped_lines.append(&mut more);
    assert(texts(wrapped_lines@) =~= before + added);
}

/// The lines of a message whose content has these lines.
pub open spec fn message_lines(role: MessageRole, pieces: Seq<Seq<char>>, width: usize) -> Seq<
    Seq<char>,
>
    decreases pieces.len(),
{
    if pieces.len() == 0 {
        Seq::empty()
    } else {
        message_lines(role, pieces.drop_last(), width) + wrapped_line(
            labelled_line(role, pieces.last(), pieces.len() - 1),
            width,
        )
    }
}

/// The lines of a conversation: its messages in order, with an empty line between them.
pub open spec fn conversation_lines(messages: Seq<MessageView>, width: usize) -> Seq<Seq<char>>
    decreases messages.len(),
{
    if width == 0 || messages.len() == 0 {
        Seq::empty()
    } else {
        let before = conversation_lines(messages.drop_last(), width);
        let separated = if messages.len() > 1 {
            before.push(Seq::empty())
        } else {
            before
        };
        separated + message_lines(
            messages.last().role,
            split_on(messages.last().content, '\n'),
            width,
        )
    }
}

fn wrap_message(message: &Message, width: usize, lines: &mut Vec<String>)
    ensures
        texts(final(lines)@) == texts(old(lines)@) + message_lines(
            message@.role,
            split_on(message@.content, '\n'),
            width,
        ),
{
    let pieces = split(message.content(), '\n');
    let ghost views = texts(pieces@);
    let ghost start = texts(lines@);
    let role = message.role();
    let mut i: usize = 0;
    assert(views.take(0) =~= Seq::empty());
    assert(start + Seq::<Seq<char>>::empty() =~= start);
    while i < pieces.len()
        invariant
            views == texts(pieces@),
            i <= pieces@.len(),
            texts(lines@) == start + message_lines(role, views.take(i as int), width),
        decreases pieces@.len() - i,
    {
        let ghost before = message_lines(role, views.take(i as int), width);
        let formatted = format_message_line(role, pieces[i].as_str(), i);
        wrap_line(formatted.as_str(), width, lines);
        proof {
            assert(views.take(i + 1).drop_last() =~= views.take(i as int));
            assert(views.take(i + 1).last() == pieces@[i as int]@);
            assert(texts(lines@) =~= start + (before + wrapped_line(formatted@, width)));
        }
        i += 1;
    }
    assert(views.take(i as int) =~= views);
}

/// Wrap a conversation to this width; without any columns there are no lines.
pub fn wrap_messages(messages: &[Message], width: u16) -> (wrapped: WrappedLines)
    ensures
        texts(wrapped.lines@) == conversation_lines(display_views(messages@), width as usize),
{
    let width: usize = width as usize;
    let ghost views = display_views(messages@);
    let mut lines: Vec<String> = Vec::new();
    assert(texts(lines@) =~= Seq::empty());
    if width == 0 {
        return WrappedLines { lines };
    }
    let mut i: usize = 0;
    assert(views.take(0) =~= Seq::empty());
    while i < messages.len()
        invariant
            width > 0,
            views == display_views(messages@),
            i <= messages@.len(),
            texts(lines@) == conversation_lines(views.take(i as int), width),
        decreases messages@.len() - i,
    {
        proof {
            assert(views.take(i + 1).drop_last() =~= views.take(i as int));
            assert(views.take(i + 1).last() == messages@[i as int]@);
        }
        if i > 0 {
            let ghost before = texts(lines@);
            let empty = String::new();
            assert(empty@ =~= Seq::empty());
            lines.push(empty);
            assert(texts(lines@) =~= before.push(Seq::empty()));
        }
        wrap_message(&messages[i], width, &mut lines);
        i += 1;
    }
    assert(views.take(i as int) =~= views);
    WrappedLines { lines }
}

/// The conversation as it is to be drawn.
#[derive(Debug, PartialEq, Eq)]
pub struct ConversationScene {
    pub area: Rect,
    pub lines: Vec<String>,
    pub scroll: u16,
}

/// The mathematical form of a drawn conversation.
#[verifier::ext_equal]
pub struct ConversationSceneView {
    pub area: Rect,
    pub lines: Seq<Seq<char>>,
    pub scroll: u16,
}

impl View for ConversationScene {
    type V = ConversationSceneView;

    open spec fn view(&self) -> ConversationSceneView {
        ConversationSceneView {
            area: self.area,
            lines: texts(self.lines@),
            scroll: self.scroll,
        }
    }
}

/// The lines in their area, from the topmost shown line on; nothing where there is no room.
pub open spec fn conversation_scene(area: Rect, lines: Seq<Seq<char>>, top: usize) -> Option<
    ConversationSceneView,
> {
    if is_empty_rect(area) {
        None
    } else {
        Some(ConversationSceneView { area, lines, scroll: saturated(top as int) })
    }
}

pub fn render(area: Rect, wrapped_lines: WrappedLines, top_wrapped_line_offset: usize) -> (scene:
    Option<ConversationScene>)
    ensures
        match conversation_scene(area, texts(wrapped_lines.lines@), top_wrapped_line_offset) {
            Some(view) => scene is Some && (scene->0)@ == view,
            None => scene is None,
        },
{
    if area.is_empty() {
        return None;
    }
    let scroll: u16 = if top_wrapped_line_offset > 65535 {
        65535
    } else {
        top_wrapped_line_offset as u16
    };
    Some(ConversationScene { area, lines: wrapped_lines.lines, scroll })
}

} // verus!
