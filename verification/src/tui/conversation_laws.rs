//! What the lines of a conversation hold of its messages.

use vstd::prelude::*;

use crate::text::split_on;
use crate::text_laws::{are_pieces_of, lemma_pieces_are_unique, lemma_split_gives_pieces};
use crate::tui::app::{MessageRole, MessageView};
use crate::tui::conversation::{
    conversation_lines, conversation_scene, labelled_line, message_lines, wrapped_line,
};
use crate::tui::layout::{wrapped_text, Rect};

verus! {

/// A line of a message before it is wrapped: the first one is the label, a space and the line, or the
/// label alone where the line is empty; every other one is the line itself, character for character.
pub proof fn lemma_lines_are_kept_verbatim(role: MessageRole, line: Seq<char>, index: int)
    ensures
        index != 0 ==> labelled_line(role, line, index) == line,
        index == 0 && line.len() > 0 ==> labelled_line(role, line, index) == (match role {
            MessageRole::User => "You: "@,
            MessageRole::Assistant => "Assistant: "@,
        }) + line,
        index == 0 && line.len() == 0 ==> labelled_line(role, line, index) == match role {
            MessageRole::User => "You:"@,
            MessageRole::Assistant => "Assistant:"@,
        },
{
    reveal_strlit("You: ");
    reveal_strlit("You:");
    reveal_strlit("Assistant: ");
    reveal_strlit("Assistant:");
    reveal_strlit(" ");
    assert("You:"@ + " "@ =~= "You: "@);
    assert("Assistant:"@ + " "@ =~= "Assistant: "@);
}

/// The lines of a message, each with a line break behind it, are the label and the content with a
/// line break behind it: nothing of the content is lost or changed.
pub proof fn lemma_lines_give_back_content(role: MessageRole, content: Seq<char>)
    ensures
        ({
            let pieces = split_on(content, '\n');
            let lines = Seq::new(pieces.len(), |i: int| labelled_line(role, pieces[i], i));
            let label = match role {
                MessageRole::User => "You:"@,
                MessageRole::Assistant => "Assistant:"@,
            };
            let gap = if content.len() > 0 && content[0] != '\n' {
                " "@
            } else {
                Seq::empty()
            };
            lines.map_values(|line: Seq<char>| line.push('\n')).flatten() == label + gap
                + content.push('\n')
        }),
{
    let pieces = split_on(content, '\n');
    let lines = Seq::new(pieces.len(), |i: int| labelled_line(role, pieces[i], i));
    let label = match role {
        MessageRole::User => "You:"@,
        MessageRole::Assistant => "Assistant:"@,
    };
    let ended = |line: Seq<char>| line.push('\n');
    lemma_split_gives_pieces(content, '\n');
    let all = pieces.map_values(ended);
    let rest = all.drop_first();
    assert(all.flatten() == all[0] + rest.flatten());
    let shown = lines.map_values(ended);
    assert(shown.flatten() == shown[0] + shown.drop_first().flatten());
    assert(shown.drop_first() =~= rest);
    let first = pieces[0];
    assert(content.push('\n') == first.push('\n') + rest.flatten());
    if first.len() > 0 {
        assert(content.push('\n')[0] == first[0]);
        assert(pieces[0][0] != '\n');
        assert(content.len() > 0) by {
            if content.len() == 0 {
                assert(content.push('\n')[0] == '\n');
            }
        }
        assert(content[0] == first[0]);
        assert(shown.flatten() =~= label + " "@ + content.push('\n'));
    } else {
        assert(content.push('\n')[0] == '\n');
        assert(shown[0] =~= label.push('\n'));
        assert(shown.flatten() =~= label + Seq::empty() + content.push('\n'));
    }
}

/// A message is shown line by line: every line of its content, the first with the speaker in front,
/// is wrapped by itself, and the wrapped lines follow one another. An empty line stays one.
pub proof fn lemma_message_is_shown_line_by_line(
    role: MessageRole,
    content: Seq<char>,
    pieces: Seq<Seq<char>>,
    width: usize,
)
    requires
        width > 0,
        are_pieces_of(pieces, content, '\n'),
    ensures
        conversation_lines(seq![MessageView { role, content }], width) == Seq::new(
            pieces.len(),
            |i: int|
                {
                    let label = match role {
                        MessageRole::User => "You:"@,
                        MessageRole::Assistant => "Assistant:"@,
                    };
                    if i > 0 {
                        if pieces[i].len() == 0 {
                            seq![Seq::empty()]
                        } else {
                            wrapped_text(pieces[i], width)
                        }
                    } else if pieces[i].len() == 0 {
                        wrapped_text(label, width)
                    } else {
                        wrapped_text(label + " "@ + pieces[i], width)
                    }
                },
        ).flatten(),
{
    let messages = seq![MessageView { role, content }];
    lemma_pieces_are_unique(pieces, content, '\n');
    assert(messages.drop_last() =~= Seq::empty());
    assert(messages.last() == MessageView { role, content });
    assert(conversation_lines(messages.drop_last(), width) =~= Seq::empty());
    assert(conversation_lines(messages, width) =~= message_lines(role, pieces, width));
    lemma_blocks_follow_one_another(role, pieces, width);
    reveal_strlit("You:");
    reveal_strlit("Assistant:");
    reveal_strlit(" ");
    let blocks = Seq::new(
        pieces.len(),
        |i: int|
            {
                let label = match role {
                    MessageRole::User => "You:"@,
                    MessageRole::Assistant => "Assistant:"@,
                };
                if i > 0 {
                    if pieces[i].len() == 0 {
                        seq![Seq::empty()]
                    } else {
                        wrapped_text(pieces[i], width)
                    }
                } else if pieces[i].len() == 0 {
                    wrapped_text(label, width)
                } else {
                    wrapped_text(label + " "@ + pieces[i], width)
                }
            },
    );
    assert(blocks =~= Seq::new(
        pieces.len(),
        |i: int| wrapped_line(labelled_line(role, pieces[i], i), width),
    ));
}

proof fn lemma_blocks_follow_one_another(role: MessageRole, pieces: Seq<Seq<char>>, width: usize)
    ensures
        message_lines(role, pieces, width) == Seq::new(
            pieces.len(),
            |i: int| wrapped_line(labelled_line(role, pieces[i], i), width),
        ).flatten(),
    decreases pieces.len(),
{
    let blocks = Seq::new(
        pieces.len(),
        |i: int| wrapped_line(labelled_line(role, pieces[i], i), width),
    );
    if pieces.len() == 0 {
        assert(blocks =~= Seq::empty());
        assert(blocks.flatten() =~= Seq::empty());
    } else {
        let before = pieces.drop_last();
        lemma_blocks_follow_one_another(role, before, width);
        let earlier = Seq::new(
            before.len(),
            |i: int| wrapped_line(labelled_line(role, before[i], i), width),
        );
        let last = wrapped_line(labelled_line(role, pieces.last(), pieces.len() - 1), width);
        assert(blocks =~= earlier.push(last));
        earlier.lemma_flatten_push(last);
    }
}

/// Messages are shown in order, each with its own lines, and an empty line stands between two of
/// them.
pub proof fn lemma_messages_are_shown_in_order(
    messages: Seq<MessageView>,
    message: MessageView,
    width: usize,
)
    requires
        width > 0,
    ensures
        conversation_lines(Seq::empty(), width) == Seq::<Seq<char>>::empty(),
        conversation_lines(messages.push(message), width) == if messages.len() == 0 {
            conversation_lines(seq![message], width)
        } else {
            conversation_lines(messages, width).push(Seq::empty()) + conversation_lines(
                seq![message],
                width,
            )
        },
{
    let one = seq![message];
    assert(messages.push(message).drop_last() =~= messages);
    assert(one.drop_last() =~= Seq::empty());
    assert(one.last() == message);
    let own = message_lines(message.role, split_on(message.content, '\n'), width);
    assert(conversation_lines(one.drop_last(), width) =~= Seq::empty());
    assert(conversation_lines(one, width) =~= own);
    if messages.len() == 0 {
        assert(messages.push(message) =~= one);
    }
}

/// Without any columns there are no lines.
pub proof fn lemma_nothing_without_columns(messages: Seq<MessageView>)
    ensures
        conversation_lines(messages, 0).len() == 0,
{
}

/// All lines of a conversation are handed to be drawn, from the topmost shown one on, wherever the
/// area has cells.
pub proof fn lemma_lines_are_drawn(area: Rect, lines: Seq<Seq<char>>, top: usize)
    ensures
        area.width > 0 && area.height > 0 ==> {
            &&& conversation_scene(area, lines, top) is Some
            &&& conversation_scene(area, lines, top)->0.area == area
            &&& conversation_scene(area, lines, top)->0.lines == lines
            &&& top <= 65535 ==> conversation_scene(area, lines, top)->0.scroll == top
            &&& top > 65535 ==> conversation_scene(area, lines, top)->0.scroll == 65535
        },
        area.width == 0 || area.height == 0 ==> conversation_scene(area, lines, top) is None,
{
}

} // verus!
