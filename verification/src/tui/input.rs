//! The input line.

use vstd::prelude::*;

use crate::text::{
    byte_len, chars_of, concat2, lemma_char_width, lemma_utf8_len_concat, string_of_range, utf8_len,
};
use crate::tui::layout::{display_width, is_empty_rect, less, saturated, smaller, width_of, Rect};

verus! {

/// How many whole characters stand in the first `offset` bytes of a text.
pub open spec fn chars_within(input: Seq<char>, offset: int) -> int
    decreases input.len(),
{
    if input.len() == 0 || utf8_len(seq![input[0]]) > offset {
        0
    } else {
        1 + chars_within(input.drop_first(), offset - utf8_len(seq![input[0]]))
    }
}

/// The first position from which the text up to the cursor fits into `maximum` columns; the cursor
/// where none does.
pub open spec fn first_fitting(input: Seq<char>, from: int, cursor: int, maximum: int) -> int
    decreases cursor - from,
{
    if from >= cursor || display_width(input.subrange(from, cursor)) <= maximum {
        from
    } else {
        first_fitting(input, from + 1, cursor, maximum)
    }
}

/// How many characters can be shown in `width` columns, if `shown` can.
pub open spec fn fitting_length(input: Seq<char>, shown: int, width: int) -> int
    decreases input.len() - shown,
{
    if shown >= input.len() || display_width(input.take(shown + 1)) > width {
        shown
    } else {
        fitting_length(input, shown + 1, width)
    }
}

/// The part of a text that can be shown in `width` columns.
pub open spec fn clipped(input: Seq<char>, width: int) -> Seq<char> {
    if width == 0 {
        Seq::empty()
    } else {
        input.take(fitting_length(input, 0, width))
    }
}

/// The input line as it is to be drawn, with its cursor.
#[derive(Debug, PartialEq, Eq)]
pub struct InputScene {
    pub area: Rect,
    pub text: String,
    pub cursor_x: u16,
    pub cursor_y: u16,
}

/// The mathematical form of a drawn input line.
#[verifier::ext_equal]
pub struct InputSceneView {
    pub area: Rect,
    pub text: Seq<char>,
    pub cursor_x: u16,
    pub cursor_y: u16,
}

impl View for InputScene {
    type V = InputSceneView;

    open spec fn view(&self) -> InputSceneView {
        InputSceneView {
            area: self.area,
            text: self.text@,
            cursor_x: self.cursor_x,
            cursor_y: self.cursor_y,
        }
    }
}

/// The input line: a prompt and the part of the draft around the cursor that fits beside it.
pub open spec fn input_scene(area: Rect, input: Seq<char>, cursor_byte_offset: int) -> Option<
    InputSceneView,
> {
    let line = Rect { height: 1, ..area };
    if is_empty_rect(area) {
        None
    } else if area.width == 1 {
        Some(InputSceneView { area: line, text: ">"@, cursor_x: area.x, cursor_y: area.y })
    } else {
        let cursor = chars_within(input, cursor_byte_offset);
        let room = less(area.width as int, 2);
        let start = first_fitting(input, 0, cursor, less(room, 1));
        let offset = smaller(
            2 + display_width(input.subrange(start, cursor)),
            less(area.width as int, 1),
        );
        Some(
            InputSceneView {
                area: line,
                text: "> "@ + clipped(input.skip(start), room),
                cursor_x: saturated(area.x + offset),
                cursor_y: area.y,
            },
        )
    }
}

fn char_bytes(c: char) -> (n: usize)
    ensures
        n == utf8_len(seq![c]),
{
    let mut s = String::new();
    s.push(c);
    assert(s@ =~= seq![c]);
    byte_len(s.as_str())
}

/// The number of whole characters before a byte offset: an offset inside a character counts as the
/// start of it, one beyond the text as its end.
pub fn valid_cursor(chars: &[char], cursor_byte_offset: usize) -> (cursor: usize)
    ensures
        cursor == chars_within(chars@, cursor_byte_offset as int),
        cursor <= chars@.len(),
{
    let mut cursor: usize = 0;
    let mut left: usize = cursor_byte_offset;
    assert(chars@.skip(0) =~= chars@);
    while cursor < chars.len()
        invariant
            cursor <= chars@.len(),
            chars_within(chars@, cursor_byte_offset as int) == cursor + chars_within(
                chars@.skip(cursor as int),
                left as int,
            ),
        decreases chars@.len() - cursor,
    {
        let width: usize = char_bytes(chars[cursor]);
        if width > left {
            return cursor;
        }
        assert(chars@.skip(cursor as int).drop_first() =~= chars@.skip(cursor + 1));
        left = left - width;
        cursor += 1;
    }
    cursor
}

fn visible_input_start(chars: &[char], cursor: usize, maximum: usize) -> (start: usize)
    requires
        cursor <= chars@.len(),
    ensures
        start == first_fitting(chars@, 0, cursor as int, maximum as int),
        start <= cursor,
{
    let mut start: usize = 0;
    while start < cursor
        invariant
            start <= cursor <= chars@.len(),
            first_fitting(chars@, 0, cursor as int, maximum as int) == first_fitting(
                chars@,
                start as int,
                cursor as int,
                maximum as int,
            ),
        decreases cursor - start,
    {
        let before = string_of_range(chars, start, cursor);
        if width_of(before.as_str()) <= maximum {
            return start;
        }
        start += 1;
    }
    start
}

/// The part of a text, from `start` on, that can be shown in `width` columns.
fn clip_to_width(chars: &[char], start: usize, width: usize) -> (r: String)
    requires
        start <= chars@.len(),
    ensures
        r@ == clipped(chars@.skip(start as int), width as int),
{
    if width == 0 {
        let r = String::new();
        assert(r@ =~= Seq::empty());
        return r;
    }
    let ghost input = chars@.skip(start as int);
    let total: usize = chars.len();
    let mut end: usize = start;
    while end < total
        invariant
            total == chars@.len(),
            start <= end <= total,
            input == chars@.skip(start as int),
            fitting_length(input, 0, width as int) == fitting_length(
                input,
                end - start,
                width as int,
            ),
        ensures
            start <= end <= total,
            fitting_length(input, 0, width as int) == end - start,
        decreases total - end,
    {
        let candidate = string_of_range(chars, start, end + 1);
        assert(candidate@ =~= input.take(end - start + 1));
        if width_of(candidate.as_str()) > width {
            break;
        }
        end += 1;
    }
    assert(chars@.subrange(start as int, end as int) =~= input.take(end - start));
    string_of_range(chars, start, end)
}

/// Lay out the input line.
pub fn render(area: Rect, input: &str, cursor_byte_offset: usize) -> (scene: Option<InputScene>)
    ensures
        match input_scene(area, input@, cursor_byte_offset as int) {
            Some(view) => scene is Some && (scene->0)@ == view,
            None => scene is None,
        },
{
    if area.is_empty() {
        return None;
    }
    let line = Rect { height: 1, ..area };
    if area.width == 1 {
        return Some(
            InputScene { area: line, text: ">".to_owned(), cursor_x: area.x, cursor_y: area.y },
        );
    }
    let chars = chars_of(input);
    let cursor: usize = valid_cursor(chars.as_slice(), cursor_byte_offset);
    let room: usize = area.width as usize - 2;
    let start: usize = visible_input_start(chars.as_slice(), cursor, room.saturating_sub(1));
    let before = string_of_range(chars.as_slice(), start, cursor);
    let before_width: usize = width_of(before.as_str());
    let shown = clip_to_width(chars.as_slice(), start, room);
    let last: usize = area.width as usize - 1;
    let wanted: usize = before_width.saturating_add(2);
    let offset: u16 = if wanted <= last {
        wanted as u16
    } else {
        area.width - 1
    };
    Some(
        InputScene {
            area: line,
            text: concat2("> ", shown.as_str()),
            cursor_x: area.x.saturating_add(offset),
            cursor_y: area.y,
        },
    )
}

/// The cursor of the input line is inside its area.
pub proof fn lemma_input_cursor_is_inside(area: Rect, input: Seq<char>, cursor_byte_offset: int)
    requires
        !is_empty_rect(area),
        area.x + area.width <= u16::MAX,
    ensures
        ({
            let scene = input_scene(area, input, cursor_byte_offset)->0;
            &&& area.x <= scene.cursor_x < area.x + area.width
            &&& scene.cursor_y == area.y
        }),
{
}

/// The draft is shown from the first character from which all text up to the cursor fits beside the
/// prompt; where not even one character fits, from the cursor on.
pub proof fn lemma_text_before_cursor_fits(input: Seq<char>, from: int, cursor: int, maximum: int)
    requires
        from <= cursor,
    ensures
        ({
            let start = first_fitting(input, from, cursor, maximum);
            &&& from <= start <= cursor
            &&& start < cursor ==> display_width(input.subrange(start, cursor)) <= maximum
            &&& forall|earlier: int|
                from <= earlier < start ==> display_width(
                    #[trigger] input.subrange(earlier, cursor),
                ) > maximum
        }),
    decreases cursor - from,
{
    if from < cursor && display_width(input.subrange(from, cursor)) > maximum {
        lemma_text_before_cursor_fits(input, from + 1, cursor, maximum);
    }
}

/// A byte offset at the end of a character counts exactly the characters before it.
pub proof fn lemma_offset_of_cursor(input: Seq<char>, cursor: int)
    requires
        0 <= cursor <= input.len(),
    ensures
        chars_within(input, utf8_len(input.take(cursor)) as int) == cursor,
    decreases input.len(),
{
    if cursor == 0 {
        assert(input.take(0) =~= Seq::empty());
        if input.len() > 0 {
            lemma_char_width(input[0]);
        }
    } else {
        let rest = input.drop_first();
        let first = seq![input[0]];
        assert(input.take(cursor) =~= first + rest.take(cursor - 1));
        lemma_utf8_len_concat(first, rest.take(cursor - 1));
        lemma_offset_of_cursor(rest, cursor - 1);
    }
}

} // verus!
