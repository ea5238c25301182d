//! Areas of the terminal, and how wide text is on it.

use vstd::prelude::*;

use crate::text::texts;

verus! {

/// A rectangle of terminal cells.
#[derive(Debug, Clone, Copy, PartialEq, Eq)]
pub struct Rect {
    pub x: u16,
    pub y: u16,
    pub width: u16,
    pub height: u16,
}

/// The sum, or the largest number where the sum is beyond it.
pub open spec fn saturated(sum: int) -> u16 {
    if sum > u16::MAX {
        u16::MAX
    } else {
        sum as u16
    }
}

/// The difference, or zero where there is none.
pub open spec fn less(a: int, b: int) -> int {
    if a >= b {
        a - b
    } else {
        0
    }
}

/// The smaller of two numbers.
pub open spec fn smaller(a: int, b: int) -> int {
    if a <= b {
        a
    } else {
        b
    }
}

/// The rectangle at this place, cut off where the coordinates end.
pub open spec fn rect(x: u16, y: u16, width: u16, height: u16) -> Rect {
    Rect {
        x,
        y,
        width: (saturated(x + width) - x) as u16,
        height: (saturated(y + height) - y) as u16,
    }
}

/// Whether a rectangle has no cells.
pub open spec fn is_empty_rect(area: Rect) -> bool {
    area.width == 0 || area.height == 0
}

impl Rect {
    pub fn new(x: u16, y: u16, width: u16, height: u16) -> (area: Self)
        ensures
            area == rect(x, y, width, height),
    {
        Rect { x, y, width: x.saturating_add(width) - x, height: y.saturating_add(height) - y }
    }

    pub fn is_empty(&self) -> (empty: bool)
        ensures
            empty == is_empty_rect(*self),
    {
        self.width == 0 || self.height == 0
    }
}

/// What is left of a rectangle inside a border of one cell.
pub open spec fn inside_border(area: Rect) -> Rect {
    Rect {
        x: smaller(saturated(area.x + 1) as int, saturated(area.x + area.width) as int) as u16,
        y: smaller(saturated(area.y + 1) as int, saturated(area.y + area.height) as int) as u16,
        width: less(area.width as int, 2) as u16,
        height: less(area.height as int, 2) as u16,
    }
}

/// `Block::inner` of a block with all four borders: the area without one cell on each side, as far
/// as it has that many.
#[verifier::external_body]
pub(crate) fn inner_area(area: Rect) -> (inner: Rect)
    ensures
        inner == inside_border(area),
{
    let outer = ratatui::layout::Rect {
        x: area.x,
        y: area.y,
        width: area.width,
        height: area.height,
    };
    let inner = ratatui::widgets::Block::bordered().inner(outer);
    Rect { x: inner.x, y: inner.y, width: inner.width, height: inner.height }
}

/// How many columns a text takes on the terminal.
pub uninterp spec fn display_width(text: Seq<char>) -> usize;

/// `Line::width` of the line that `Line::from` makes of a text, which depends on the text alone.
#[verifier::external_body]
pub(crate) fn width_of(content: &str) -> (width: usize)
    ensures
        width == display_width(content@),
{
    ratatui::text::Line::from(content).width()
}

/// The clusters of characters that a text shows as units, in order.
pub uninterp spec fn grapheme_clusters(text: Seq<char>) -> Seq<Seq<char>>;

/// The symbols of `Line::styled_graphemes` on the line that `Line::from` makes of a text, in order;
/// they depend on the text alone.
#[verifier::external_body]
pub(crate) fn graphemes_of(content: &str) -> (clusters: Vec<String>)
    ensures
        texts(clusters@) == grapheme_clusters(content@),
{
    ratatui::text::Line::from(content)
        .styled_graphemes(ratatui::style::Style::default())
        .map(|grapheme| grapheme.symbol.to_owned())
        .collect()
}

/// The lines that a text is wrapped into at this width.
pub uninterp spec fn wrapped_text(text: Seq<char>, width: usize) -> Seq<Seq<char>>;

/// `textwrap::wrap` with words broken where they are too long, which depends on the text and the
/// width alone.
#[verifier::external_body]
pub(crate) fn wrap_text(content: &str, width: usize) -> (lines: Vec<String>)
    ensures
        texts(lines@) == wrapped_text(content@, width),
{
    textwrap::wrap(content, textwrap::Options::new(width).break_words(true))
        .into_iter()
        .map(|line| line.into_owned())
        .collect()
}

} // verus!
