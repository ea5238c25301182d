//! What a frame shows of the state, said of the texts and areas themselves.

use vstd::prelude::*;

use crate::provider::{ModelMetadataView, Usage};
use crate::text::{
    decimal, lemma_char_width, lemma_utf8_len_concat, on_single_line, utf8_len,
};
use crate::tui::app::{AppView, RuntimeStatusView};
use crate::tui::conversation::conversation_lines;
use crate::tui::input::{
    chars_within, clipped, first_fitting, fitting_length, input_scene, lemma_offset_of_cursor,
    lemma_text_before_cursor_fits,
};
use crate::tui::layout::{display_width, grapheme_clusters, less, Rect};
use crate::tui::model_picker::{picker_rows, CatalogStateView, PickerView};
use crate::tui::picker_scene::{
    list_body, list_error, modal_area, picker_body, picker_content, picker_footer, picker_scene,
};
use crate::tui::status_line::{
    cluster_prefix, clusters_within, status_line_text, status_scene, truncated_line,
};
use crate::tui::{frame_scene, framed};

verus! {

/// The columns that clusters take one beside the other.
pub open spec fn columns(clusters: Seq<Seq<char>>) -> int
    decreases clusters.len(),
{
    if clusters.len() == 0 {
        0
    } else {
        display_width(clusters[0]) + columns(clusters.drop_first())
    }
}

/// The status line names the model, the state of the runtime in words, and the counts, if they are
/// known, each as it is, on one line.
pub proof fn lemma_status_line_tells_all(
    model_name: Seq<char>,
    status: RuntimeStatusView,
    usage: Option<Usage>,
)
    ensures
        ({
            let words = match status {
                RuntimeStatusView::Idle => "idle"@,
                RuntimeStatusView::Responding => "responding"@,
                RuntimeStatusView::Truncated => "truncated: output length limit"@,
                RuntimeStatusView::Error(error) => "error: "@ + on_single_line(error),
            };
            let start = "model: "@ + on_single_line(model_name) + " | "@ + words;
            &&& usage is None ==> status_line_text(model_name, status, usage) == start
            &&& usage is Some ==> status_line_text(model_name, status, usage) == start + " | in "@
                + decimal(usage->0.input_tokens as nat) + " | cache "@ + decimal(
                usage->0.cached_input_tokens as nat,
            ) + " | out "@ + decimal(usage->0.output_tokens as nat)
        }),
{
    let words = match status {
        RuntimeStatusView::Idle => "idle"@,
        RuntimeStatusView::Responding => "responding"@,
        RuntimeStatusView::Truncated => "truncated: output length limit"@,
        RuntimeStatusView::Error(error) => "error: "@ + on_single_line(error),
    };
    let start = "model: "@ + on_single_line(model_name) + " | "@ + words;
    if let Some(usage) = usage {
        assert(status_line_text(model_name, status, Some(usage)) =~= start + " | in "@ + decimal(
            usage.input_tokens as nat,
        ) + " | cache "@ + decimal(usage.cached_input_tokens as nat) + " | out "@ + decimal(
            usage.output_tokens as nat,
        ));
    } else {
        reveal_strlit("");
        assert(status_line_text(model_name, status, usage) =~= start);
    }
}

proof fn lemma_clusters_are_kept(clusters: Seq<Seq<char>>, from: int, room: int) -> (to: int)
    requires
        0 <= from <= clusters.len(),
        room >= 0,
    ensures
        from <= to <= clusters.len(),
        clusters_within(clusters, from, room) == clusters.subrange(from, to).flatten(),
        columns(clusters.subrange(from, to)) <= room,
        to < clusters.len() ==> columns(clusters.subrange(from, to)) + display_width(clusters[to])
            > room,
    decreases clusters.len() - from,
{
    if from >= clusters.len() || display_width(clusters[from]) > room {
        assert(clusters.subrange(from, from) =~= Seq::empty());
        assert(clusters.subrange(from, from).flatten() =~= Seq::<char>::empty());
        from
    } else {
        let to = lemma_clusters_are_kept(
            clusters,
            from + 1,
            room - display_width(clusters[from]),
        );
        let kept = clusters.subrange(from, to);
        assert(kept.drop_first() =~= clusters.subrange(from + 1, to));
        assert(kept.flatten() == kept[0] + kept.drop_first().flatten());
        to
    }
}

/// A line that fits is left as it is. Any other keeps as many of its first clusters as fit, whole, and
/// with an ellipsis behind them where there is room for one.
pub proof fn lemma_long_line_is_cut_between_clusters(content: Seq<char>, maximum_width: usize)
    ensures
        display_width(content) <= maximum_width ==> truncated_line(content, maximum_width)
            == content,
        display_width(content) > maximum_width ==> {
            let clusters = grapheme_clusters(content);
            let dots = display_width("..."@);
            exists|n: int|
                {
                    &&& 0 <= n <= clusters.len()
                    &&& truncated_line(content, maximum_width) == if maximum_width < dots {
                        (#[trigger] clusters.subrange(0, n)).flatten()
                    } else {
                        clusters.subrange(0, n).flatten() + "..."@
                    }
                    &&& columns(clusters.subrange(0, n)) <= if maximum_width < dots {
                        maximum_width as int
                    } else {
                        maximum_width - dots
                    }
                    &&& n < clusters.len() ==> columns(clusters.subrange(0, n)) + display_width(
                        clusters[n],
                    ) > if maximum_width < dots {
                        maximum_width as int
                    } else {
                        maximum_width - dots
                    }
                }
        },
{
    if display_width(content) > maximum_width {
        let clusters = grapheme_clusters(content);
        let dots = display_width("..."@);
        let room = if maximum_width < dots {
            maximum_width as int
        } else {
            maximum_width - dots
        };
        let n = lemma_clusters_are_kept(clusters, 0, room);
        assert(cluster_prefix(content, room) == clusters.subrange(0, n).flatten());
    }
}

/// The status line is drawn in the first row of its area, cut to the width of it.
pub proof fn lemma_status_line_is_drawn(
    area: Rect,
    model_name: Seq<char>,
    status: RuntimeStatusView,
    usage: Option<Usage>,
)
    ensures
        ({
            let scene = status_scene(area, model_name, status, usage);
            &&& scene is Some <==> area.width > 0 && area.height > 0
            &&& scene is Some ==> {
                &&& scene->0.text == truncated_line(
                    status_line_text(model_name, status, usage),
                    area.width as usize,
                )
                &&& scene->0.area == (Rect { height: 1, ..area })
            }
        }),
{
}

proof fn lemma_shown_length(input: Seq<char>, shown: int, width: int) -> (n: int)
    requires
        0 <= shown <= input.len(),
    ensures
        n == fitting_length(input, shown, width),
        shown <= n <= input.len(),
        forall|m: int| shown < m <= n ==> display_width(#[trigger] input.take(m)) <= width,
        n < input.len() ==> display_width(input.take(n + 1)) > width,
    decreases input.len() - shown,
{
    if shown >= input.len() || display_width(input.take(shown + 1)) > width {
        shown
    } else {
        lemma_shown_length(input, shown + 1, width)
    }
}

/// The input line shows, behind its prompt, the draft as it is from some character on: from the first
/// one from which all text up to the cursor fits beside the prompt with a column to spare, and as far
/// as it fits. The cursor stands behind the text before it.
pub proof fn lemma_draft_is_shown_around_the_cursor(area: Rect, input: Seq<char>, cursor: int)
    requires
        0 <= cursor <= input.len(),
        area.width >= 2,
        area.height >= 1,
        area.x + area.width <= u16::MAX,
    ensures
        ({
            let scene = input_scene(area, input, utf8_len(input.take(cursor)) as int);
            &&& scene is Some
            &&& scene->0.area == (Rect { height: 1, ..area })
            &&& scene->0.cursor_y == area.y
            &&& exists|start: int, end: int|
                {
                    let shown = #[trigger] input.subrange(start, end);
                    let room = area.width - 2;
                    let before = display_width(input.subrange(start, cursor));
                    &&& 0 <= start <= cursor
                    &&& start <= end <= input.len()
                    &&& scene->0.text == "> "@ + shown
                    &&& start < cursor ==> before <= less(room, 1)
                    &&& forall|earlier: int|
                        0 <= earlier < start ==> display_width(
                            #[trigger] input.subrange(earlier, cursor),
                        ) > less(room, 1)
                    &&& room == 0 ==> start == end
                    &&& forall|m: int|
                        start < m <= end ==> display_width(#[trigger] input.subrange(start, m))
                            <= room
                    &&& room > 0 && end < input.len() ==> display_width(
                        input.subrange(start, end + 1),
                    ) > room
                    &&& 2 + before <= area.width - 1 ==> scene->0.cursor_x == area.x + 2 + before
                    &&& 2 + before > area.width - 1 ==> scene->0.cursor_x == area.x + area.width - 1
                }
        }),
{
    lemma_offset_of_cursor(input, cursor);
    let room = area.width - 2;
    lemma_text_before_cursor_fits(input, 0, cursor, less(room, 1));
    let start = first_fitting(input, 0, cursor, less(room, 1));
    let rest = input.skip(start);
    let n = if room == 0 {
        0
    } else {
        lemma_shown_length(rest, 0, room)
    };
    let end = start + n;
    assert(clipped(rest, room) =~= input.subrange(start, end));
    assert forall|m: int| start < m <= end implies display_width(#[trigger] input.subrange(start, m))
        <= room by {
        assert(rest.take(m - start) =~= input.subrange(start, m));
    }
    if room > 0 && end < input.len() {
        assert(rest.take(n + 1) =~= input.subrange(start, end + 1));
    }
    let scene = input_scene(area, input, utf8_len(input.take(cursor)) as int);
    assert(scene->0.text == "> "@ + input.subrange(start, end));
}

/// A single column has room for the prompt alone, and an empty area for nothing.
pub proof fn lemma_narrow_input_line(area: Rect, input: Seq<char>, offset: int)
    ensures
        area.width == 0 || area.height == 0 ==> input_scene(area, input, offset) is None,
        area.width == 1 && area.height > 0 ==> {
            let scene = input_scene(area, input, offset)->0;
            &&& input_scene(area, input, offset) is Some
            &&& scene.text == ">"@
            &&& scene.cursor_x == area.x
            &&& scene.cursor_y == area.y
        },
{
}

/// A frame shows the conversation in all rows but the last two, from the topmost line of the state on,
/// the status line in the last row but one, and the draft in the last row; the picker lies over it. A
/// frame of one row shows the draft alone.
pub proof fn lemma_frame_shows_the_state(v: AppView, area: Rect)
    requires
        area.width >= 1,
        area.x + area.width <= u16::MAX,
        area.y + area.height <= u16::MAX,
    ensures
        ({
            let scene = frame_scene(v, area);
            let cursor = utf8_len(v.input.take(v.cursor)) as int;
            let row = |y: int| Rect { y: y as u16, height: 1, ..area };
            &&& scene.picker == picker_scene(area, v.picker, v.model_id)
            &&& area.height >= 3 ==> {
                &&& scene.conversation is Some
                &&& scene.conversation->0.area == (Rect { height: (area.height - 2) as u16, ..area })
                &&& scene.conversation->0.lines == conversation_lines(
                    v.messages,
                    area.width as usize,
                )
                &&& v.top <= 65535 ==> scene.conversation->0.scroll == v.top
            }
            &&& area.height < 3 ==> scene.conversation is None
            &&& area.height >= 2 ==> {
                &&& scene.status == status_scene(
                    row(area.y + area.height - 2),
                    v.model_name,
                    v.status,
                    v.usage,
                )
                &&& scene.input == input_scene(row(area.y + area.height - 1), v.input, cursor)
            }
            &&& area.height < 2 ==> scene.status is None
            &&& area.height == 1 ==> scene.input == input_scene(area, v.input, cursor)
            &&& area.height == 0 ==> scene.input is None
        }),
{
}

/// A frame measures the conversation that it shows.
pub proof fn lemma_frame_measures_the_conversation(v: AppView, area: Rect)
    requires
        area.height >= 2,
        area.x + area.width <= u16::MAX,
        area.y + area.height <= u16::MAX,
        conversation_lines(v.messages, area.width as usize).len() <= usize::MAX,
    ensures
        framed(v, area).content_lines == conversation_lines(v.messages, area.width as usize).len(),
        framed(v, area).viewport_height == area.height - 2,
{
}

/// The row of a model shows its name, identity, context limit and prices, each as it is, on one line;
/// the active row and the row of the current model are marked.
pub open spec fn row_tells_all(
    row: Seq<char>,
    model: ModelMetadataView,
    is_active: bool,
    is_current: bool,
) -> bool {
    let prompt = model.prompt_price_usd_per_million_tokens;
    let completion = model.completion_price_usd_per_million_tokens;
    let prompt_words = if prompt is Some {
        "$"@ + on_single_line(prompt->0) + "/M"@
    } else {
        "unknown"@
    };
    let completion_words = if completion is Some {
        "$"@ + on_single_line(completion->0) + "/M"@
    } else {
        "unknown"@
    };
    let active = if is_active {
        ">"@
    } else {
        " "@
    };
    let current = if is_current {
        "*"@
    } else {
        " "@
    };
    row == active + current + " "@ + on_single_line(model.display_name) + " | "@ + on_single_line(
        model.model_id,
    ) + " | ctx "@ + decimal(model.limits.context_window_tokens as nat) + " | in "@ + prompt_words
        + " | out "@ + completion_words
}

/// The list shows one row for every model that the search finds, in order, with the active row and the
/// current model marked; without any it says so, and so it does while the catalog loads and when it
/// failed, in the words of the failure.
pub proof fn lemma_list_shows_the_rows(v: PickerView, current_model_id: Seq<char>)
    ensures
        ({
            let rows = picker_rows(v, current_model_id);
            let lines = list_body(v, current_model_id);
            &&& v.catalog is Loaded && rows.len() > 0 ==> {
                &&& lines.len() == rows.len()
                &&& forall|i: int|
                    0 <= i < rows.len() ==> row_tells_all(
                        #[trigger] lines[i],
                        rows[i],
                        i == v.active_row,
                        rows[i].model_id == current_model_id,
                    )
            }
            &&& v.catalog is Loaded && rows.len() == 0 ==> lines == seq!["No matching models."@]
            &&& v.catalog is Loading ==> lines == seq!["Loading models..."@]
            &&& v.catalog matches CatalogStateView::Failed(error) ==> lines == seq![
                "Catalog error: "@ + on_single_line(error),
            ]
            &&& v.error is None ==> list_error(v) is None
            &&& v.error is Some ==> list_error(v) == Some("Error: "@ + on_single_line(v.error->0))
        }),
{
}

/// Inside its border the picker shows the search text, and below it the error, the list, and what can
/// be done, as far as there are rows.
pub proof fn lemma_picker_shows_search_and_list(
    inner: Rect,
    v: PickerView,
    current_model_id: Seq<char>,
)
    requires
        inner.width > 0,
        inner.height > 0,
        inner.x + inner.width <= u16::MAX,
        inner.y + inner.height <= u16::MAX,
    ensures
        ({
            let body = picker_body(inner, v, current_model_id);
            let content = picker_content(inner, v, current_model_id);
            let footer = picker_footer(inner, v);
            let list_rows: int = if inner.height >= 3 {
                inner.height - 2
            } else {
                inner.height - 1
            };
            &&& body is Some
            &&& body->0.search_text == "Search: "@ + on_single_line(v.query)
            &&& body->0.search_area == (Rect { height: 1, ..inner })
            &&& body->0.cursor_y == inner.y
            &&& body->0.content == content
            &&& body->0.footer == footer
            &&& content is Some <==> list_rows > 0
            &&& content is Some ==> {
                &&& content->0.lines == list_body(v, current_model_id)
                &&& content->0.error == list_error(v)
                &&& content->0.area.x == inner.x
                &&& content->0.area.y == inner.y + 1
                &&& content->0.area.width == inner.width
                &&& content->0.area.height == list_rows
            }
            &&& footer is Some <==> inner.height >= 3
            &&& footer is Some ==> {
                &&& (footer->0).0.y == inner.y + inner.height - 1
                &&& (footer->0).0.x == inner.x
                &&& (footer->0).0.width == inner.width
                &&& (footer->0).0.height == 1
                &&& v.pending_model_id is Some ==> (footer->0).1
                    == "Waiting for runtime selection..."@
                &&& v.pending_model_id is None ==> (footer->0).1
                    == "Enter select  Esc close  Up/Down navigate"@
            }
        }),
{
}

/// The picker takes as many columns and rows as it needs, within its limits and those of the area, and
/// lies in the middle of it.
pub proof fn lemma_picker_is_centred(area: Rect, desired_height: int)
    requires
        area.width > 0,
        area.height > 0,
        area.x + area.width <= u16::MAX,
        area.y + area.height <= u16::MAX,
        desired_height >= 0,
    ensures
        ({
            let modal = modal_area(area, desired_height);
            let left = modal.x - area.x;
            let right = area.width - modal.width - left;
            let above = modal.y - area.y;
            let below = area.height - modal.height - above;
            &&& modal.width == if area.width < 96 {
                area.width as int
            } else {
                96
            }
            &&& desired_height <= 20 && desired_height <= area.height ==> modal.height
                == desired_height
            &&& area.height <= 20 && area.height <= desired_height ==> modal.height == area.height
            &&& 20 <= area.height && 20 <= desired_height ==> modal.height == 20
            &&& left == right || left + 1 == right
            &&& above == below || above + 1 == below
        }),
{
}

/// The list is scrolled no further than it takes to show the active row, and never beyond its end.
pub proof fn lemma_list_scrolls_to_the_active_row(
    inner: Rect,
    v: PickerView,
    current_model_id: Seq<char>,
)
    requires
        inner.width > 0,
        inner.height > 1,
        inner.x + inner.width <= u16::MAX,
        inner.y + inner.height <= u16::MAX,
        v.active_row + 1 < u16::MAX,
        list_body(v, current_model_id).len() + 1 < u16::MAX,
    ensures
        ({
            let content = picker_content(inner, v, current_model_id)->0;
            let above: int = if v.error is Some {
                1
            } else {
                0
            };
            let line = v.active_row + above;
            let count = list_body(v, current_model_id).len() + above;
            let height = content.area.height as int;
            &&& line < height ==> content.scroll == 0
            &&& height <= line < count ==> content.scroll == line - height + 1
            &&& line >= count && count > height ==> content.scroll == count - height
            &&& count <= height ==> content.scroll == 0
        }),
{
}

/// The cursor of an open picker stands behind its search text, or in the last column.
pub proof fn lemma_search_cursor_is_behind_the_text(
    inner: Rect,
    v: PickerView,
    current_model_id: Seq<char>,
)
    requires
        inner.width > 0,
        inner.height > 0,
        inner.x + inner.width <= u16::MAX,
    ensures
        ({
            let body = picker_body(inner, v, current_model_id)->0;
            let width = display_width("Search: "@ + on_single_line(v.query));
            &&& width < inner.width ==> body.cursor_x == inner.x + width
            &&& width >= inner.width ==> body.cursor_x == inner.x + inner.width - 1
        }),
{
}

/// An open picker is drawn in a modal that is tall enough for its border, its search, its error, its
/// list and its footer, as far as the limits let it be.
pub proof fn lemma_open_picker_is_drawn(area: Rect, v: PickerView, current_model_id: Seq<char>)
    requires
        v.open,
        area.width > 0,
        area.height > 0,
        area.x + area.width <= u16::MAX,
        area.y + area.height <= u16::MAX,
    ensures
        ({
            let scene = picker_scene(area, v, current_model_id);
            let above: int = if v.error is Some {
                1
            } else {
                0
            };
            let wanted = 4 + above + list_body(v, current_model_id).len();
            &&& scene is Some
            &&& scene->0.modal == modal_area(area, wanted)
            &&& scene->0.body is Some <==> scene->0.modal.width > 2 && scene->0.modal.height > 2
            &&& scene->0.body is Some ==> scene->0.body == picker_body(
                Rect {
                    x: (scene->0.modal.x + 1) as u16,
                    y: (scene->0.modal.y + 1) as u16,
                    width: (scene->0.modal.width - 2) as u16,
                    height: (scene->0.modal.height - 2) as u16,
                },
                v,
                current_model_id,
            )
        }),
{
}

/// As many characters stand before a byte offset as end at it or before it.
pub proof fn lemma_characters_before_an_offset(input: Seq<char>, offset: int)
    requires
        offset >= 0,
    ensures
        ({
            let n = chars_within(input, offset);
            &&& 0 <= n <= input.len()
            &&& utf8_len(input.take(n)) <= offset
            &&& n < input.len() ==> utf8_len(input.take(n + 1)) > offset
        }),
    decreases input.len(),
{
    let n = chars_within(input, offset);
    if input.len() == 0 {
        assert(input.take(0) =~= Seq::empty());
    } else {
        let first = seq![input[0]];
        let rest = input.drop_first();
        lemma_char_width(input[0]);
        if utf8_len(first) > offset {
            assert(input.take(0) =~= Seq::empty());
            assert(input.take(1) =~= first);
        } else {
            lemma_characters_before_an_offset(rest, offset - utf8_len(first));
            assert(input.take(n) =~= first + rest.take(n - 1));
            lemma_utf8_len_concat(first, rest.take(n - 1));
            if n < input.len() {
                assert(input.take(n + 1) =~= first + rest.take(n));
                lemma_utf8_len_concat(first, rest.take(n));
            }
        }
    }
}

/// A closed picker is not drawn.
pub proof fn lemma_closed_picker_is_not_drawn(
    area: Rect,
    v: PickerView,
    current_model_id: Seq<char>,
)
    requires
        !v.open,
    ensures
        picker_scene(area, v, current_model_id) is None,
{
}

} // verus!
