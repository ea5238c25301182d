//! The model picker as it is drawn over the interface.

use vstd::prelude::*;

use crate::provider::{ModelMetadata, ModelMetadataView};
use crate::text::{
    concat2, concat3, decimal, on_single_line, opt_str, opt_text, same_text, single_line, texts,
    to_decimal,
};
use crate::tui::layout::{
    display_width, inner_area, inside_border, is_empty_rect, less, rect, saturated, smaller,
    width_of, Rect,
};
use crate::tui::model_picker::{
    picker_rows, referenced_models, CatalogState, CatalogStateView, ModelPickerState, PickerView,
};

verus! {

/// A price as it is shown.
pub open spec fn price_text(price: Option<Seq<char>>) -> Seq<char> {
    match price {
        Some(price) => "$"@ + on_single_line(price) + "/M"@,
        None => "unknown"@,
    }
}

pub fn format_price(price: Option<&str>) -> (text: String)
    ensures
        text@ == price_text(opt_str(price)),
{
    match price {
        Some(price) => concat3("$", single_line(price).as_str(), "/M"),
        None => "unknown".to_owned(),
    }
}

/// The row of a model: markers for the active and the current row, name, identity, context limit
/// and prices.
pub open spec fn model_row(model: ModelMetadataView, is_active: bool, is_current: bool) -> Seq<
    char,
> {
    (if is_active {
        ">"@
    } else {
        " "@
    }) + (if is_current {
        "*"@
    } else {
        " "@
    }) + " "@ + on_single_line(model.display_name) + " | "@ + on_single_line(model.model_id)
        + " | ctx "@ + decimal(model.limits.context_window_tokens as nat) + " | in "@ + price_text(
        model.prompt_price_usd_per_million_tokens,
    ) + " | out "@ + price_text(model.completion_price_usd_per_million_tokens)
}

pub fn format_model_row(model: &ModelMetadata, is_active: bool, is_current: bool) -> (row: String)
    ensures
        row@ == model_row(model@, is_active, is_current),
{
    let active_marker = if is_active {
        ">"
    } else {
        " "
    };
    let current_marker = if is_current {
        "*"
    } else {
        " "
    };
    let prompt_price = match &model.prompt_price_usd_per_million_tokens {
        Some(price) => Some(price.as_str()),
        None => None,
    };
    let completion_price = match &model.completion_price_usd_per_million_tokens {
        Some(price) => Some(price.as_str()),
        None => None,
    };
    let mut row = concat3(active_marker, current_marker, " ");
    row.append(single_line(model.display_name.as_str()).as_str());
    row.append(" | ");
    row.append(single_line(model.model_id.as_str()).as_str());
    row.append(" | ctx ");
    row.append(to_decimal(model.limits.context_window_tokens).as_str());
    row.append(" | in ");
    row.append(format_price(prompt_price).as_str());
    row.append(" | out ");
    row.append(format_price(completion_price).as_str());
    row
}

/// The area of the modal: in the middle, at most 96 columns by 20 rows, no taller than it needs.
pub open spec fn modal_area(area: Rect, desired_height: int) -> Rect {
    if is_empty_rect(area) {
        Rect { x: 0, y: 0, width: 0, height: 0 }
    } else {
        let width = smaller(area.width as int, 96) as u16;
        let height = smaller(area.height as int, smaller(desired_height, 20)) as u16;
        rect(
            saturated(area.x + (area.width - width) / 2),
            saturated(area.y + (area.height - height) / 2),
            width,
            height,
        )
    }
}

pub fn centered_modal_area(area: Rect, desired_height: usize) -> (modal: Rect)
    ensures
        modal == modal_area(area, desired_height as int),
{
    if area.is_empty() {
        return Rect { x: 0, y: 0, width: 0, height: 0 };
    }
    let width: u16 = if area.width <= 96 {
        area.width
    } else {
        96
    };
    let wanted: u16 = if desired_height <= 20 {
        desired_height as u16
    } else {
        20
    };
    let height: u16 = if area.height <= wanted {
        area.height
    } else {
        wanted
    };
    let x: u16 = area.x.saturating_add((area.width - width) / 2);
    let y: u16 = area.y.saturating_add((area.height - height) / 2);
    Rect::new(x, y, width, height)
}

/// The topmost shown line of the list: far enough down that the active row is shown, and no further
/// than the end of the list.
pub open spec fn list_scroll(
    active_row: int,
    has_error: bool,
    line_count: int,
    visible_height: int,
) -> u16 {
    let active_line = smaller(
        active_row + (if has_error {
            1int
        } else {
            0int
        }),
        usize::MAX as int,
    );
    saturated(
        smaller(less(active_line, less(visible_height, 1)), less(line_count, visible_height)),
    )
}

pub fn content_scroll_offset(picker: &ModelPickerState, line_count: usize, visible_height: u16) -> (
offset: u16)
    ensures
        offset == list_scroll(
            picker@.active_row as int,
            picker@.error is Some,
            line_count as int,
            visible_height as int,
        ),
{
    let error_lines: usize = if picker.error().is_some() {
        1
    } else {
        0
    };
    let active_line: usize = picker.active_row().saturating_add(error_lines);
    let visible: usize = visible_height as usize;
    let maximum: usize = line_count.saturating_sub(visible);
    let desired: usize = active_line.saturating_sub(visible.saturating_sub(1));
    let offset: usize = if desired <= maximum {
        desired
    } else {
        maximum
    };
    if offset > 65535 {
        65535
    } else {
        offset as u16
    }
}

/// The rows of a list of models.
pub open spec fn model_rows(
    models: Seq<ModelMetadataView>,
    active_row: int,
    current_model_id: Seq<char>,
) -> Seq<Seq<char>> {
    Seq::new(
        models.len(),
        |i: int| model_row(models[i], i == active_row, models[i].model_id == current_model_id),
    )
}

/// What the list shows below an error.
pub open spec fn list_body(v: PickerView, current_model_id: Seq<char>) -> Seq<Seq<char>> {
    let rows = picker_rows(v, current_model_id);
    match v.catalog {
        CatalogStateView::Loading => seq!["Loading models..."@],
        CatalogStateView::Failed(error) => seq!["Catalog error: "@ + on_single_line(error)],
        CatalogStateView::Loaded(_) => if rows.len() == 0 {
            seq!["No matching models."@]
        } else {
            model_rows(rows, v.active_row as int, current_model_id)
        },
    }
}

/// The error line above the list, where there is an error.
pub open spec fn list_error(v: PickerView) -> Option<Seq<char>> {
    match v.error {
        Some(error) => Some("Error: "@ + on_single_line(error)),
        None => None,
    }
}

/// The content of the modal: an error line, if there is an error, and the list below it.
#[derive(Debug, PartialEq, Eq)]
pub struct PickerContent {
    pub area: Rect,
    pub error: Option<String>,
    pub lines: Vec<String>,
    pub scroll: u16,
}

/// What is inside the border of the modal.
#[derive(Debug, PartialEq, Eq)]
pub struct PickerBody {
    pub search_area: Rect,
    pub search_text: String,
    pub cursor_x: u16,
    pub cursor_y: u16,
    pub content: Option<PickerContent>,
    pub footer: Option<(Rect, String)>,
}

/// The picker as it is to be drawn.
#[derive(Debug, PartialEq, Eq)]
pub struct PickerScene {
    pub modal: Rect,
    pub body: Option<PickerBody>,
}

/// The mathematical form of the content of the modal.
#[verifier::ext_equal]
pub struct PickerContentView {
    pub area: Rect,
    pub error: Option<Seq<char>>,
    pub lines: Seq<Seq<char>>,
    pub scroll: u16,
}

/// The mathematical form of the inside of the modal.
#[verifier::ext_equal]
pub struct PickerBodyView {
    pub search_area: Rect,
    pub search_text: Seq<char>,
    pub cursor_x: u16,
    pub cursor_y: u16,
    pub content: Option<PickerContentView>,
    pub footer: Option<(Rect, Seq<char>)>,
}

/// The mathematical form of the drawn picker.
#[verifier::ext_equal]
pub struct PickerSceneView {
    pub modal: Rect,
    pub body: Option<PickerBodyView>,
}

impl View for PickerContent {
    type V = PickerContentView;

    open spec fn view(&self) -> PickerContentView {
        PickerContentView {
            area: self.area,
            error: opt_text(self.error),
            lines: texts(self.lines@),
            scroll: self.scroll,
        }
    }
}

impl View for PickerBody {
    type V = PickerBodyView;

    open spec fn view(&self) -> PickerBodyView {
        PickerBodyView {
            search_area: self.search_area,
            search_text: self.search_text@,
            cursor_x: self.cursor_x,
            cursor_y: self.cursor_y,
            content: match self.content {
                Some(content) => Some(content@),
                None => None,
            },
            footer: match self.footer {
                Some((area, text)) => Some((area, text@)),
                None => None,
            },
        }
    }
}

impl View for PickerScene {
    type V = PickerSceneView;

    open spec fn view(&self) -> PickerSceneView {
        PickerSceneView {
            modal: self.modal,
            body: match self.body {
                Some(body) => Some(body@),
                None => None,
            },
        }
    }
}

/// The content of a modal with this inside.
pub open spec fn picker_content(
    inner: Rect,
    v: PickerView,
    current_model_id: Seq<char>,
) -> Option<PickerContentView> {
    let footer_rows: int = if inner.height >= 3 {
        1
    } else {
        0
    };
    let height = less(less(inner.height as int, 1), footer_rows) as u16;
    let area = rect(inner.x, saturated(inner.y + 1), inner.width, height);
    let lines = list_body(v, current_model_id);
    let error_rows: int = if v.error is Some {
        1
    } else {
        0
    };
    if is_empty_rect(area) {
        None
    } else {
        Some(
            PickerContentView {
                area,
                error: list_error(v),
                lines,
                scroll: list_scroll(
                    v.active_row as int,
                    v.error is Some,
                    lines.len() + error_rows,
                    area.height as int,
                ),
            },
        )
    }
}

/// The footer of a modal with this inside.
pub open spec fn picker_footer(inner: Rect, v: PickerView) -> Option<(Rect, Seq<char>)> {
    if inner.height >= 3 {
        Some(
            (
                rect(inner.x, saturated(inner.y + less(inner.height as int, 1)), inner.width, 1),
                if v.pending_model_id is Some {
                    "Waiting for runtime selection..."@
                } else {
                    "Enter select  Esc close  Up/Down navigate"@
                },
            ),
        )
    } else {
        None
    }
}

/// What a modal with this inside shows.
pub open spec fn picker_body(inner: Rect, v: PickerView, current_model_id: Seq<char>) -> Option<
    PickerBodyView,
> {
    let search_text = "Search: "@ + on_single_line(v.query);
    if is_empty_rect(inner) {
        None
    } else {
        Some(
            PickerBodyView {
                search_area: rect(inner.x, inner.y, inner.width, 1),
                search_text,
                cursor_x: saturated(
                    inner.x + smaller(
                        display_width(search_text) as int,
                        less(inner.width as int, 1),
                    ),
                ),
                cursor_y: inner.y,
                content: picker_content(inner, v, current_model_id),
                footer: picker_footer(inner, v),
            },
        )
    }
}

/// How many rows the modal wants: border, search and footer, an error, and the list.
pub open spec fn wanted_height(v: PickerView, current_model_id: Seq<char>) -> int {
    4 + (if v.error is Some {
        1int
    } else {
        0int
    }) + list_body(v, current_model_id).len()
}

/// The picker over this area; nothing while it is closed or where there is no room.
pub open spec fn picker_scene(area: Rect, v: PickerView, current_model_id: Seq<char>) -> Option<
    PickerSceneView,
> {
    let modal = modal_area(area, wanted_height(v, current_model_id));
    if !v.open || is_empty_rect(area) || is_empty_rect(modal) {
        None
    } else {
        Some(
            PickerSceneView {
                modal,
                body: picker_body(inside_border(modal), v, current_model_id),
            },
        )
    }
}

fn write_list_body(picker: &ModelPickerState, current_model_id: &str) -> (lines: Vec<String>)
    ensures
        texts(lines@) == list_body(picker@, current_model_id@),
{
    let mut lines: Vec<String> = Vec::new();
    match picker.catalog_state() {
        CatalogState::Loading => {
            lines.push("Loading models...".to_owned());
            assert(texts(lines@) =~= seq!["Loading models..."@]);
        },
        CatalogState::Failed(error) => {
            lines.push(concat2("Catalog error: ", single_line(error.as_str()).as_str()));
            assert(texts(lines@) =~= list_body(picker@, current_model_id@));
        },
        CatalogState::Loaded(_) => {
            let models = picker.filtered_models(current_model_id);
            let ghost rows = picker_rows(picker@, current_model_id@);
            let active_row: usize = picker.active_row();
            if models.len() == 0 {
                lines.push("No matching models.".to_owned());
                assert(rows.len() == 0);
                assert(texts(lines@) =~= seq!["No matching models."@]);
            } else {
                let ghost expected = model_rows(rows, active_row as int, current_model_id@);
                assert(rows.len() == models@.len());
                let mut i: usize = 0;
                while i < models.len()
                    invariant
                        referenced_models(models@) == rows,
                        expected == model_rows(rows, active_row as int, current_model_id@),
                        i <= models@.len(),
                        texts(lines@) == expected.take(i as int),
                    decreases models@.len() - i,
                {
                    let ghost before = texts(lines@);
                    assert(rows[i as int] == models@[i as int]@);
                    let model = models[i];
                    let is_current = same_text(model.model_id.as_str(), current_model_id);
                    lines.push(format_model_row(model, i == active_row, is_current));
                    assert(texts(lines@) =~= before.push(expected[i as int]));
                    i += 1;
                }
                assert(expected.take(i as int) =~= expected);
            }
        },
    }
    lines
}

fn write_content(
    inner: Rect,
    picker: &ModelPickerState,
    lines: Vec<String>,
    Ghost(current_model_id): Ghost<Seq<char>>,
) -> (content: Option<PickerContent>)
    requires
        texts(lines@) == list_body(picker@, current_model_id),
    ensures
        match picker_content(inner, picker@, current_model_id) {
            Some(view) => content is Some && (content->0)@ == view,
            None => content is None,
        },
{
    let footer_rows: u16 = if inner.height >= 3 {
        1
    } else {
        0
    };
    let height: u16 = inner.height.saturating_sub(1).saturating_sub(footer_rows);
    let area = Rect::new(inner.x, inner.y.saturating_add(1), inner.width, height);
    if area.is_empty() {
        return None;
    }
    let error = match picker.error() {
        Some(error) => Some(concat2("Error: ", single_line(error).as_str())),
        None => None,
    };
    let error_rows: usize = if error.is_some() {
        1
    } else {
        0
    };
    let line_count: usize = lines.len().saturating_add(error_rows);
    let scroll: u16 = content_scroll_offset(picker, line_count, area.height);
    assert(usize::MAX >= 0xffff_ffff);
    Some(PickerContent { area, error, lines, scroll })
}

fn write_footer(inner: Rect, picker: &ModelPickerState) -> (footer: Option<(Rect, String)>)
    ensures
        match picker_footer(inner, picker@) {
            Some((area, text)) => footer is Some && (footer->0).0 == area && (footer->0).1@ == text,
            None => footer is None,
        },
{
    if inner.height < 3 {
        return None;
    }
    let y: u16 = inner.y.saturating_add(inner.height.saturating_sub(1));
    let text = if picker.pending_model_id().is_some() {
        "Waiting for runtime selection...".to_owned()
    } else {
        "Enter select  Esc close  Up/Down navigate".to_owned()
    };
    Some((Rect::new(inner.x, y, inner.width, 1), text))
}

/// Lay out the model picker over the base interface.
pub fn render(area: Rect, picker: &ModelPickerState, current_model_id: &str) -> (scene: Option<
    PickerScene,
>)
    ensures
        match picker_scene(area, picker@, current_model_id@) {
            Some(view) => scene is Some && (scene->0)@ == view,
            None => scene is None,
        },
{
    if !picker.is_open() || area.is_empty() {
        return None;
    }
    let lines = write_list_body(picker, current_model_id);
    let count: usize = lines.len();
    let error_rows: usize = if picker.error().is_some() {
        1
    } else {
        0
    };
    let desired: usize = count.saturating_add(error_rows).saturating_add(4);
    let modal = centered_modal_area(area, desired);
    assert(modal == modal_area(area, wanted_height(picker@, current_model_id@)));
    if modal.is_empty() {
        return None;
    }
    let inner = inner_area(modal);
    if inner.is_empty() {
        return Some(PickerScene { modal, body: None });
    }
    let search_text = concat2("Search: ", single_line(picker.query()).as_str());
    let search_area = Rect::new(inner.x, inner.y, inner.width, 1);
    let text_width: usize = width_of(search_text.as_str());
    let last: u16 = inner.width - 1;
    let cursor_offset: u16 = if text_width <= last as usize {
        text_width as u16
    } else {
        last
    };
    let content = write_content(inner, picker, lines, Ghost(current_model_id@));
    let footer = write_footer(inner, picker);
    Some(
        PickerScene {
            modal,
            body: Some(
                PickerBody {
                    search_area,
                    search_text,
                    cursor_x: inner.x.saturating_add(cursor_offset),
                    cursor_y: inner.y,
                    content,
                    footer,
                },
            ),
        },
    )
}

/// The modal lies inside the area that it is drawn over, and is no larger than its limits.
pub proof fn lemma_modal_is_inside(area: Rect, desired_height: int)
    requires
        area.x + area.width <= u16::MAX,
        area.y + area.height <= u16::MAX,
        desired_height >= 0,
        !is_empty_rect(area),
    ensures
        ({
            let modal = modal_area(area, desired_height);
            &&& area.x <= modal.x
            &&& area.y <= modal.y
            &&& modal.x + modal.width <= area.x + area.width
            &&& modal.y + modal.height <= area.y + area.height
            &&& modal.width <= 96
            &&& modal.height <= 20
        }),
{
}

/// The active row is among the lines that are shown.
pub proof fn lemma_active_row_is_shown(
    active_row: int,
    has_error: bool,
    line_count: int,
    visible_height: int,
)
    requires
        0 <= active_row,
        visible_height > 0,
        active_row + (if has_error {
            1int
        } else {
            0int
        }) < line_count <= u16::MAX,
    ensures
        ({
            let line = active_row + (if has_error {
                1int
            } else {
                0int
            });
            let scroll = list_scroll(active_row, has_error, line_count, visible_height);
            scroll <= line < scroll + visible_height
        }),
{
}

} // verus!
