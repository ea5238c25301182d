//! Terminal user interface components.

pub mod app;
pub mod app_laws;
pub mod conversation;
pub mod conversation_laws;
pub mod dispatch;
pub mod editor_laws;
pub mod input;
pub mod keys;
pub mod layout;
pub mod list_laws;
pub mod model_picker;
pub mod picker_laws;
pub mod picker_scene;
pub mod scene_laws;
pub mod status_line;

use vstd::prelude::*;

use crate::text::utf8_len;
use crate::tui::app::{measured, AppState, AppView};
use crate::tui::conversation::{
    conversation_lines, conversation_scene, wrap_messages, ConversationScene, ConversationSceneView,
};
use crate::tui::input::{input_scene, InputScene, InputSceneView};
use crate::tui::layout::{less, rect, saturated, Rect};
use crate::tui::picker_scene::{picker_scene, PickerScene, PickerSceneView};
use crate::tui::status_line::{status_scene, StatusScene, StatusSceneView};

verus! {

/// Everything that is to be drawn, from the back to the front; what has no room is left out.
#[derive(Debug, PartialEq, Eq)]
pub struct Scene {
    pub conversation: Option<ConversationScene>,
    pub status: Option<StatusScene>,
    pub input: Option<InputScene>,
    pub picker: Option<PickerScene>,
}

/// The mathematical form of a scene.
#[verifier::ext_equal]
pub struct SceneView {
    pub conversation: Option<ConversationSceneView>,
    pub status: Option<StatusSceneView>,
    pub input: Option<InputSceneView>,
    pub picker: Option<PickerSceneView>,
}

impl View for Scene {
    type V = SceneView;

    open spec fn view(&self) -> SceneView {
        SceneView {
            conversation: match self.conversation {
                Some(scene) => Some(scene@),
                None => None,
            },
            status: match self.status {
                Some(scene) => Some(scene@),
                None => None,
            },
            input: match self.input {
                Some(scene) => Some(scene@),
                None => None,
            },
            picker: match self.picker {
                Some(scene) => Some(scene@),
                None => None,
            },
        }
    }
}

/// The area of the conversation: all rows but the last two.
pub open spec fn conversation_area(area: Rect) -> Rect {
    rect(area.x, area.y, area.width, less(area.height as int, 2) as u16)
}

/// The area of the status line: the last row but one.
pub open spec fn status_area(area: Rect) -> Rect {
    rect(area.x, saturated(area.y + less(area.height as int, 2)), area.width, 1)
}

/// The area of the input line: the last row.
pub open spec fn input_area(area: Rect) -> Rect {
    rect(
        area.x,
        saturated(saturated(area.y + less(area.height as int, 2)) + 1),
        area.width,
        1,
    )
}

/// The state after the conversation was measured for a frame of this size: with fewer than two rows
/// no conversation is shown.
pub open spec fn framed(v: AppView, area: Rect) -> AppView {
    if area.height <= 1 {
        measured(v, 0, 0)
    } else {
        measured(
            v,
            conversation_lines(v.messages, conversation_area(area).width as usize).len() as usize,
            conversation_area(area).height as usize,
        )
    }
}

/// What a frame of this size shows. The input line comes first, then the status line, and the
/// conversation gets the rows that are left; the picker lies over all of it.
pub open spec fn frame_scene(v: AppView, area: Rect) -> SceneView {
    let cursor = utf8_len(v.input.take(v.cursor)) as int;
    let picker = picker_scene(area, v.picker, v.model_id);
    if area.height == 0 {
        SceneView { conversation: None, status: None, input: None, picker }
    } else if area.height == 1 {
        SceneView {
            conversation: None,
            status: None,
            input: input_scene(area, v.input, cursor),
            picker,
        }
    } else {
        SceneView {
            conversation: conversation_scene(
                conversation_area(area),
                conversation_lines(v.messages, conversation_area(area).width as usize),
                v.top,
            ),
            status: status_scene(status_area(area), v.model_name, v.status, v.usage),
            input: input_scene(input_area(area), v.input, cursor),
            picker,
        }
    }
}

/// Lay out the conversation, runtime status, and single-line input regions.
pub fn render(area: Rect, app_state: &mut AppState) -> (scene: Scene)
    requires
        old(app_state).wf(),
    ensures
        final(app_state).wf(),
        final(app_state)@ == framed(old(app_state)@, area),
        scene@ == frame_scene(final(app_state)@, area),
{
    if area.height <= 1 {
        app_state.update_conversation_metrics(0, 0);
        let input = if area.height == 1 {
            input::render(area, app_state.input(), app_state.cursor_byte_offset())
        } else {
            None
        };
        let picker = picker_scene::render(area, app_state.model_picker(), app_state.model_id());
        return Scene { conversation: None, status: None, input, picker };
    }
    let conversation_height: u16 = area.height.saturating_sub(2);
    let conversation_rect = Rect::new(area.x, area.y, area.width, conversation_height);
    let status_y: u16 = area.y.saturating_add(conversation_height);
    let status_rect = Rect::new(area.x, status_y, area.width, 1);
    let input_y: u16 = status_y.saturating_add(1);
    let input_rect = Rect::new(area.x, input_y, area.width, 1);
    let wrapped_lines = wrap_messages(app_state.messages(), conversation_rect.width);
    app_state.update_conversation_metrics(wrapped_lines.len(), conversation_rect.height as usize);
    let conversation = conversation::render(
        conversation_rect,
        wrapped_lines,
        app_state.top_wrapped_line_offset(),
    );
    let status = status_line::render(
        status_rect,
        app_state.model_name(),
        app_state.runtime_status(),
        app_state.usage(),
    );
    let input = input::render(input_rect, app_state.input(), app_state.cursor_byte_offset());
    let picker = picker_scene::render(area, app_state.model_picker(), app_state.model_id());
    Scene { conversation, status, input, picker }
}

/// Drawing changes nothing but the measured conversation and its scrolling.
pub proof fn lemma_drawing_keeps_content(v: AppView, area: Rect)
    ensures
        ({
            let post = framed(v, area);
            &&& post.messages == v.messages
            &&& post.input == v.input
            &&& post.cursor == v.cursor
            &&& post.status == v.status
            &&& post.picker == v.picker
            &&& post.model_id == v.model_id
        }),
{
}

/// The three regions of a frame with at least two rows lie one below the other, inside the frame,
/// and fill it.
pub proof fn lemma_regions_fill_frame(area: Rect)
    requires
        area.height >= 2,
        area.x + area.width <= u16::MAX,
        area.y + area.height <= u16::MAX,
    ensures
        conversation_area(area).y == area.y,
        status_area(area).y == area.y + conversation_area(area).height,
        input_area(area).y == status_area(area).y + 1,
        input_area(area).y + 1 == area.y + area.height,
        conversation_area(area).width == area.width,
        status_area(area).width == area.width,
        input_area(area).width == area.width,
{
}

} // verus!
