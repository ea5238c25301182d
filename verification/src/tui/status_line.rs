//! The status line.

use vstd::prelude::*;

use crate::provider::Usage;
use crate::text::{
    concat2, concat3, decimal, on_single_line, single_line, texts, to_decimal,
};
use crate::tui::app::{RuntimeStatus, RuntimeStatusView};
use crate::tui::layout::{
    display_width, grapheme_clusters, graphemes_of, is_empty_rect, width_of, Rect,
};

verus! {

/// The status in words.
pub open spec fn status_text(status: RuntimeStatusView) -> Seq<char> {
    match status {
        RuntimeStatusView::Idle => "idle"@,
        RuntimeStatusView::Responding => "responding"@,
        RuntimeStatusView::Truncated => "truncated: output length limit"@,
        RuntimeStatusView::Error(error) => "error: "@ + on_single_line(error),
    }
}

/// The raw token counts, where they are known.
pub open spec fn usage_text(usage: Option<Usage>) -> Seq<char> {
    match usage {
        Some(usage) => " | in "@ + decimal(usage.input_tokens as nat) + " | cache "@ + decimal(
            usage.cached_input_tokens as nat,
        ) + " | out "@ + decimal(usage.output_tokens as nat),
        None => ""@,
    }
}

/// The whole status line, before it is cut to the width of the terminal.
pub open spec fn status_line_text(
    model_name: Seq<char>,
    status: RuntimeStatusView,
    usage: Option<Usage>,
) -> Seq<char> {
    "model: "@ + on_single_line(model_name) + " | "@ + status_text(status) + usage_text(usage)
}

/// The longest run of clusters, from position `k` on, that fits into `room` columns.
pub open spec fn clusters_within(clusters: Seq<Seq<char>>, k: int, room: int) -> Seq<char>
    decreases clusters.len() - k,
{
    if k >= clusters.len() || display_width(clusters[k]) > room {
        Seq::empty()
    } else {
        clusters[k] + clusters_within(clusters, k + 1, room - display_width(clusters[k]))
    }
}

/// The start of a text that fits into `room` columns, cut between clusters.
pub open spec fn cluster_prefix(content: Seq<char>, room: int) -> Seq<char> {
    clusters_within(grapheme_clusters(content), 0, room)
}

/// A line cut to a width, with an ellipsis where there is room for one.
pub open spec fn truncated_line(content: Seq<char>, maximum_width: usize) -> Seq<char> {
    let ellipsis = display_width("..."@);
    if display_width(content) <= maximum_width {
        content
    } else if maximum_width < ellipsis {
        cluster_prefix(content, maximum_width as int)
    } else {
        cluster_prefix(content, maximum_width - ellipsis) + "..."@
    }
}

fn take_grapheme_prefix(content: &str, maximum_width: usize) -> (prefix: String)
    ensures
        prefix@ == cluster_prefix(content@, maximum_width as int),
{
    let clusters = graphemes_of(content);
    let ghost views = grapheme_clusters(content@);
    let mut prefix = String::new();
    let mut room: usize = maximum_width;
    let mut k: usize = 0;
    assert(prefix@ + clusters_within(views, 0, room as int) =~= clusters_within(
        views,
        0,
        room as int,
    ));
    while k < clusters.len()
        invariant
            texts(clusters@) == views,
            views == grapheme_clusters(content@),
            k <= clusters@.len(),
            clusters_within(views, 0, maximum_width as int) == prefix@ + clusters_within(
                views,
                k as int,
                room as int,
            ),
        decreases clusters@.len() - k,
    {
        assert(views[k as int] == clusters@[k as int]@);
        let width: usize = width_of(clusters[k].as_str());
        if width > room {
            assert(prefix@ + Seq::<char>::empty() =~= prefix@);
            return prefix;
        }
        let ghost before = prefix@;
        prefix.append(clusters[k].as_str());
        room = room - width;
        k += 1;
        assert(before + (clusters@[k - 1]@ + clusters_within(views, k as int, room as int))
            =~= prefix@ + clusters_within(views, k as int, room as int));
    }
    assert(prefix@ + Seq::<char>::empty() =~= prefix@);
    prefix
}

pub fn truncate_status_line(content: &str, maximum_width: usize) -> (line: String)
    ensures
        line@ == truncated_line(content@, maximum_width),
{
    if width_of(content) <= maximum_width {
        return content.to_owned();
    }
    let ellipsis_width: usize = width_of("...");
    if maximum_width < ellipsis_width {
        return take_grapheme_prefix(content, maximum_width);
    }
    let prefix = take_grapheme_prefix(content, maximum_width - ellipsis_width);
    concat2(prefix.as_str(), "...")
}

/// The status line as it is to be drawn.
#[derive(Debug, PartialEq, Eq)]
pub struct StatusScene {
    pub area: Rect,
    pub text: String,
}

/// The mathematical form of a drawn status line.
#[verifier::ext_equal]
pub struct StatusSceneView {
    pub area: Rect,
    pub text: Seq<char>,
}

impl View for StatusScene {
    type V = StatusSceneView;

    open spec fn view(&self) -> StatusSceneView {
        StatusSceneView { area: self.area, text: self.text@ }
    }
}

/// The status line in its area; nothing where there is no room.
pub open spec fn status_scene(
    area: Rect,
    model_name: Seq<char>,
    status: RuntimeStatusView,
    usage: Option<Usage>,
) -> Option<StatusSceneView> {
    if is_empty_rect(area) {
        None
    } else {
        Some(
            StatusSceneView {
                area: Rect { height: 1, ..area },
                text: truncated_line(
                    status_line_text(model_name, status, usage),
                    area.width as usize,
                ),
            },
        )
    }
}

/// Lay out the status line.
pub fn render(area: Rect, model_name: &str, runtime_status: &RuntimeStatus, usage: Option<Usage>)
    -> (scene: Option<StatusScene>)
    ensures
        match status_scene(area, model_name@, runtime_status@, usage) {
            Some(view) => scene is Some && (scene->0)@ == view,
            None => scene is None,
        },
{
    if area.is_empty() {
        return None;
    }
    let status = match runtime_status {
        RuntimeStatus::Idle => "idle".to_owned(),
        RuntimeStatus::Responding => "responding".to_owned(),
        RuntimeStatus::Truncated => "truncated: output length limit".to_owned(),
        RuntimeStatus::Error(error) => concat2("error: ", single_line(error.as_str()).as_str()),
    };
    let usage = match usage {
        Some(usage) => {
            let mut text = concat3(" | in ", to_decimal(usage.input_tokens).as_str(), " | cache ");
            text.append(to_decimal(usage.cached_input_tokens).as_str());
            text.append(" | out ");
            text.append(to_decimal(usage.output_tokens).as_str());
            text
        },
        None => "".to_owned(),
    };
    let mut line = concat3("model: ", single_line(model_name).as_str(), " | ");
    line.append(status.as_str());
    line.append(usage.as_str());
    Some(
        StatusScene {
            area: Rect { height: 1, ..area },
            text: truncate_status_line(line.as_str(), area.width as usize),
        },
    )
}

/// The columns that the kept clusters take, from position `k` on.
pub open spec fn kept_width(clusters: Seq<Seq<char>>, k: int, room: int) -> int
    decreases clusters.len() - k,
{
    if k >= clusters.len() || display_width(clusters[k]) > room {
        0
    } else {
        display_width(clusters[k]) + kept_width(
            clusters,
            k + 1,
            room - display_width(clusters[k]),
        )
    }
}

/// The clusters that a cut line keeps never take more columns than there are.
pub proof fn lemma_kept_clusters_fit(clusters: Seq<Seq<char>>, k: int, room: int)
    requires
        room >= 0,
    ensures
        0 <= kept_width(clusters, k, room) <= room,
    decreases clusters.len() - k,
{
    if k < clusters.len() && display_width(clusters[k]) <= room {
        lemma_kept_clusters_fit(clusters, k + 1, room - display_width(clusters[k]));
    }
}

} // verus!
