//! What the renderer is given to draw a state.

use vstd::prelude::*;
use crate::metrics::{calculate_total_metrics, is_metrics_of, log_is_countable, tally};
use crate::model::{
    Model, ModelView, StatusView, TypingCorrectnessChar, TypingCorrectnessSegment, TypingMetrics,
    TypingStatus, TypingView,
};
use crate::parser::{copy_line, lines_view, segments_view, ContentView, Line, Segment, SegmentView};

verus! {

/// What the renderer is given to draw a state.
#[derive(Debug, Clone, PartialEq, Eq)]
pub enum RenderData {
    /// The menu: the cursor and the titles of the contents on offer.
    Menu { selecting: usize, titles: Vec<Line> },
    /// Before the start: the title of the chosen content.
    TypingStart { title: Line },
    /// During an attempt: the title, the line under the cursor with its
    /// cells, the cursor, the scroll position and the metrics so far.
    Typing {
        title: Line,
        segments: Vec<Segment>,
        correctness: Vec<TypingCorrectnessSegment>,
        status: TypingStatus,
        scroll: i64,
        metrics: TypingMetrics,
    },
    /// After an attempt: the title and the metrics.
    Result { title: Line, metrics: TypingMetrics },
    /// During a pause: the title and the metrics so far.
    Pause { title: Line, metrics: TypingMetrics },
    /// Nothing to draw.
    Other,
}

/// The mathematical value of a [`RenderData`].
pub enum RenderView {
    Menu { selecting: nat, titles: Seq<Seq<SegmentView>> },
    TypingStart { title: Seq<SegmentView> },
    Typing {
        title: Seq<SegmentView>,
        segments: Seq<SegmentView>,
        correctness: Seq<Seq<TypingCorrectnessChar>>,
        status: StatusView,
        scroll: i64,
        metrics: TypingMetrics,
    },
    Result { title: Seq<SegmentView>, metrics: TypingMetrics },
    Pause { title: Seq<SegmentView>, metrics: TypingMetrics },
    Other,
}

/// The values of a sequence of tracked segments.
pub open spec fn cells_view(segments: Seq<TypingCorrectnessSegment>) -> Seq<
    Seq<TypingCorrectnessChar>,
> {
    Seq::new(segments.len(), |i: int| segments[i]@)
}

impl View for RenderData {
    type V = RenderView;

    open spec fn view(&self) -> RenderView {
        match self {
            RenderData::Menu { selecting, titles } => RenderView::Menu {
                selecting: *selecting as nat,
                titles: lines_view(titles@),
            },
            RenderData::TypingStart { title } => RenderView::TypingStart { title: title@ },
            RenderData::Typing {
                title,
                segments,
                correctness,
                status,
                scroll,
                metrics,
            } => RenderView::Typing {
                title: title@,
                segments: segments_view(segments@),
                correctness: cells_view(correctness@),
                status: status@,
                scroll: *scroll,
                metrics: *metrics,
            },
            RenderData::Result { title, metrics } => RenderView::Result {
                title: title@,
                metrics: *metrics,
            },
            RenderData::Pause { title, metrics } => RenderView::Pause {
                title: title@,
                metrics: *metrics,
            },
            RenderData::Other => RenderView::Other,
        }
    }
}

/// The titles of a sequence of contents.
pub open spec fn titles_of(contents: Seq<ContentView>) -> Seq<Seq<SegmentView>> {
    Seq::new(contents.len(), |i: int| contents[i].title)
}

/// What the renderer is given for a state, where `metrics` are those of its
/// log.
pub open spec fn render_spec(model: ModelView, metrics: TypingMetrics) -> RenderView {
    match model {
        ModelView::Menu(m) => RenderView::Menu {
            selecting: m.selecting,
            titles: titles_of(m.available_contents),
        },
        ModelView::TypingStart(m) => RenderView::TypingStart { title: m.content.title },
        ModelView::Typing(m) => RenderView::Typing {
            title: m.content.title,
            segments: m.content.lines[m.status.line],
            correctness: m.typing_correctness[m.status.line],
            status: m.status,
            scroll: m.scroll.scroll,
            metrics,
        },
        ModelView::Result(m) => RenderView::Result { title: m.content.title, metrics },
        ModelView::Pause(m) => RenderView::Pause { title: m.content.title, metrics },
        ModelView::Empty => RenderView::Other,
    }
}

/// The log of a state, where it has one.
pub open spec fn log_of(model: ModelView) -> Option<TypingView> {
    match model {
        ModelView::Typing(m) => Some(m),
        ModelView::Result(m) => Some(m),
        ModelView::Pause(m) => Some(m),
        _ => None,
    }
}

/// The cursor of an attempt stands on a line of the content that the tracker
/// follows.
pub open spec fn on_a_line(m: TypingView) -> bool {
    0 <= m.status.line < m.content.lines.len() && m.status.line < m.typing_correctness.len()
}

/// A state can be rendered: an attempt in progress has its cursor on a line,
/// and the counters of the metrics can hold what the log adds up to.
pub open spec fn can_render(model: ModelView) -> bool {
    &&& model matches ModelView::Typing(m) ==> on_a_line(m)
    &&& log_of(model) matches Some(m) ==> m.countable()
}

/// Whether a state can be rendered.
pub fn is_renderable(model: &Model) -> (fit: bool)
    ensures
        fit == can_render(model@),
{
    match model {
        Model::Typing(m) => {
            let on_a_line = 0 <= m.status.line && (m.status.line as usize) < m.content.lines.len()
                && (m.status.line as usize) < m.typing_correctness.lines.len();
            on_a_line && log_is_countable(m)
        },
        Model::Result(r) => log_is_countable(&r.typing_model),
        Model::Pause(p) => log_is_countable(&p.typing_model),
        _ => true,
    }
}

/// A copy of a cursor.
fn copy_status(status: &TypingStatus) -> (copy: TypingStatus)
    ensures
        copy@ == status@,
{
    let mut unconfirmed: Vec<char> = Vec::new();
    let mut i: usize = 0;
    while i < status.unconfirmed.len()
        invariant
            i <= status.unconfirmed.len(),
            unconfirmed@ == status.unconfirmed@.take(i as int),
        decreases status.unconfirmed.len() - i,
    {
        unconfirmed.push(status.unconfirmed[i]);
        i += 1;
    }
    assert(status.unconfirmed@.take(i as int) =~= status.unconfirmed@);
    TypingStatus {
        line: status.line,
        segment: status.segment,
        char_: status.char_,
        unconfirmed,
        last_wrong_keydown: status.last_wrong_keydown,
    }
}

/// A copy of the cells of a line.
fn copy_cells(segments: &Vec<TypingCorrectnessSegment>) -> (copy: Vec<TypingCorrectnessSegment>)
    ensures
        cells_view(copy@) == cells_view(segments@),
{
    let mut copy: Vec<TypingCorrectnessSegment> = Vec::new();
    let mut i: usize = 0;
    while i < segments.len()
        invariant
            i <= segments.len(),
            copy@.len() == i,
            forall|k: int| 0 <= k < i ==> (#[trigger] copy@[k])@ == segments@[k]@,
        decreases segments.len() - i,
    {
        let source = &segments[i].chars;
        let mut chars: Vec<TypingCorrectnessChar> = Vec::new();
        let mut c: usize = 0;
        while c < source.len()
            invariant
                c <= source.len(),
                chars@ == source@.take(c as int),
            decreases source.len() - c,
        {
            chars.push(source[c]);
            c += 1;
        }
        copy.push(TypingCorrectnessSegment { chars });
        i += 1;
    }
    copy
}

/// Gathers what the renderer draws for a state.
pub fn fetch_render_data(model: &Model) -> (data: RenderData)
    requires
        can_render(model@),
    ensures
        match log_of(model@) {
            Some(m) => exists|metrics: TypingMetrics|
                is_metrics_of(metrics, tally(m.user_input, None)) && data@ == #[trigger] render_spec(
                    model@,
                    metrics,
                ),
            None => data@ == render_spec(model@, TypingMetrics::zero()),
        },
{
    match model {
        Model::Menu(menu) => {
            let mut titles: Vec<Line> = Vec::new();
            let mut i: usize = 0;
            while i < menu.available_contents.len()
                invariant
                    i <= menu.available_contents.len(),
                    titles@.len() == i,
                    forall|k: int|
                        0 <= k < i ==> (#[trigger] titles@[k])@
                            == menu.available_contents@[k]@.title,
                decreases menu.available_contents.len() - i,
            {
                titles.push(copy_line(&menu.available_contents[i].title));
                i += 1;
            }
            let data = RenderData::Menu { selecting: menu.selecting, titles };
            assert(lines_view(titles@) =~= titles_of(menu@.available_contents));
            data
        },
        Model::TypingStart(start) => RenderData::TypingStart {
            title: copy_line(&start.content.title),
        },
        Model::Typing(typing) => {
            let line = typing.status.line as usize;
            let metrics = calculate_total_metrics(typing);
            let shown = copy_line(&typing.content.lines[line]);
            let correctness = copy_cells(&typing.typing_correctness.lines[line].segments);
            let data = RenderData::Typing {
                title: copy_line(&typing.content.title),
                segments: shown.segments,
                correctness,
                status: copy_status(&typing.status),
                scroll: typing.scroll.scroll,
                metrics,
            };
            assert(data@ == render_spec(model@, metrics));
            data
        },
        Model::Result(result) => {
            let metrics = calculate_total_metrics(&result.typing_model);
            let data = RenderData::Result {
                title: copy_line(&result.typing_model.content.title),
                metrics,
            };
            assert(data@ == render_spec(model@, metrics));
            data
        },
        Model::Pause(pause) => {
            let metrics = calculate_total_metrics(&pause.typing_model);
            let data = RenderData::Pause {
                title: copy_line(&pause.typing_model.content.title),
                metrics,
            };
            assert(data@ == render_spec(model@, metrics));
            data
        },
        Model::Empty => RenderData::Other,
    }
}

} // verus!
