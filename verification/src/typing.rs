//! The typing engine: the progress of the cursor through a content, the
//! correctness tracker and the input log.

pub use crate::metrics::{calculate_line_metrics, calculate_total_metrics};

use vstd::prelude::*;
use crate::matcher::{
    find_hit, first_hit, hits, is_first_hit, lemma_first_hit_exists, stands_alone, Probe,
};
use crate::text::occurs_at;
use crate::metrics::{tally, total_inputs, typed_count};
use crate::model::{
    sessions_view, Model, ModelView, ResultModel, SessionView, StatusView,
    TypingCorrectnessChar, TypingCorrectnessContent, TypingCorrectnessLine,
    TypingCorrectnessSegment, TypingInput, TypingModel, TypingScroll, TypingSession, TypingView,
};
use crate::parser::{Content, ContentView, Segment, SegmentView};
use crate::text::str_chars;
use crate::timestamp::now;

verus! {

/// The longest pause, in milliseconds, that keeps two keystrokes in one
/// session.
pub const SESSION_GAP_MS: u64 = 1000;

/// A content can be typed when it has a line, every line has a segment,
/// every segment has a target text of at least one character, and every
/// count fits the cursor's fields.
pub open spec fn typable(content: ContentView) -> bool {
    &&& 0 < content.lines.len() <= i32::MAX
    &&& forall|l: int|
        0 <= l < content.lines.len() ==> 0 < (#[trigger] content.lines[l]).len() <= i32::MAX
    &&& forall|l: int, s: int|
        0 <= l < content.lines.len() && 0 <= s < content.lines[l].len() ==> 0 < (
        #[trigger] content.lines[l][s]).target_text().len() <= i32::MAX
}

/// A tracker follows a content when it has one cell for each character of
/// each target text, in the content's own nesting.
pub open spec fn tracks(
    tracker: Seq<Seq<Seq<TypingCorrectnessChar>>>,
    content: ContentView,
) -> bool {
    &&& tracker.len() == content.lines.len()
    &&& forall|l: int|
        0 <= l < content.lines.len() ==> (#[trigger] tracker[l]).len() == content.lines[l].len()
    &&& forall|l: int, s: int|
        0 <= l < content.lines.len() && 0 <= s < content.lines[l].len() ==> (
        #[trigger] tracker[l][s]).len() == content.lines[l][s].target_text().len()
}

/// `count` pending cells.
pub open spec fn pending_cells(count: nat) -> Seq<TypingCorrectnessChar> {
    Seq::new(count, |c: int| TypingCorrectnessChar::Pending)
}

/// The cells of a fresh line: pending, one for each character of each target
/// text.
pub open spec fn pending_line(line: Seq<SegmentView>) -> Seq<Seq<TypingCorrectnessChar>> {
    Seq::new(line.len(), |s: int| pending_cells(line[s].target_text().len()))
}

/// The tracker of a fresh attempt: every cell pending.
pub open spec fn pending_tracker(content: ContentView) -> Seq<Seq<Seq<TypingCorrectnessChar>>> {
    Seq::new(content.lines.len(), |l: int| pending_line(content.lines[l]))
}

/// Every cell of the tracker is pending.
pub open spec fn all_pending(tracker: Seq<Seq<Seq<TypingCorrectnessChar>>>) -> bool {
    forall|l: int, s: int, c: int|
        0 <= l < tracker.len() && 0 <= s < tracker[l].len() && 0 <= c < tracker[l][s].len()
            ==> #[trigger] tracker[l][s][c] == TypingCorrectnessChar::Pending
}

/// What a keystroke does: it completes a spelling, whose key covers `span`
/// characters of the target text; or it goes on with a spelling; or no
/// spelling accepts it.
pub enum KeyOutcome {
    Complete { span: int },
    Partial,
    Miss,
}

impl TypingView {
    /// The segment under the cursor.
    pub open spec fn segment(self) -> SegmentView {
        self.content.lines[self.status.line][self.status.segment]
    }

    /// The cells of the segment under the cursor.
    pub open spec fn cells(self) -> Seq<TypingCorrectnessChar> {
        self.typing_correctness[self.status.line][self.status.segment]
    }

    /// What a keystroke is matched against in this state.
    pub open spec fn probe(self, input: char) -> Probe {
        Probe {
            target: self.segment().target_text(),
            pos: self.status.char_,
            unconfirmed: self.status.unconfirmed,
            input,
        }
    }

    /// The cursor stands on a character of the content.
    pub open spec fn cursor_in_range(self) -> bool {
        &&& 0 <= self.status.line < self.content.lines.len()
        &&& 0 <= self.status.segment < self.content.lines[self.status.line].len()
        &&& 0 <= self.status.char_ < self.segment().target_text().len()
    }

    /// An attempt can take a keystroke: its cursor stands on a character,
    /// the tracker has a cell for each character of the target text under
    /// the cursor, and the cursor's fields can hold where it moves to.
    pub open spec fn ready(self) -> bool {
        &&& self.cursor_in_range()
        &&& self.status.line < self.typing_correctness.len()
        &&& self.status.segment < self.typing_correctness[self.status.line].len()
        &&& self.cells().len() == self.segment().target_text().len()
        &&& self.status.line < i32::MAX
        &&& self.status.segment < i32::MAX
        &&& self.segment().target_text().len() <= i32::MAX
    }

    /// An attempt is well formed: its content can be typed, its tracker
    /// follows the content, and its cursor stands on a character. A well
    /// formed attempt can take a keystroke, and stays well formed until its
    /// content is finished.
    pub open spec fn wf(self) -> bool {
        &&& typable(self.content)
        &&& tracks(self.typing_correctness, self.content)
        &&& self.cursor_in_range()
    }

    /// What the keystroke `input` does in this state.
    pub open spec fn outcome(self, input: char) -> KeyOutcome {
        match first_hit(self.layout, self.probe(input)) {
            Some((k, c)) => if self.layout[k].1[c].len() == self.status.unconfirmed.len() + 1 {
                KeyOutcome::Complete { span: self.layout[k].0.len() as int }
            } else {
                KeyOutcome::Partial
            },
            None => KeyOutcome::Miss,
        }
    }

    /// The cursor after a complete match of `span` characters: behind the
    /// span; at the start of the next segment where the span ends the
    /// segment; at the start of the next line where it ends the line. No key
    /// is left unconfirmed.
    pub open spec fn advance(self, span: int) -> StatusView {
        let status = self.status;
        let cleared = StatusView { unconfirmed: Seq::empty(), last_wrong_keydown: None, ..status };
        if status.char_ + span != self.segment().target_text().len() {
            StatusView { char_: status.char_ + span, ..cleared }
        } else if status.segment + 1 != self.content.lines[status.line].len() {
            StatusView { segment: status.segment + 1, char_: 0, ..cleared }
        } else {
            StatusView { line: status.line + 1, segment: 0, char_: 0, ..cleared }
        }
    }

    /// The cursor after the keystroke.
    pub open spec fn status_after(self, input: char) -> StatusView {
        let status = self.status;
        match self.outcome(input) {
            KeyOutcome::Complete { span } => self.advance(span),
            KeyOutcome::Partial => StatusView {
                unconfirmed: status.unconfirmed.push(input),
                last_wrong_keydown: None,
                ..status
            },
            KeyOutcome::Miss => StatusView { last_wrong_keydown: Some(input), ..status },
        }
    }

    /// The keystroke completes the last spelling of the content.
    pub open spec fn finishes(self, input: char) -> bool {
        self.status_after(input).line == self.content.lines.len()
    }

    /// The tracker after the keystroke.
    pub open spec fn correctness_after(self, input: char) -> Seq<Seq<Seq<TypingCorrectnessChar>>> {
        let status = self.status;
        match self.outcome(input) {
            KeyOutcome::Complete { span } => with_cells(
                self.typing_correctness,
                status.line,
                status.segment,
                mark_span(self.cells(), status.char_, span),
            ),
            KeyOutcome::Partial => self.typing_correctness,
            KeyOutcome::Miss => with_cells(
                self.typing_correctness,
                status.line,
                status.segment,
                self.cells().update(status.char_, TypingCorrectnessChar::Incorrect),
            ),
        }
    }

    /// The input log after the keystroke at time `now`.
    pub open spec fn sessions_after(self, input: char, now: u64) -> Seq<SessionView> {
        let entry = TypingInput {
            key: input,
            timestamp: now,
            is_correct: !(self.outcome(input) is Miss),
        };
        let logged = log_input(self.user_input, self.status.line, entry);
        let line = self.status_after(input).line;
        if line != self.status.line {
            logged.push(SessionView { line, inputs: Seq::empty() })
        } else {
            logged
        }
    }

    /// The scroll state after the keystroke: a new line starts at the far
    /// end.
    pub open spec fn scroll_after(self, input: char) -> TypingScroll {
        if self.status_after(input).line != self.status.line && !self.finishes(input) {
            TypingScroll { scroll: self.scroll.max, ..self.scroll }
        } else {
            self.scroll
        }
    }

    /// The attempt after the keystroke `input` at time `now`.
    pub open spec fn after_key(self, input: char, now: u64) -> TypingView {
        TypingView {
            typing_correctness: self.correctness_after(input),
            user_input: self.sessions_after(input, now),
            status: self.status_after(input),
            scroll: self.scroll_after(input),
            ..self
        }
    }
}

/// A keystroke at time `now` opens a session when the log has none, or when
/// more than [`SESSION_GAP_MS`] have passed since the last input of the last
/// session.
pub open spec fn starts_session(sessions: Seq<SessionView>, now: u64) -> bool {
    sessions.len() == 0 || (sessions.last().inputs.len() > 0 && now
        - sessions.last().inputs.last().timestamp > SESSION_GAP_MS)
}

/// The log with `entry` added: to a new session for `line` where the entry's
/// time opens one, else to the last session.
pub open spec fn log_input(sessions: Seq<SessionView>, line: int, entry: TypingInput) -> Seq<
    SessionView,
> {
    if starts_session(sessions, entry.timestamp) {
        sessions.push(SessionView { line, inputs: seq![entry] })
    } else {
        sessions.update(
            sessions.len() - 1,
            SessionView { inputs: sessions.last().inputs.push(entry), ..sessions.last() },
        )
    }
}

/// The tracker with the cells of one segment replaced.
pub open spec fn with_cells(
    tracker: Seq<Seq<Seq<TypingCorrectnessChar>>>,
    line: int,
    segment: int,
    cells: Seq<TypingCorrectnessChar>,
) -> Seq<Seq<Seq<TypingCorrectnessChar>>> {
    tracker.update(line, tracker[line].update(segment, cells))
}

/// Some cell of `cells[from..from + span]` is incorrect.
pub open spec fn span_tainted(cells: Seq<TypingCorrectnessChar>, from: int, span: int) -> bool {
    exists|i: int| from <= i < from + span && cells[i] == TypingCorrectnessChar::Incorrect
}

/// The cells after a complete match of `span` characters at `from`: the
/// whole span correct, or the whole span incorrect where one of its cells
/// already was.
pub open spec fn mark_span(cells: Seq<TypingCorrectnessChar>, from: int, span: int) -> Seq<
    TypingCorrectnessChar,
> {
    let mark = if span_tainted(cells, from, span) {
        TypingCorrectnessChar::Incorrect
    } else {
        TypingCorrectnessChar::Correct
    };
    Seq::new(
        cells.len(),
        |i: int|
            if from <= i < from + span {
                mark
            } else {
                cells[i]
            },
    )
}

/// The state that follows a keystroke: the attempt goes on, or it has ended.
pub open spec fn key_step(m: TypingView, input: char, now: u64) -> ModelView {
    if m.finishes(input) {
        ModelView::Result(m.after_key(input, now))
    } else {
        ModelView::Typing(m.after_key(input, now))
    }
}

/// The attempt with a new, empty session for the current line at the end of
/// its log.
pub open spec fn with_new_session(m: TypingView) -> TypingView {
    TypingView {
        user_input: m.user_input.push(SessionView { line: m.status.line, inputs: Seq::empty() }),
        ..m
    }
}

impl TypingModel {
    /// The attempt is well formed.
    pub open spec fn wf(&self) -> bool {
        self@.wf()
    }

    /// Whether the attempt can take a keystroke.
    pub fn is_ready(&self) -> (fit: bool)
        ensures
            fit == self@.ready(),
    {
        if self.status.line < 0 || self.status.segment < 0 || self.status.char_ < 0 {
            return false;
        }
        if self.status.line == i32::MAX || self.status.segment == i32::MAX {
            return false;
        }
        let line = self.status.line as usize;
        if line >= self.content.lines.len() || line >= self.typing_correctness.lines.len() {
            return false;
        }
        let segment = self.status.segment as usize;
        if segment >= self.content.lines[line].segments.len() || segment
            >= self.typing_correctness.lines[line].segments.len() {
            return false;
        }
        let count = target_chars(&self.content.lines[line].segments[segment]).len();
        (self.status.char_ as usize) < count && count <= 0x7FFF_FFFF
            && self.typing_correctness.lines[line].segments[segment].chars.len() == count
    }

    /// Whether the attempt is well formed.
    pub fn is_wf(&self) -> (fit: bool)
        ensures
            fit == self.wf(),
    {
        if !is_typable(&self.content) || !tracker_follows(&self.typing_correctness, &self.content) {
            return false;
        }
        if self.status.line < 0 || self.status.segment < 0 || self.status.char_ < 0 {
            return false;
        }
        let line = self.status.line as usize;
        if line >= self.content.lines.len() {
            return false;
        }
        let segment = self.status.segment as usize;
        if segment >= self.content.lines[line].segments.len() {
            return false;
        }
        let count = target_chars(&self.content.lines[line].segments[segment]).len();
        (self.status.char_ as usize) < count
    }
}

impl Model {
    /// Every attempt in the state that can still take a keystroke is well
    /// formed.
    pub open spec fn wf(&self) -> bool {
        match self {
            Model::Typing(m) => m.wf(),
            Model::Pause(p) => p.typing_model.wf(),
            _ => true,
        }
    }

    /// Whether every attempt in the state that can still take a keystroke is
    /// well formed.
    pub fn is_wf(&self) -> (fit: bool)
        ensures
            fit == self.wf(),
    {
        match self {
            Model::Typing(m) => m.is_wf(),
            Model::Pause(p) => p.typing_model.is_wf(),
            _ => true,
        }
    }
}

/// The target text of a segment.
fn target_chars(segment: &Segment) -> (chars: Vec<char>)
    ensures
        chars@ == segment@.target_text(),
{
    match segment {
        Segment::Plain { text } => str_chars(text.as_str()),
        Segment::Annotated { base: _, reading } => str_chars(reading.as_str()),
    }
}

/// The tracker of a fresh attempt at `content`.
pub fn fresh_tracker(content: &Content) -> (tracker: TypingCorrectnessContent)
    ensures
        tracker@ == pending_tracker(content@),
{
    let mut lines: Vec<TypingCorrectnessLine> = Vec::new();
    let mut l: usize = 0;
    while l < content.lines.len()
        invariant
            l <= content.lines.len(),
            lines@.len() == l,
            forall|i: int| 0 <= i < l ==> (#[trigger] lines@[i])@ == pending_line(content@.lines[i]),
        decreases content.lines.len() - l,
    {
        let line = &content.lines[l];
        let mut segments: Vec<TypingCorrectnessSegment> = Vec::new();
        let mut s: usize = 0;
        while s < line.segments.len()
            invariant
                s <= line.segments.len(),
                segments@.len() == s,
                forall|i: int|
                    0 <= i < s ==> (#[trigger] segments@[i])@ == pending_cells(
                        line@[i].target_text().len(),
                    ),
            decreases line.segments.len() - s,
        {
            let count = target_chars(&line.segments[s]).len();
            let mut chars: Vec<TypingCorrectnessChar> = Vec::new();
            let mut c: usize = 0;
            while c < count
                invariant
                    c <= count,
                    chars@ == pending_cells(c as nat),
                decreases count - c,
            {
                chars.push(TypingCorrectnessChar::Pending);
                c += 1;
            }
            segments.push(TypingCorrectnessSegment { chars });
            s += 1;
        }
        lines.push(TypingCorrectnessLine { segments });
        l += 1;
    }
    TypingCorrectnessContent { lines }
}

/// The tracker of a fresh attempt at `content`: a pending cell for every
/// character of every target text.
pub fn create_typing_correctness_model(content: Content) -> (tracker: TypingCorrectnessContent)
    ensures
        tracker@ == pending_tracker(content@),
        tracks(tracker@, content@),
        all_pending(tracker@),
{
    fresh_tracker(&content)
}

/// Whether a content can be typed.
pub fn is_typable(content: &Content) -> (fit: bool)
    ensures
        fit == typable(content@),
{
    if content.lines.len() == 0 || content.lines.len() > 0x7FFF_FFFF {
        return false;
    }
    let mut l: usize = 0;
    while l < content.lines.len()
        invariant
            l <= content.lines.len(),
            0 < content@.lines.len() <= i32::MAX,
            forall|i: int| 0 <= i < l ==> 0 < (#[trigger] content@.lines[i]).len() <= i32::MAX,
            forall|i: int, j: int|
                0 <= i < l && 0 <= j < content@.lines[i].len() ==> 0 < (
                #[trigger] content@.lines[i][j]).target_text().len() <= i32::MAX,
        decreases content.lines.len() - l,
    {
        let line = &content.lines[l];
        assert(content@.lines[l as int] == line@);
        if line.segments.len() == 0 || line.segments.len() > 0x7FFF_FFFF {
            return false;
        }
        let mut s: usize = 0;
        while s < line.segments.len()
            invariant
                s <= line.segments.len(),
                l < content@.lines.len(),
                content@.lines[l as int] == line@,
                forall|j: int|
                    0 <= j < s ==> 0 < (#[trigger] line@[j]).target_text().len() <= i32::MAX,
            decreases line.segments.len() - s,
        {
            let count = target_chars(&line.segments[s]).len();
            assert(line@[s as int] == line.segments@[s as int]@);
            if count == 0 || count > 0x7FFF_FFFF {
                return false;
            }
            s += 1;
        }
        l += 1;
    }
    true
}

/// Whether a tracker follows a content.
pub fn tracker_follows(tracker: &TypingCorrectnessContent, content: &Content) -> (follows: bool)
    ensures
        follows == tracks(tracker@, content@),
{
    if tracker.lines.len() != content.lines.len() {
        return false;
    }
    let mut l: usize = 0;
    while l < content.lines.len()
        invariant
            l <= content.lines.len(),
            tracker@.len() == content@.lines.len(),
            forall|i: int| 0 <= i < l ==> (#[trigger] tracker@[i]).len() == content@.lines[i].len(),
            forall|i: int, j: int|
                0 <= i < l && 0 <= j < content@.lines[i].len() ==> (#[trigger] tracker@[i][j]).len()
                    == content@.lines[i][j].target_text().len(),
        decreases content.lines.len() - l,
    {
        let line = &content.lines[l];
        let cells = &tracker.lines[l];
        assert(tracker@[l as int] == cells@);
        if cells.segments.len() != line.segments.len() {
            return false;
        }
        let mut s: usize = 0;
        while s < line.segments.len()
            invariant
                s <= line.segments.len(),
                l < content@.lines.len(),
                content@.lines[l as int] == line@,
                tracker@[l as int] == cells@,
                cells@.len() == line@.len(),
                forall|j: int|
                    0 <= j < s ==> (#[trigger] cells@[j]).len() == line@[j].target_text().len(),
            decreases line.segments.len() - s,
        {
            let count = target_chars(&line.segments[s]).len();
            assert(cells@[s as int] == cells.segments@[s as int]@);
            if cells.segments[s].chars.len() != count {
                return false;
            }
            s += 1;
        }
        l += 1;
    }
    true
}

/// Adds an input to the log: to a new session for `line` where its time
/// opens one, else to the last session.
fn record_input(sessions: &mut Vec<TypingSession>, line: i32, entry: TypingInput)
    ensures
        sessions_view(final(sessions)@) == log_input(
            sessions_view(old(sessions)@),
            line as int,
            entry,
        ),
{
    let count = sessions.len();
    let opens = if count == 0 {
        true
    } else {
        let last = &sessions[count - 1];
        let held = last.inputs.len();
        held > 0 && entry.timestamp > last.inputs[held - 1].timestamp && entry.timestamp
            - last.inputs[held - 1].timestamp > SESSION_GAP_MS
    };
    let ghost before = sessions_view(sessions@);
    assert(opens == starts_session(before, entry.timestamp));
    if opens {
        let mut inputs: Vec<TypingInput> = Vec::new();
        inputs.push(entry);
        assert(inputs@ =~= seq![entry]);
        sessions.push(TypingSession { line, inputs });
        assert(sessions_view(sessions@) =~= log_input(before, line as int, entry));
    } else {
        sessions[count - 1].inputs.push(entry);
        assert(sessions_view(sessions@) =~= log_input(before, line as int, entry));
    }
}

/// Marks the cells of the span of a complete match.
fn mark_cells(cells: &mut Vec<TypingCorrectnessChar>, from: usize, span: usize)
    requires
        from + span <= old(cells)@.len(),
    ensures
        final(cells)@ == mark_span(old(cells)@, from as int, span as int),
{
    let ghost before = cells@;
    let mut tainted = false;
    let mut i: usize = 0;
    while i < span
        invariant
            i <= span,
            cells@ == before,
            from + span <= cells.len(),
            tainted == span_tainted(before, from as int, i as int),
        decreases span - i,
    {
        if cells[from + i] == TypingCorrectnessChar::Incorrect {
            tainted = true;
        }
        i += 1;
    }
    let mark = if tainted {
        TypingCorrectnessChar::Incorrect
    } else {
        TypingCorrectnessChar::Correct
    };
    let mut i: usize = 0;
    while i < span
        invariant
            i <= span,
            from + span <= cells.len(),
            cells@.len() == before.len(),
            forall|j: int|
                0 <= j < before.len() ==> cells@[j] == if from <= j < from + i {
                    mark
                } else {
                    before[j]
                },
        decreases span - i,
    {
        cells[from + i] = mark;
        i += 1;
    }
}

/// Marks the span of a complete match in the tracker.
fn mark_span_cells(
    tracker: &mut TypingCorrectnessContent,
    line: usize,
    segment: usize,
    from: usize,
    span: usize,
)
    requires
        line < old(tracker)@.len(),
        segment < old(tracker)@[line as int].len(),
        from + span <= old(tracker)@[line as int][segment as int].len(),
    ensures
        final(tracker)@ == with_cells(
            old(tracker)@,
            line as int,
            segment as int,
            mark_span(old(tracker)@[line as int][segment as int], from as int, span as int),
        ),
{
    let ghost before = tracker@;
    mark_cells(&mut tracker.lines[line].segments[segment].chars, from, span);
    assert(tracker@ =~~= with_cells(
        before,
        line as int,
        segment as int,
        mark_span(before[line as int][segment as int], from as int, span as int),
    ));
}

/// Marks one cell incorrect.
fn mark_incorrect(tracker: &mut TypingCorrectnessContent, line: usize, segment: usize, at: usize)
    requires
        line < old(tracker)@.len(),
        segment < old(tracker)@[line as int].len(),
        at < old(tracker)@[line as int][segment as int].len(),
    ensures
        final(tracker)@ == with_cells(
            old(tracker)@,
            line as int,
            segment as int,
            old(tracker)@[line as int][segment as int].update(
                at as int,
                TypingCorrectnessChar::Incorrect,
            ),
        ),
{
    let ghost before = tracker@;
    tracker.lines[line].segments[segment].chars[at] = TypingCorrectnessChar::Incorrect;
    assert(tracker@ =~~= with_cells(
        before,
        line as int,
        segment as int,
        before[line as int][segment as int].update(at as int, TypingCorrectnessChar::Incorrect),
    ));
}

/// Applies the keystroke `input`, typed at `current_time` milliseconds, to
/// an attempt: matches it against the table, moves the cursor, updates the
/// tracker and the log, and ends the attempt when the last spelling of the
/// content is complete.
pub fn key_input_at(model: TypingModel, input: char, current_time: u64) -> (next: Model)
    requires
        model@.ready(),
    ensures
        next@ == key_step(model@, input, current_time),
        model.wf() ==> next.wf(),
        match next {
            Model::Typing(t) => cursor_le(model@.status, t@.status),
            Model::Result(r) => cursor_le(model@.status, r@.status),
            _ => false,
        },
{
    let mut m = model;
    let ghost before = m@;
    let line = m.status.line as usize;
    let segment = m.status.segment as usize;
    let pos = m.status.char_ as usize;
    let current_line = m.status.line;
    proof {
        assert(m.content@.lines[line as int] == m.content.lines@[line as int]@);
        assert(m.content.lines@[line as int]@[segment as int]
            == m.content.lines@[line as int].segments@[segment as int]@);
        assert(m.typing_correctness@[line as int] == m.typing_correctness.lines@[line as int]@);
    }
    let target = target_chars(&m.content.lines[line].segments[segment]);
    assert(target@ == before.segment().target_text());
    let hit = find_hit(&m.layout, &target, pos, &m.status.unconfirmed, input);
    assert(before.probe(input) == (Probe {
        target: target@,
        pos: pos as int,
        unconfirmed: m.status.unconfirmed@,
        input,
    }));
    let mut is_correct = false;
    let mut is_finished = false;
    match hit {
        Some((k, c)) => {
            is_correct = true;
            m.status.last_wrong_keydown = None;
            let spelling = str_chars(m.layout.mapping[k].1[c].as_str());
            assert(spelling@ == before.layout[k as int].1[c as int]);
            if spelling.len() - 1 == m.status.unconfirmed.len() {
                let span = str_chars(m.layout.mapping[k].0.as_str()).len();
                assert(span == before.layout[k as int].0.len());
                assert(before.outcome(input) == KeyOutcome::Complete { span: span as int });
                mark_span_cells(&mut m.typing_correctness, line, segment, pos, span);
                m.status.unconfirmed.clear();
                if target.len() == pos + span {
                    if m.content.lines[line].segments.len() == segment + 1 {
                        m.status.char_ = 0;
                        m.status.segment = 0;
                        m.status.line += 1;
                        if m.content.lines.len() == line + 1 {
                            is_finished = true;
                        } else {
                            m.scroll.scroll = m.scroll.max;
                        }
                    } else {
                        m.status.char_ = 0;
                        m.status.segment += 1;
                    }
                } else {
                    m.status.char_ += span as i32;
                }
            } else {
                assert(before.outcome(input) == KeyOutcome::Partial);
                m.status.unconfirmed.push(input);
            }
        },
        None => {
            assert(before.outcome(input) == KeyOutcome::Miss);
            m.status.last_wrong_keydown = Some(input);
            mark_incorrect(&mut m.typing_correctness, line, segment, pos);
        },
    }
    assert(m.status@ =~= before.status_after(input));
    assert(m.typing_correctness@ == before.correctness_after(input));
    assert(is_finished == before.finishes(input));
    assert(m.scroll == before.scroll_after(input));
    record_input(
        &mut m.user_input,
        current_line,
        TypingInput { key: input, timestamp: current_time, is_correct },
    );
    if current_line != m.status.line {
        m.user_input.push(TypingSession { line: m.status.line, inputs: Vec::new() });
    }
    assert(sessions_view(m.user_input@) =~= before.sessions_after(input, current_time));
    assert(m@ == before.after_key(input, current_time));
    proof {
        if before.wf() {
            lemma_after_key_wf(before, input, current_time);
        }
        lemma_cursor_never_regresses(before, input);
    }
    if is_finished {
        Model::Result(ResultModel { typing_model: m })
    } else {
        Model::Typing(m)
    }
}

/// Applies the keystroke `input` to an attempt, at the time that the clock
/// gives: what [`key_input_at`] does at that time.
pub fn key_input(model: TypingModel, input: char) -> (next: Model)
    requires
        model@.ready(),
    ensures
        exists|current_time: u64| next@ == key_step(model@, input, current_time),
        model.wf() ==> next.wf(),
{
    let current_time = now();
    key_input_at(model, input, current_time)
}

/// Opens a new session in the log of an attempt, as on resuming from a
/// pause.
pub fn start_new_session(typing_model: TypingModel) -> (resumed: TypingModel)
    ensures
        resumed@ == with_new_session(typing_model@),
        typing_model.wf() ==> resumed.wf(),
{
    let mut m = typing_model;
    m.user_input.push(TypingSession { line: m.status.line, inputs: Vec::new() });
    assert(sessions_view(m.user_input@) =~= with_new_session(typing_model@).user_input);
    m
}

/// The span of a complete match lies within the target text, from the
/// cursor on.
pub proof fn lemma_outcome_span(m: TypingView, input: char)
    requires
        m.outcome(input) is Complete,
    ensures
        0 <= m.outcome(input)->span,
        m.status.char_ + m.outcome(input)->span <= m.segment().target_text().len(),
{
    let p = first_hit(m.layout, m.probe(input))->0;
    assert(is_first_hit(m.layout, m.probe(input), p.0, p.1));
}

/// A keystroke leaves the tracker following the content, and leaves a well
/// formed attempt well formed unless it finishes the content.
pub proof fn lemma_after_key_wf(m: TypingView, input: char, now: u64)
    requires
        m.wf(),
    ensures
        tracks(m.after_key(input, now).typing_correctness, m.content),
        !m.finishes(input) ==> m.after_key(input, now).wf(),
{
    let after = m.after_key(input, now);
    let l = m.status.line;
    let s = m.status.segment;
    assert(m.typing_correctness[l][s].len() == m.content.lines[l][s].target_text().len());
    match m.outcome(input) {
        KeyOutcome::Complete { span } => {
            lemma_outcome_span(m, input);
            let cells = mark_span(m.cells(), m.status.char_, span);
            assert(after.typing_correctness == with_cells(m.typing_correctness, l, s, cells));
            assert forall|i: int, j: int|
                0 <= i < m.content.lines.len() && 0 <= j < m.content.lines[i].len() implies (
            #[trigger] after.typing_correctness[i][j]).len()
                == m.content.lines[i][j].target_text().len() by {
                assert(m.typing_correctness[i][j].len()
                    == m.content.lines[i][j].target_text().len());
            }
            assert forall|i: int| 0 <= i < m.content.lines.len() implies (
            #[trigger] after.typing_correctness[i]).len() == m.content.lines[i].len() by {
                assert(m.typing_correctness[i].len() == m.content.lines[i].len());
            }
        },
        KeyOutcome::Partial => {},
        KeyOutcome::Miss => {
            assert forall|i: int, j: int|
                0 <= i < m.content.lines.len() && 0 <= j < m.content.lines[i].len() implies (
            #[trigger] after.typing_correctness[i][j]).len()
                == m.content.lines[i][j].target_text().len() by {
                assert(m.typing_correctness[i][j].len()
                    == m.content.lines[i][j].target_text().len());
            }
            assert forall|i: int| 0 <= i < m.content.lines.len() implies (
            #[trigger] after.typing_correctness[i]).len() == m.content.lines[i].len() by {
                assert(m.typing_correctness[i].len() == m.content.lines[i].len());
            }
        },
    }
}

/// The order of cursors: by line, then by segment, then by character.
pub open spec fn cursor_le(a: StatusView, b: StatusView) -> bool {
    a.line < b.line || (a.line == b.line && (a.segment < b.segment || (a.segment == b.segment
        && a.char_ <= b.char_)))
}

/// A keystroke never moves the cursor back.
pub proof fn lemma_cursor_never_regresses(m: TypingView, input: char)
    ensures
        cursor_le(m.status, m.status_after(input)),
{
    if m.outcome(input) is Complete {
        lemma_outcome_span(m, input);
    }
}

/// The attempt after a series of keystrokes, each with its time. Once the
/// content is finished, further keystrokes change nothing.
pub open spec fn after_keys(m: TypingView, keys: Seq<(char, u64)>) -> TypingView
    decreases keys.len(),
{
    if keys.len() == 0 {
        m
    } else {
        let reached = after_keys(m, keys.drop_last());
        if reached.cursor_in_range() {
            reached.after_key(keys.last().0, keys.last().1)
        } else {
            reached
        }
    }
}

/// Whatever is typed, a well formed attempt stays well formed until its
/// content is finished, and its tracker follows the content throughout.
pub proof fn lemma_after_keys_wf(m: TypingView, keys: Seq<(char, u64)>)
    requires
        m.wf(),
    ensures
        after_keys(m, keys).content == m.content,
        typable(after_keys(m, keys).content),
        tracks(after_keys(m, keys).typing_correctness, m.content),
        after_keys(m, keys).cursor_in_range() ==> after_keys(m, keys).wf(),
    decreases keys.len(),
{
    if keys.len() > 0 {
        lemma_after_keys_wf(m, keys.drop_last());
        let reached = after_keys(m, keys.drop_last());
        if reached.cursor_in_range() {
            lemma_after_key_wf(reached, keys.last().0, keys.last().1);
        }
    }
}

/// For any series of keystrokes, the cursor after the first `i` of them
/// stands at or before the cursor after the first `j`, where `i <= j`: the
/// cursor never regresses.
pub proof fn lemma_cursor_monotonic(m: TypingView, keys: Seq<(char, u64)>, i: int, j: int)
    requires
        0 <= i <= j <= keys.len(),
    ensures
        cursor_le(after_keys(m, keys.take(i)).status, after_keys(m, keys.take(j)).status),
    decreases j - i,
{
    if i < j {
        lemma_cursor_monotonic(m, keys, i, j - 1);
        let shorter = keys.take(j - 1);
        assert(keys.take(j).drop_last() =~= shorter);
        lemma_cursor_never_regresses(after_keys(m, shorter), keys.take(j).last().0);
    }
}

/// After a complete match every cell of the matched span holds the same
/// value, and none of them is pending any more.
pub proof fn lemma_span_atomic(m: TypingView, input: char, now: u64, i: int, j: int)
    requires
        m.ready(),
        m.outcome(input) is Complete,
        m.status.char_ <= i < m.status.char_ + m.outcome(input)->span,
        m.status.char_ <= j < m.status.char_ + m.outcome(input)->span,
    ensures
        m.after_key(input, now).typing_correctness[m.status.line][m.status.segment][i]
            == m.after_key(input, now).typing_correctness[m.status.line][m.status.segment][j],
        m.after_key(input, now).typing_correctness[m.status.line][m.status.segment][i]
            != TypingCorrectnessChar::Pending,
{
    lemma_outcome_span(m, input);
}

/// A keystroke keeps every mark that the tracker holds: no cell goes back
/// to pending, and no incorrect cell becomes correct.
pub proof fn lemma_marks_are_kept(m: TypingView, input: char, now: u64, l: int, s: int, c: int)
    requires
        m.ready(),
        0 <= l < m.typing_correctness.len(),
        0 <= s < m.typing_correctness[l].len(),
        0 <= c < m.typing_correctness[l][s].len(),
    ensures
        m.typing_correctness[l][s][c] != TypingCorrectnessChar::Pending ==> m.after_key(
            input,
            now,
        ).typing_correctness[l][s][c] != TypingCorrectnessChar::Pending,
        m.typing_correctness[l][s][c] == TypingCorrectnessChar::Incorrect ==> m.after_key(
            input,
            now,
        ).typing_correctness[l][s][c] == TypingCorrectnessChar::Incorrect,
{
    if m.outcome(input) is Complete {
        lemma_outcome_span(m, input);
    }
}

/// An input that comes more than [`SESSION_GAP_MS`] after the last one opens
/// a session of its own; one that comes sooner joins the last session.
pub proof fn lemma_session_split(sessions: Seq<SessionView>, line: int, entry: TypingInput)
    requires
        sessions.len() > 0,
        sessions.last().inputs.len() > 0,
    ensures
        entry.timestamp - sessions.last().inputs.last().timestamp > SESSION_GAP_MS ==> log_input(
            sessions,
            line,
            entry,
        ).len() == sessions.len() + 1,
        entry.timestamp - sessions.last().inputs.last().timestamp <= SESSION_GAP_MS ==> log_input(
            sessions,
            line,
            entry,
        ).len() == sessions.len(),
{
}

/// Every keystroke is logged: the log after a keystroke holds one input more
/// than the log before it.
pub proof fn lemma_keystroke_is_logged(m: TypingView, input: char, now: u64)
    ensures
        total_inputs(m.sessions_after(input, now)) == total_inputs(m.user_input) + 1,
{
    let entry = TypingInput {
        key: input,
        timestamp: now,
        is_correct: !(m.outcome(input) is Miss),
    };
    let logged = log_input(m.user_input, m.status.line, entry);
    if starts_session(m.user_input, now) {
        assert(logged.drop_last() =~= m.user_input);
        assert(logged.last().inputs.len() == 1);
    } else {
        assert(logged.drop_last() =~= m.user_input.drop_last());
        assert(logged.last().inputs.len() == m.user_input.last().inputs.len() + 1);
    }
    assert(total_inputs(logged) == total_inputs(m.user_input) + 1);
    let after = m.sessions_after(input, now);
    if after != logged {
        assert(after.drop_last() =~= logged);
        assert(after.last().inputs.len() == 0);
    }
}

/// The attempt `r` is the attempt `m` with the keys `typed` on their way to
/// a spelling: the same content, table and tracker, the cursor in the same
/// place.
pub open spec fn midway(m: TypingView, r: TypingView, typed: Seq<char>) -> bool {
    &&& r.content == m.content
    &&& r.layout == m.layout
    &&& r.typing_correctness == m.typing_correctness
    &&& r.status.line == m.status.line
    &&& r.status.segment == m.status.segment
    &&& r.status.char_ == m.status.char_
    &&& r.status.unconfirmed == typed
}

/// A key of a spelling that stands alone, typed after the keys before it:
/// the last key completes the spelling, every other key goes on with it.
pub proof fn lemma_next_key_of_spelling(r: TypingView, k: int, c: int, i: int)
    requires
        0 <= k < r.layout.len(),
        0 <= c < r.layout[k].1.len(),
        0 <= i < r.layout[k].1[c].len(),
        occurs_at(r.segment().target_text(), r.status.char_, r.layout[k].0),
        r.status.unconfirmed == r.layout[k].1[c].take(i),
        stands_alone(
            r.layout,
            r.segment().target_text(),
            r.status.char_,
            r.layout[k].1[c],
            r.layout[k].0.len() as int,
        ),
    ensures
        i + 1 < r.layout[k].1[c].len() ==> r.outcome(r.layout[k].1[c][i]) is Partial,
        i + 1 == r.layout[k].1[c].len() ==> r.outcome(r.layout[k].1[c][i]) == (
        KeyOutcome::Complete { span: r.layout[k].0.len() as int }),
{
    let spelling = r.layout[k].1[c];
    let probe = r.probe(spelling[i]);
    assert(hits(r.layout, probe, k, c));
    let first = lemma_first_hit_exists(r.layout, probe, k, c);
    let other = r.layout[first.0].1[first.1];
    assert(hits(r.layout, probe, first.0, first.1));
    assert(other.take(i + 1) =~= spelling.take(i + 1)) by {
        assert(other.take(i) == spelling.take(i));
        assert forall|j: int| 0 <= j < i implies other[j] == spelling[j] by {
            assert(other.take(i)[j] == spelling.take(i)[j]);
        }
    }
    if i + 1 < spelling.len() {
        if other.len() == i + 1 {
            assert(other.take(i + 1) =~= other);
        }
    } else {
        assert(spelling.take(i + 1) =~= spelling);
        if other.len() == i + 1 {
            assert(other.take(i + 1) =~= other);
        }
    }
}

/// The keys of a spelling that stands alone, typed one after another, take
/// the attempt midway and leave the tracker as it is, up to the last key.
proof fn lemma_spelling_midway(m: TypingView, k: int, c: int, keys: Seq<(char, u64)>, n: int)
    requires
        m.cursor_in_range(),
        m.status.unconfirmed.len() == 0,
        0 <= k < m.layout.len(),
        0 <= c < m.layout[k].1.len(),
        occurs_at(m.segment().target_text(), m.status.char_, m.layout[k].0),
        keys.len() == m.layout[k].1[c].len(),
        forall|i: int| 0 <= i < keys.len() ==> (#[trigger] keys[i]).0 == m.layout[k].1[c][i],
        stands_alone(
            m.layout,
            m.segment().target_text(),
            m.status.char_,
            m.layout[k].1[c],
            m.layout[k].0.len() as int,
        ),
        0 <= n < keys.len(),
    ensures
        midway(m, after_keys(m, keys.take(n)), m.layout[k].1[c].take(n)),
    decreases n,
{
    let spelling = m.layout[k].1[c];
    if n == 0 {
        assert(keys.take(0) =~= Seq::empty());
        assert(spelling.take(0) =~= m.status.unconfirmed);
    } else {
        lemma_spelling_midway(m, k, c, keys, n - 1);
        assert(keys.take(n).drop_last() =~= keys.take(n - 1));
        let r = after_keys(m, keys.take(n - 1));
        assert(keys.take(n).last() == keys[n - 1]);
        lemma_next_key_of_spelling(r, k, c, n - 1);
        assert(spelling.take(n - 1).push(spelling[n - 1]) =~= spelling.take(n));
    }
}

/// In a table where a spelling stands alone, the spelling types its key:
/// its keys, typed one after another from a cursor where the key stands,
/// move the cursor behind the key and mark the key's span as one complete
/// match does, whichever of the key's spellings it is.
pub proof fn lemma_spelling_types_its_key(m: TypingView, k: int, c: int, keys: Seq<(char, u64)>)
    requires
        m.cursor_in_range(),
        m.status.unconfirmed.len() == 0,
        0 <= k < m.layout.len(),
        0 <= c < m.layout[k].1.len(),
        occurs_at(m.segment().target_text(), m.status.char_, m.layout[k].0),
        0 < keys.len() == m.layout[k].1[c].len(),
        forall|i: int| 0 <= i < keys.len() ==> (#[trigger] keys[i]).0 == m.layout[k].1[c][i],
        stands_alone(
            m.layout,
            m.segment().target_text(),
            m.status.char_,
            m.layout[k].1[c],
            m.layout[k].0.len() as int,
        ),
    ensures
        after_keys(m, keys).status == m.advance(m.layout[k].0.len() as int),
        after_keys(m, keys).typing_correctness == with_cells(
            m.typing_correctness,
            m.status.line,
            m.status.segment,
            mark_span(m.cells(), m.status.char_, m.layout[k].0.len() as int),
        ),
{
    let n = keys.len() - 1;
    lemma_spelling_midway(m, k, c, keys, n);
    assert(keys.drop_last() =~= keys.take(n));
    let r = after_keys(m, keys.take(n));
    lemma_next_key_of_spelling(r, k, c, n);
}

/// Every keystroke that a spelling accepts is counted as a correct input,
/// and no other: the count of correct inputs of the log rises by one on a
/// keystroke that is not a miss, and stays on a miss.
pub proof fn lemma_key_is_counted(m: TypingView, input: char, now: u64)
    ensures
        tally(m.sessions_after(input, now), None).type_count == tally(m.user_input, None).type_count
            + if m.outcome(input) is Miss {
            0int
        } else {
            1int
        },
{
    let entry = TypingInput {
        key: input,
        timestamp: now,
        is_correct: !(m.outcome(input) is Miss),
    };
    let gain = if entry.is_correct {
        1int
    } else {
        0int
    };
    let logged = log_input(m.user_input, m.status.line, entry);
    if starts_session(m.user_input, now) {
        assert(logged.drop_last() =~= m.user_input);
        assert(logged.last().inputs =~= seq![entry]);
        assert(seq![entry].drop_last() =~= Seq::<TypingInput>::empty());
        assert(typed_count(seq![entry].drop_last()) == 0);
        assert(typed_count(logged.last().inputs) == gain);
    } else {
        let held = m.user_input.last().inputs;
        assert(logged.drop_last() =~= m.user_input.drop_last());
        assert(logged.last().inputs == held.push(entry));
        assert(held.push(entry).drop_last() =~= held);
        assert(typed_count(logged.last().inputs) == typed_count(held) + gain);
    }
    assert(tally(logged, None).type_count == tally(m.user_input, None).type_count + gain);
    let after = m.sessions_after(input, now);
    if after != logged {
        assert(after.drop_last() =~= logged);
        assert(after.last().inputs.len() == 0);
        assert(typed_count(after.last().inputs) == 0);
    }
}

} // verus!
