//! Annotated text: the content model and the parser that builds it.
//!
//! A source text is a sequence of lines. The first line may carry the title,
//! after the marker `#title`. In a line, `(base/reading)` is an annotation,
//! `/` separates two plain runs, and `\` makes the next character literal.
//! The parser never fails: whatever it cannot read as markup it reads as text.

use vstd::prelude::*;
use vstd::string::StringExecFns;
use crate::text::{
    chars_blank, chars_occur_at, has_prefix, is_blank, is_whitespace, lemma_index_of_unique,
    lines_of, push_char, rows_view, split_lines, str_chars, strip_cr, strip_repeated_prefix, trim,
    trim_chars, trim_end, trim_start,
};

verus! {

/// A displayed unit of text.
#[derive(Debug, Clone, PartialEq, Eq)]
pub enum Segment {
    /// Literal text: what is shown is what is typed.
    Plain { text: String },
    /// Shown text with the phonetic reading that is typed in its place.
    Annotated { base: String, reading: String },
}

/// A line: the unit of progress on screen.
#[derive(Debug, Clone, PartialEq, Eq)]
pub struct Line {
    pub segments: Vec<Segment>,
}

/// A parsed text: a title and the lines to type.
#[derive(Debug, Clone, PartialEq, Eq)]
pub struct Content {
    pub title: Line,
    pub lines: Vec<Line>,
}

/// The mathematical value of a [`Segment`].
pub enum SegmentView {
    Plain { text: Seq<char> },
    Annotated { base: Seq<char>, reading: Seq<char> },
}

/// The mathematical value of a [`Content`].
pub struct ContentView {
    pub title: Seq<SegmentView>,
    pub lines: Seq<Seq<SegmentView>>,
}

impl SegmentView {
    /// The characters that must be typed for this segment.
    pub open spec fn target_text(self) -> Seq<char> {
        match self {
            SegmentView::Plain { text } => text,
            SegmentView::Annotated { base, reading } => reading,
        }
    }

    /// The characters that are shown for this segment.
    pub open spec fn display_text(self) -> Seq<char> {
        match self {
            SegmentView::Plain { text } => text,
            SegmentView::Annotated { base, reading } => base,
        }
    }
}

impl View for Segment {
    type V = SegmentView;

    open spec fn view(&self) -> SegmentView {
        match self {
            Segment::Plain { text } => SegmentView::Plain { text: text@ },
            Segment::Annotated { base, reading } => SegmentView::Annotated {
                base: base@,
                reading: reading@,
            },
        }
    }
}

/// The values of a sequence of segments.
pub open spec fn segments_view(segments: Seq<Segment>) -> Seq<SegmentView> {
    Seq::new(segments.len(), |i: int| segments[i]@)
}

impl View for Line {
    type V = Seq<SegmentView>;

    open spec fn view(&self) -> Seq<SegmentView> {
        segments_view(self.segments@)
    }
}

/// The values of a sequence of lines.
pub open spec fn lines_view(lines: Seq<Line>) -> Seq<Seq<SegmentView>> {
    Seq::new(lines.len(), |i: int| lines[i]@)
}

impl View for Content {
    type V = ContentView;

    open spec fn view(&self) -> ContentView {
        ContentView { title: self.title@, lines: lines_view(self.lines@) }
    }
}

/// What a line shows: the display texts of its segments, one after another.
pub open spec fn display_text(segments: Seq<SegmentView>) -> Seq<char>
    decreases segments.len(),
{
    if segments.len() == 0 {
        Seq::empty()
    } else {
        display_text(segments.drop_last()) + segments.last().display_text()
    }
}

/// The marker that introduces the title on the first line.
pub open spec fn title_marker() -> Seq<char> {
    seq!['#', 't', 'i', 't', 'l', 'e']
}

/// The literal text that starts at `pos` and runs up to the first unescaped
/// `stop_a` or `stop_b`, or to the end. A backslash gives its place to the
/// character after it; a backslash at the very end gives nothing.
pub open spec fn run_text(chars: Seq<char>, pos: int, stop_a: char, stop_b: char) -> Seq<char>
    decreases chars.len() - pos,
{
    if pos < 0 || pos >= chars.len() || chars[pos] == stop_a || chars[pos] == stop_b {
        Seq::empty()
    } else if chars[pos] == '\\' {
        if pos + 1 < chars.len() {
            seq![chars[pos + 1]] + run_text(chars, pos + 2, stop_a, stop_b)
        } else {
            Seq::empty()
        }
    } else {
        seq![chars[pos]] + run_text(chars, pos + 1, stop_a, stop_b)
    }
}

/// Where the run of [`run_text`] ends: the offset of the stop character, or
/// the length of `chars`.
pub open spec fn run_end(chars: Seq<char>, pos: int, stop_a: char, stop_b: char) -> int
    decreases chars.len() - pos,
{
    if pos < 0 || pos >= chars.len() || chars[pos] == stop_a || chars[pos] == stop_b {
        pos
    } else if chars[pos] == '\\' {
        if pos + 1 < chars.len() {
            run_end(chars, pos + 2, stop_a, stop_b)
        } else {
            pos + 1
        }
    } else {
        run_end(chars, pos + 1, stop_a, stop_b)
    }
}

/// The annotation whose opening bracket stands at `start`, and the offset
/// behind it. The base runs to the first `/` or `)`, the reading from behind
/// the `/` to the first `)`. Without a `/` the reading is empty, and the
/// segment is an annotation all the same.
pub open spec fn annotation_at(chars: Seq<char>, start: int) -> (SegmentView, int) {
    let base = run_text(chars, start + 1, '/', ')');
    let base_end = run_end(chars, start + 1, '/', ')');
    let reading_start = if base_end < chars.len() && chars[base_end] == '/' {
        base_end + 1
    } else {
        base_end
    };
    let reading = run_text(chars, reading_start, ')', ')');
    let reading_end = run_end(chars, reading_start, ')', ')');
    let end = if reading_end < chars.len() && chars[reading_end] == ')' {
        reading_end + 1
    } else {
        reading_end
    };
    (SegmentView::Annotated { base, reading }, end)
}

/// The segments of `chars` from `pos` on, where `pos` is a segment boundary.
pub open spec fn segments_from(chars: Seq<char>, pos: int) -> Seq<SegmentView>
    decreases chars.len() - pos,
{
    if pos < 0 || pos >= chars.len() {
        Seq::empty()
    } else if chars[pos] == '(' {
        proof {
            lemma_annotation_advances(chars, pos);
        }
        seq![annotation_at(chars, pos).0] + segments_from(chars, annotation_at(chars, pos).1)
    } else if chars[pos] == '/' {
        segments_from(chars, pos + 1)
    } else {
        proof {
            lemma_run_end_bounds(chars, pos, '(', '/');
        }
        let text = run_text(chars, pos, '(', '/');
        let rest = segments_from(chars, run_end(chars, pos, '(', '/'));
        if text.len() > 0 {
            seq![SegmentView::Plain { text }] + rest
        } else {
            rest
        }
    }
}

/// The segments of one line of source text.
pub open spec fn parse_line_spec(chars: Seq<char>) -> Seq<SegmentView> {
    segments_from(chars, 0)
}

/// The title that a first line gives: what follows the marker, trimmed and
/// parsed as a line; nothing where the line does not begin with the marker.
pub open spec fn title_of(first: Seq<char>) -> Seq<SegmentView> {
    if has_prefix(first, title_marker()) {
        parse_line_spec(trim(strip_repeated_prefix(first, title_marker())))
    } else {
        Seq::empty()
    }
}

/// The lines of a content: every source line that is not blank, parsed.
pub open spec fn body_of(source_lines: Seq<Seq<char>>) -> Seq<Seq<SegmentView>> {
    source_lines.filter(|l: Seq<char>| !is_blank(l)).map_values(
        |l: Seq<char>| parse_line_spec(l),
    )
}

/// The content that a source text stands for.
pub open spec fn parse_problem_spec(input: Seq<char>) -> ContentView {
    let source = lines_of(input);
    if source.len() == 0 {
        ContentView { title: Seq::empty(), lines: Seq::empty() }
    } else {
        ContentView { title: title_of(source[0]), lines: body_of(source.skip(1)) }
    }
}

/// A run ends at or behind its start, within the text, and behind its start
/// unless it starts on a stop character or at the end.
pub proof fn lemma_run_end_bounds(chars: Seq<char>, pos: int, stop_a: char, stop_b: char)
    requires
        0 <= pos <= chars.len(),
    ensures
        pos <= run_end(chars, pos, stop_a, stop_b) <= chars.len(),
        pos < chars.len() && chars[pos] != stop_a && chars[pos] != stop_b ==> pos < run_end(
            chars,
            pos,
            stop_a,
            stop_b,
        ),
    decreases chars.len() - pos,
{
    if pos >= chars.len() || chars[pos] == stop_a || chars[pos] == stop_b {
    } else if chars[pos] == '\\' {
        if pos + 1 < chars.len() {
            lemma_run_end_bounds(chars, pos + 2, stop_a, stop_b);
        }
    } else {
        lemma_run_end_bounds(chars, pos + 1, stop_a, stop_b);
    }
}

/// An annotation ends behind its opening bracket and within the text.
pub proof fn lemma_annotation_advances(chars: Seq<char>, start: int)
    requires
        0 <= start < chars.len(),
    ensures
        start < annotation_at(chars, start).1 <= chars.len(),
{
    lemma_run_end_bounds(chars, start + 1, '/', ')');
    let base_end = run_end(chars, start + 1, '/', ')');
    let reading_start = if base_end < chars.len() && chars[base_end] == '/' {
        base_end + 1
    } else {
        base_end
    };
    lemma_run_end_bounds(chars, reading_start, ')', ')');
}

/// Reads the literal run that starts at `start`.
fn read_run(chars: &Vec<char>, start: usize, stop_a: char, stop_b: char) -> (run: (String, usize))
    requires
        start <= chars.len(),
    ensures
        run.0@ == run_text(chars@, start as int, stop_a, stop_b),
        run.1 == run_end(chars@, start as int, stop_a, stop_b),
        start <= run.1 <= chars.len(),
{
    let mut text = String::new();
    let mut pos: usize = start;
    proof {
        lemma_run_end_bounds(chars@, start as int, stop_a, stop_b);
    }
    while pos < chars.len() && chars[pos] != stop_a && chars[pos] != stop_b
        invariant
            start <= pos <= chars.len(),
            run_text(chars@, start as int, stop_a, stop_b) == text@ + run_text(
                chars@,
                pos as int,
                stop_a,
                stop_b,
            ),
            run_end(chars@, start as int, stop_a, stop_b) == run_end(
                chars@,
                pos as int,
                stop_a,
                stop_b,
            ),
        decreases chars.len() - pos,
    {
        if chars[pos] == '\\' {
            pos += 1;
            if pos < chars.len() {
                push_char(&mut text, chars[pos]);
                pos += 1;
            }
        } else {
            push_char(&mut text, chars[pos]);
            pos += 1;
        }
    }
    (text, pos)
}

/// Parses the annotation whose opening bracket stands at `start`; returns it
/// with the offset behind it.
pub fn parse_annotated(chars: &Vec<char>, start: usize) -> (parsed: (Segment, usize))
    requires
        start < usize::MAX,
    ensures
        parsed.0@ == annotation_at(chars@, start as int).0,
        parsed.1 == annotation_at(chars@, start as int).1,
        start < chars.len() ==> start < parsed.1 <= chars.len(),
{
    if start >= chars.len() {
        return (Segment::Annotated { base: String::new(), reading: String::new() }, start + 1);
    }
    let (base, base_end) = read_run(chars, start + 1, '/', ')');
    let reading_start = if base_end < chars.len() && chars[base_end] == '/' {
        base_end + 1
    } else {
        base_end
    };
    let (reading, reading_end) = read_run(chars, reading_start, ')', ')');
    let end = if reading_end < chars.len() && chars[reading_end] == ')' {
        reading_end + 1
    } else {
        reading_end
    };
    (Segment::Annotated { base, reading }, end)
}

/// Parses the characters of one line into its segments.
pub fn parse_chars(chars: &Vec<char>) -> (segments: Vec<Segment>)
    ensures
        segments_view(segments@) == parse_line_spec(chars@),
{
    let mut segments: Vec<Segment> = Vec::new();
    let mut pos: usize = 0;
    while pos < chars.len()
        invariant
            pos <= chars.len(),
            parse_line_spec(chars@) == segments_view(segments@) + segments_from(
                chars@,
                pos as int,
            ),
        decreases chars.len() - pos,
    {
        if chars[pos] == '(' {
            let (annotated, next) = parse_annotated(chars, pos);
            segments.push(annotated);
            pos = next;
        } else if chars[pos] == '/' {
            pos += 1;
        } else {
            proof {
                lemma_run_end_bounds(chars@, pos as int, '(', '/');
            }
            let (text, next) = read_run(chars, pos, '(', '/');
            if !text.as_str().is_empty() {
                segments.push(Segment::Plain { text });
            }
            pos = next;
        }
    }
    segments
}

/// Parses one line of source text into its segments.
pub fn parse_line(line: &str) -> (segments: Vec<Segment>)
    ensures
        segments_view(segments@) == parse_line_spec(line@),
{
    let chars = str_chars(line);
    parse_chars(&chars)
}

/// The characters of the title marker.
fn marker_chars() -> (marker: Vec<char>)
    ensures
        marker@ == title_marker(),
{
    let mut marker: Vec<char> = Vec::new();
    marker.push('#');
    marker.push('t');
    marker.push('i');
    marker.push('t');
    marker.push('l');
    marker.push('e');
    marker
}

/// Parses the title out of the first line of a text.
fn parse_title(first: &Vec<char>) -> (title: Vec<Segment>)
    ensures
        segments_view(title@) == title_of(first@),
{
    let marker = marker_chars();
    if !chars_occur_at(first, 0, &marker) {
        return Vec::new();
    }
    let mut from: usize = 0;
    assert(first@.skip(0) =~= first@);
    while chars_occur_at(first, from, &marker)
        invariant
            from <= first.len(),
            marker@ == title_marker(),
            strip_repeated_prefix(first@, title_marker()) == strip_repeated_prefix(
                first@.skip(from as int),
                title_marker(),
            ),
        decreases first.len() - from,
    {
        proof {
            let s = first@.skip(from as int);
            assert(s.subrange(0, 6) =~= first@.subrange(from as int, from + 6));
            assert(s.skip(6) =~= first@.skip(from + 6));
        }
        from += 6;
    }
    proof {
        let s = first@.skip(from as int);
        if has_prefix(s, title_marker()) {
            assert(s.subrange(0, 6) =~= first@.subrange(from as int, from + 6));
        }
    }
    let trimmed = trim_chars(first, from);
    parse_chars(&trimmed)
}

/// Parses a source text into a content.
pub fn parse_problem(input: &str) -> (content: Content)
    ensures
        content@ == parse_problem_spec(input@),
{
    let chars = str_chars(input);
    let source = split_lines(&chars);
    if source.len() == 0 {
        let content = Content { title: Line { segments: Vec::new() }, lines: Vec::new() };
        assert(content@.title =~= Seq::empty());
        assert(content@.lines =~= Seq::empty());
        return content;
    }
    let title = Line { segments: parse_title(&source[0]) };
    let ghost rows = lines_of(chars@).skip(1);
    let ghost keep = |l: Seq<char>| !is_blank(l);
    let ghost parse = |l: Seq<char>| parse_line_spec(l);
    let mut lines: Vec<Line> = Vec::new();
    let mut i: usize = 1;
    assert(rows.take(0).filter(keep) =~= Seq::empty());
    while i < source.len()
        invariant
            1 <= i <= source.len(),
            rows_view(source@) == lines_of(chars@),
            rows == lines_of(chars@).skip(1),
            keep == |l: Seq<char>| !is_blank(l),
            parse == |l: Seq<char>| parse_line_spec(l),
            lines_view(lines@) == rows.take(i - 1).filter(keep).map_values(parse),
        decreases source.len() - i,
    {
        let ghost before = rows.take(i - 1);
        proof {
            assert(rows.take(i as int).drop_last() =~= before);
            reveal(Seq::filter);
        }
        if !chars_blank(&source[i]) {
            let line = Line { segments: parse_chars(&source[i]) };
            proof {
                let kept = before.filter(keep);
                let more = kept.push(source@[i as int]@);
                assert(lines_view(lines@).len() == lines@.len());
                assert forall|k: int| 0 <= k < more.len() implies lines_view(
                    lines@.push(line),
                )[k] == more.map_values(parse)[k] by {
                    if k < kept.len() {
                        assert(lines_view(lines@)[k] == kept.map_values(parse)[k]);
                    }
                }
            }
            lines.push(line);
        }
        i += 1;
    }
    let content = Content { title, lines };
    proof {
        assert(rows.take(source.len() - 1) =~= rows);
    }
    content
}

/// A copy of a segment.
pub fn copy_segment(segment: &Segment) -> (copy: Segment)
    ensures
        copy@ == segment@,
{
    match segment {
        Segment::Plain { text } => Segment::Plain { text: text.clone() },
        Segment::Annotated { base, reading } => Segment::Annotated {
            base: base.clone(),
            reading: reading.clone(),
        },
    }
}

/// A copy of a line.
pub fn copy_line(line: &Line) -> (copy: Line)
    ensures
        copy@ == line@,
{
    let mut segments: Vec<Segment> = Vec::new();
    let mut i: usize = 0;
    while i < line.segments.len()
        invariant
            i <= line.segments.len(),
            segments@.len() == i,
            forall|k: int| 0 <= k < i ==> (#[trigger] segments@[k])@ == line.segments@[k]@,
        decreases line.segments.len() - i,
    {
        segments.push(copy_segment(&line.segments[i]));
        i += 1;
    }
    let copy = Line { segments };
    copy
}

/// A copy of a content.
pub fn copy_content(content: &Content) -> (copy: Content)
    ensures
        copy@ == content@,
{
    let mut lines: Vec<Line> = Vec::new();
    let mut i: usize = 0;
    while i < content.lines.len()
        invariant
            i <= content.lines.len(),
            lines@.len() == i,
            forall|k: int| 0 <= k < i ==> (#[trigger] lines@[k])@ == content.lines@[k]@,
        decreases content.lines.len() - i,
    {
        lines.push(copy_line(&content.lines[i]));
        i += 1;
    }
    let copy = Content { title: copy_line(&content.title), lines };
    assert(copy@.lines =~= content@.lines);
    copy
}

impl Segment {
    /// The text that the segment shows: its own text, or the base of an
    /// annotation.
    pub fn to_string(&self) -> (shown: String)
        ensures
            shown@ == self@.display_text(),
    {
        match self {
            Segment::Plain { text } => text.clone(),
            Segment::Annotated { base, reading: _ } => base.clone(),
        }
    }
}

impl Line {
    /// The text that the line shows: what its segments show, one after
    /// another.
    pub fn to_string(&self) -> (shown: String)
        ensures
            shown@ == display_text(self@),
    {
        let mut shown = String::new();
        let mut i: usize = 0;
        while i < self.segments.len()
            invariant
                i <= self.segments.len(),
                shown@ == display_text(self@.take(i as int)),
            decreases self.segments.len() - i,
        {
            proof {
                assert(self@.take(i + 1).drop_last() =~= self@.take(i as int));
            }
            let part = self.segments[i].to_string();
            shown.append(part.as_str());
            i += 1;
        }
        assert(self@.take(i as int) =~= self@);
        shown
    }
}

/// A character with no meaning in markup.
pub open spec fn is_literal(c: char) -> bool {
    c != '\\' && c != '(' && c != '/' && c != ')'
}

/// A text of characters with no meaning in markup.
pub open spec fn is_literal_text(s: Seq<char>) -> bool {
    forall|i: int| 0 <= i < s.len() ==> is_literal(#[trigger] s[i])
}

/// A run over characters that are neither a backslash nor a stop is those
/// characters, and it ends where they end.
pub proof fn lemma_run_over_literals(
    chars: Seq<char>,
    pos: int,
    end: int,
    stop_a: char,
    stop_b: char,
)
    requires
        0 <= pos <= end <= chars.len(),
        forall|i: int|
            pos <= i < end ==> chars[i] != '\\' && chars[i] != stop_a && chars[i] != stop_b,
        end < chars.len() ==> chars[end] == stop_a || chars[end] == stop_b,
    ensures
        run_text(chars, pos, stop_a, stop_b) == chars.subrange(pos, end),
        run_end(chars, pos, stop_a, stop_b) == end,
    decreases end - pos,
{
    if pos < end {
        lemma_run_over_literals(chars, pos + 1, end, stop_a, stop_b);
        assert(seq![chars[pos]] + chars.subrange(pos + 1, end) =~= chars.subrange(pos, end));
    } else {
        assert(chars.subrange(pos, end) =~= Seq::empty());
    }
}

/// A line without markup is one plain segment that holds the line, and it
/// shows as it was written.
pub proof fn lemma_plain_line(chars: Seq<char>)
    requires
        chars.len() > 0,
        forall|i: int|
            0 <= i < chars.len() ==> chars[i] != '\\' && chars[i] != '(' && chars[i] != '/',
    ensures
        parse_line_spec(chars) == seq![SegmentView::Plain { text: chars }],
        display_text(parse_line_spec(chars)) == chars,
{
    lemma_run_over_literals(chars, 0, chars.len() as int, '(', '/');
    assert(chars.subrange(0, chars.len() as int) =~= chars);
    let parsed = seq![SegmentView::Plain { text: chars }];
    assert(parsed + segments_from(chars, chars.len() as int) =~= parsed);
    assert(parsed.drop_last() =~= Seq::empty());
    assert(display_text(parsed.drop_last()) =~= Seq::empty());
    assert(display_text(parsed) =~= chars);
}

/// No plain segment of a parsed line is empty.
pub proof fn lemma_plain_segments_hold_text(chars: Seq<char>, pos: int, i: int)
    requires
        0 <= pos,
        0 <= i < segments_from(chars, pos).len(),
    ensures
        segments_from(chars, pos)[i] matches SegmentView::Plain { text } ==> text.len() > 0,
    decreases chars.len() - pos,
{
    if pos < chars.len() {
        if chars[pos] == '(' {
            lemma_annotation_advances(chars, pos);
            if i > 0 {
                lemma_plain_segments_hold_text(chars, annotation_at(chars, pos).1, i - 1);
            }
        } else if chars[pos] == '/' {
            lemma_plain_segments_hold_text(chars, pos + 1, i);
        } else {
            lemma_run_end_bounds(chars, pos, '(', '/');
            let text = run_text(chars, pos, '(', '/');
            let next = run_end(chars, pos, '(', '/');
            if text.len() > 0 {
                if i > 0 {
                    lemma_plain_segments_hold_text(chars, next, i - 1);
                }
            } else {
                lemma_plain_segments_hold_text(chars, next, i);
            }
        }
    }
}

/// An annotation of a base and a reading without markup, with plain text
/// behind it, is read as that annotation and that text.
pub proof fn lemma_annotation_then_plain(base: Seq<char>, reading: Seq<char>, tail: Seq<char>)
    requires
        is_literal_text(base),
        is_literal_text(reading),
        is_literal_text(tail),
    ensures
        parse_line_spec(seq!['('] + base + seq!['/'] + reading + seq![')'] + tail) == seq![
            SegmentView::Annotated { base, reading },
        ] + if tail.len() > 0 {
            seq![SegmentView::Plain { text: tail }]
        } else {
            Seq::empty()
        },
{
    let chars = seq!['('] + base + seq!['/'] + reading + seq![')'] + tail;
    let slash = 1 + base.len() as int;
    let close = slash + 1 + reading.len() as int;
    assert(chars.len() == close + 1 + tail.len());
    assert(chars[0] == '(');
    assert(chars[slash] == '/');
    assert(chars[close] == ')');
    assert forall|i: int| 1 <= i < slash implies is_literal(chars[i]) by {
        assert(chars[i] == base[i - 1]);
    }
    assert forall|i: int| slash + 1 <= i < close implies is_literal(chars[i]) by {
        assert(chars[i] == reading[i - slash - 1]);
    }
    assert forall|i: int| close + 1 <= i < chars.len() implies is_literal(chars[i]) by {
        assert(chars[i] == tail[i - close - 1]);
    }
    lemma_run_over_literals(chars, 1, slash, '/', ')');
    lemma_run_over_literals(chars, slash + 1, close, ')', ')');
    assert(chars.subrange(1, slash) =~= base);
    assert(chars.subrange(slash + 1, close) =~= reading);
    assert(annotation_at(chars, 0) == (SegmentView::Annotated { base, reading }, close + 1));
    lemma_run_over_literals(chars, close + 1, chars.len() as int, '(', '/');
    assert(chars.subrange(close + 1, chars.len() as int) =~= tail);
    let rest = segments_from(chars, close + 1);
    if tail.len() > 0 {
        assert(is_literal(chars[close + 1]));
        assert(segments_from(chars, chars.len() as int) =~= Seq::empty());
        assert(rest =~= seq![SegmentView::Plain { text: tail }]);
    } else {
        assert(rest =~= Seq::empty());
    }
}

/// A text without markup and without a line feed.
pub open spec fn is_plain_line(s: Seq<char>) -> bool {
    forall|i: int|
        0 <= i < s.len() ==> (#[trigger] s[i]) != '\\' && s[i] != '(' && s[i] != '/' && s[i]
            != '\n'
}

/// A text of two lines, the marked title and one line without markup, is
/// read as that title and that line: each becomes one plain segment that
/// holds the text as it was written.
pub proof fn lemma_title_and_line(title: Seq<char>, line: Seq<char>)
    requires
        title.len() > 0,
        is_plain_line(title),
        !is_whitespace(title[0]),
        !is_whitespace(title.last()),
        line.len() > 0,
        is_plain_line(line),
        !is_blank(line),
        line.last() != '\r',
    ensures
        parse_problem_spec(title_marker() + seq![' '] + title + seq!['\n'] + line) == (ContentView {
            title: seq![SegmentView::Plain { text: title }],
            lines: seq![seq![SegmentView::Plain { text: line }]],
        }),
{
    let marker = title_marker();
    let first = marker + seq![' '] + title;
    let input = first + seq!['\n'] + line;
    let n = first.len() as int;
    assert(input =~= marker + seq![' '] + title + seq!['\n'] + line);
    // The lines of the text.
    assert forall|i: int| 0 <= i < n implies input[i] != '\n' by {
        if i >= 7 {
            assert(input[i] == title[i - 7]);
        }
    }
    lemma_index_of_unique(input, '\n', n);
    assert(input.take(n) =~= first);
    assert(input.skip(n + 1) =~= line);
    assert(first.last() == title.last());
    assert(strip_cr(first) == first);
    lemma_index_of_unique(line, '\n', line.len() as int);
    assert(lines_of(line) =~= seq![line]);
    let source = lines_of(input);
    assert(source =~= seq![first, line]);
    // The title.
    let spaced = seq![' '] + title;
    assert(first.subrange(0, 6) =~= marker);
    assert(first.skip(6) =~= spaced);
    assert(!has_prefix(spaced, marker)) by {
        if has_prefix(spaced, marker) {
            assert(spaced.subrange(0, 6)[0] == marker[0]);
        }
    }
    assert(strip_repeated_prefix(spaced, marker) == spaced);
    assert(strip_repeated_prefix(first, marker) == spaced);
    assert(spaced.drop_first() =~= title);
    assert(trim_start(title) == title);
    assert(trim_start(spaced) == title);
    assert(trim_end(title) == title);
    lemma_plain_line(title);
    assert(title_of(source[0]) == seq![SegmentView::Plain { text: title }]);
    // The body.
    let keep = |l: Seq<char>| !is_blank(l);
    let rows = source.skip(1);
    assert(rows =~= seq![line]);
    reveal(Seq::filter);
    assert(rows.drop_last() =~= Seq::<Seq<char>>::empty());
    assert(rows.drop_last().filter(keep) =~= Seq::<Seq<char>>::empty());
    assert(rows.filter(keep) =~= seq![line]);
    lemma_plain_line(line);
    assert(body_of(rows) =~= seq![seq![SegmentView::Plain { text: line }]]);
}

} // verus!
