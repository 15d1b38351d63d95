//! The state of the game: one model per screen, the typing cursor, the
//! correctness tracker, the input log and the input-method table.

use vstd::prelude::*;
use std::collections::HashMap;
use crate::parser::{Content, ContentView};

verus! {

/// The direction in which text runs on screen.
#[derive(Debug, Clone, Copy, PartialEq, Eq, Structural)]
pub enum TextOrientation {
    Vertical,
    Horizontal,
}

/// The menu: the contents on offer and the one under the cursor.
#[derive(Debug, Clone, PartialEq, Eq)]
pub struct MenuModel {
    pub available_contents: Vec<Content>,
    pub selecting: usize,
    pub layout: TextConvert,
    pub error_messages: Vec<ErrorMsg>,
}

/// A content has been chosen and waits for the start signal.
#[derive(Debug, Clone, PartialEq, Eq)]
pub struct TypingStartModel {
    pub content: Content,
    pub available_contents: Vec<Content>,
    pub layout: TextConvert,
    pub scroll_max: i64,
}

/// A typing attempt in progress.
#[derive(Debug, Clone, PartialEq, Eq)]
pub struct TypingModel {
    pub content: Content,
    pub typing_correctness: TypingCorrectnessContent,
    pub user_input: Vec<TypingSession>,
    pub status: TypingStatus,
    pub available_contents: Vec<Content>,
    pub layout: TextConvert,
    pub keyboard_remapping: KeyboardRemapping,
    pub scroll: TypingScroll,
}

/// A typing attempt that is suspended.
#[derive(Debug, Clone, PartialEq, Eq)]
pub struct PauseModel {
    pub typing_model: TypingModel,
}

/// A typing attempt that has ended.
#[derive(Debug, Clone, PartialEq, Eq)]
pub struct ResultModel {
    pub typing_model: TypingModel,
}

/// The state of the game: one variant per screen.
#[derive(Debug, Clone, PartialEq, Eq)]
pub enum Model {
    Empty,
    Menu(MenuModel),
    TypingStart(TypingStartModel),
    Typing(TypingModel),
    Pause(PauseModel),
    Result(ResultModel),
}

/// The typing cursor. `char_` is the offset in the target text of the current
/// segment at which the next key group begins; `unconfirmed` holds the keys
/// typed so far towards a spelling that is not yet complete.
#[derive(Debug, Clone, PartialEq, Eq)]
pub struct TypingStatus {
    pub line: i32,
    pub segment: i32,
    pub char_: i32,
    pub unconfirmed: Vec<char>,
    pub last_wrong_keydown: Option<char>,
}

/// A run of keystrokes on one line without a long pause.
#[derive(Debug, Clone, PartialEq, Eq)]
pub struct TypingSession {
    pub line: i32,
    pub inputs: Vec<TypingInput>,
}

/// One keystroke, with the time in milliseconds at which it came.
#[derive(Debug, Clone, Copy, PartialEq, Eq)]
pub struct TypingInput {
    pub key: char,
    pub timestamp: u64,
    pub is_correct: bool,
}

/// A message for the user, with the time in milliseconds at which it arose.
#[derive(Debug, Clone, PartialEq, Eq)]
pub struct ErrorMsg {
    pub message: String,
    pub timestamp: u64,
}

/// The input-method table: for each key, a piece of target text, the
/// spellings that type it. The order of the entries is significant.
#[derive(Debug, Clone, PartialEq, Eq)]
pub struct TextConvert {
    pub mapping: Vec<(String, Vec<String>)>,
}

/// A remapping of keys, applied before matching.
#[derive(Debug, Clone, PartialEq, Eq)]
pub struct KeyboardRemapping {
    pub mapping: HashMap<char, char>,
}

/// The correctness of every character of a content's target texts.
#[derive(Debug, Clone, PartialEq, Eq)]
pub struct TypingCorrectnessContent {
    pub lines: Vec<TypingCorrectnessLine>,
}

/// The correctness of one line.
#[derive(Debug, Clone, PartialEq, Eq)]
pub struct TypingCorrectnessLine {
    pub segments: Vec<TypingCorrectnessSegment>,
}

/// The correctness of one segment: a cell for each character of its target
/// text.
#[derive(Debug, Clone, PartialEq, Eq)]
pub struct TypingCorrectnessSegment {
    pub chars: Vec<TypingCorrectnessChar>,
}

/// The state of one cell.
#[derive(Debug, Clone, Copy, PartialEq, Eq, Structural)]
pub enum TypingCorrectnessChar {
    Pending,
    Correct,
    Incorrect,
}

/// Where the view of the current line stands, in presentation units, and
/// when it was last set, in milliseconds.
#[derive(Debug, Clone, Copy, PartialEq, Eq)]
pub struct TypingScroll {
    pub last_update: u64,
    pub scroll: i64,
    pub max: i64,
}

/// A quotient of two integers. The denominator is never zero.
#[derive(Debug, Clone, Copy, PartialEq, Eq)]
pub struct Ratio {
    pub numerator: i128,
    pub denominator: i128,
}

/// What an input log amounts to. `total_time` is in milliseconds, `accuracy`
/// is the share of key groups typed without a miss, and `speed` is in correct
/// keys per second.
#[derive(Debug, Clone, Copy, PartialEq, Eq)]
pub struct TypingMetrics {
    pub miss_count: i32,
    pub type_count: i32,
    pub total_time: i128,
    pub accuracy: Ratio,
    pub speed: Ratio,
}

/// The mathematical value of a [`TypingStatus`].
pub struct StatusView {
    pub line: int,
    pub segment: int,
    pub char_: int,
    pub unconfirmed: Seq<char>,
    pub last_wrong_keydown: Option<char>,
}

/// The mathematical value of a [`TypingSession`].
pub struct SessionView {
    pub line: int,
    pub inputs: Seq<TypingInput>,
}

/// The mathematical value of an [`ErrorMsg`].
pub struct ErrorMsgView {
    pub message: Seq<char>,
    pub timestamp: u64,
}

/// The mathematical value of a [`MenuModel`].
pub struct MenuView {
    pub available_contents: Seq<ContentView>,
    pub selecting: nat,
    pub layout: Seq<(Seq<char>, Seq<Seq<char>>)>,
    pub error_messages: Seq<ErrorMsgView>,
}

/// The mathematical value of a [`TypingStartModel`].
pub struct TypingStartView {
    pub content: ContentView,
    pub available_contents: Seq<ContentView>,
    pub layout: Seq<(Seq<char>, Seq<Seq<char>>)>,
    pub scroll_max: i64,
}

/// The mathematical value of a [`TypingModel`].
pub struct TypingView {
    pub content: ContentView,
    pub typing_correctness: Seq<Seq<Seq<TypingCorrectnessChar>>>,
    pub user_input: Seq<SessionView>,
    pub status: StatusView,
    pub available_contents: Seq<ContentView>,
    pub layout: Seq<(Seq<char>, Seq<Seq<char>>)>,
    pub keyboard_remapping: Map<char, char>,
    pub scroll: TypingScroll,
}

/// The mathematical value of a [`Model`].
pub enum ModelView {
    Empty,
    Menu(MenuView),
    TypingStart(TypingStartView),
    Typing(TypingView),
    Pause(TypingView),
    Result(TypingView),
}

impl View for Ratio {
    type V = (int, int);

    open spec fn view(&self) -> (int, int) {
        (self.numerator as int, self.denominator as int)
    }
}

impl View for TypingStatus {
    type V = StatusView;

    open spec fn view(&self) -> StatusView {
        StatusView {
            line: self.line as int,
            segment: self.segment as int,
            char_: self.char_ as int,
            unconfirmed: self.unconfirmed@,
            last_wrong_keydown: self.last_wrong_keydown,
        }
    }
}

impl View for TypingSession {
    type V = SessionView;

    open spec fn view(&self) -> SessionView {
        SessionView { line: self.line as int, inputs: self.inputs@ }
    }
}

/// The values of a sequence of sessions.
pub open spec fn sessions_view(sessions: Seq<TypingSession>) -> Seq<SessionView> {
    Seq::new(sessions.len(), |i: int| sessions[i]@)
}

impl View for ErrorMsg {
    type V = ErrorMsgView;

    open spec fn view(&self) -> ErrorMsgView {
        ErrorMsgView { message: self.message@, timestamp: self.timestamp }
    }
}

/// The values of a sequence of messages.
pub open spec fn messages_view(messages: Seq<ErrorMsg>) -> Seq<ErrorMsgView> {
    Seq::new(messages.len(), |i: int| messages[i]@)
}

/// The values of a sequence of strings.
pub open spec fn strings_view(strings: Seq<String>) -> Seq<Seq<char>> {
    Seq::new(strings.len(), |i: int| strings[i]@)
}

impl View for TextConvert {
    type V = Seq<(Seq<char>, Seq<Seq<char>>)>;

    open spec fn view(&self) -> Seq<(Seq<char>, Seq<Seq<char>>)> {
        Seq::new(
            self.mapping@.len(),
            |i: int| (self.mapping@[i].0@, strings_view(self.mapping@[i].1@)),
        )
    }
}

impl View for KeyboardRemapping {
    type V = Map<char, char>;

    open spec fn view(&self) -> Map<char, char> {
        self.mapping@
    }
}

impl View for TypingCorrectnessSegment {
    type V = Seq<TypingCorrectnessChar>;

    open spec fn view(&self) -> Seq<TypingCorrectnessChar> {
        self.chars@
    }
}

impl View for TypingCorrectnessLine {
    type V = Seq<Seq<TypingCorrectnessChar>>;

    open spec fn view(&self) -> Seq<Seq<TypingCorrectnessChar>> {
        Seq::new(self.segments@.len(), |i: int| self.segments@[i]@)
    }
}

impl View for TypingCorrectnessContent {
    type V = Seq<Seq<Seq<TypingCorrectnessChar>>>;

    open spec fn view(&self) -> Seq<Seq<Seq<TypingCorrectnessChar>>> {
        Seq::new(self.lines@.len(), |i: int| self.lines@[i]@)
    }
}

/// The values of a sequence of contents.
pub open spec fn contents_view(contents: Seq<Content>) -> Seq<ContentView> {
    Seq::new(contents.len(), |i: int| contents[i]@)
}

impl View for MenuModel {
    type V = MenuView;

    open spec fn view(&self) -> MenuView {
        MenuView {
            available_contents: contents_view(self.available_contents@),
            selecting: self.selecting as nat,
            layout: self.layout@,
            error_messages: messages_view(self.error_messages@),
        }
    }
}

impl View for TypingStartModel {
    type V = TypingStartView;

    open spec fn view(&self) -> TypingStartView {
        TypingStartView {
            content: self.content@,
            available_contents: contents_view(self.available_contents@),
            layout: self.layout@,
            scroll_max: self.scroll_max,
        }
    }
}

impl View for TypingModel {
    type V = TypingView;

    open spec fn view(&self) -> TypingView {
        TypingView {
            content: self.content@,
            typing_correctness: self.typing_correctness@,
            user_input: sessions_view(self.user_input@),
            status: self.status@,
            available_contents: contents_view(self.available_contents@),
            layout: self.layout@,
            keyboard_remapping: self.keyboard_remapping@,
            scroll: self.scroll,
        }
    }
}

impl View for PauseModel {
    type V = TypingView;

    open spec fn view(&self) -> TypingView {
        self.typing_model@
    }
}

impl View for ResultModel {
    type V = TypingView;

    open spec fn view(&self) -> TypingView {
        self.typing_model@
    }
}

impl View for Model {
    type V = ModelView;

    open spec fn view(&self) -> ModelView {
        match self {
            Model::Empty => ModelView::Empty,
            Model::Menu(m) => ModelView::Menu(m@),
            Model::TypingStart(m) => ModelView::TypingStart(m@),
            Model::Typing(m) => ModelView::Typing(m@),
            Model::Pause(m) => ModelView::Pause(m@),
            Model::Result(m) => ModelView::Result(m@),
        }
    }
}

} // verus!
