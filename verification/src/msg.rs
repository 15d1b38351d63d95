//! The messages that move the game from one state to the next.

use vstd::prelude::*;

verus! {

/// What can happen in the menu.
#[derive(Debug, Clone, PartialEq, Eq)]
pub enum MenuMsg {
    /// Puts the cursor on the content with this index.
    MoveCursor(usize),
    /// Adds the content that this source text stands for.
    AddContent(String),
    /// Chooses the content under the cursor.
    Start,
}

/// What can happen while a content waits for the start signal.
#[derive(Debug, Clone, Copy, PartialEq, Eq)]
pub enum TypingStartMsg {
    StartTyping,
    Cancel,
    /// Sets the far end of the scroll range.
    ScrollMax(i64),
}

/// What can happen during an attempt.
#[derive(Debug, Clone, Copy, PartialEq, Eq)]
pub enum TypingMsg {
    KeyInput(char),
    Pause,
    /// Sets the scroll position and the far end of the scroll range.
    ScrollTo(i64, i64),
}

/// What can happen during a pause.
#[derive(Debug, Clone, Copy, PartialEq, Eq)]
pub enum PauseMsg {
    Resume,
    Cancel,
}

/// What can happen on the result screen.
#[derive(Debug, Clone, Copy, PartialEq, Eq)]
pub enum ResultMsg {
    BackToMenu,
    Retry,
}

/// A message, by the state that it is meant for.
#[derive(Debug, Clone, PartialEq, Eq)]
pub enum Msg {
    Menu(MenuMsg),
    Typing(TypingMsg),
    TypingStart(TypingStartMsg),
    Pause(PauseMsg),
    Result(ResultMsg),
}

} // verus!
