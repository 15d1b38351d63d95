//! What comes in from outside the game: keys of the keyboard, scroll
//! positions, new contents, and the table and contents that the game starts
//! with.

use vstd::prelude::*;
use crate::layout::{json_table, layout_from_json, LayoutError};
use crate::model::{MenuModel, Model, ModelView, TextConvert, TextOrientation};
use crate::msg::{MenuMsg, Msg, PauseMsg, ResultMsg, TypingMsg, TypingStartMsg};
use crate::parser::{parse_problem, parse_problem_spec, Content, ContentView};
use crate::text::{str_chars, str_equal};
use crate::update::{add_content, can_update, menu_of, update, update_spec, with_content};

verus! {

/// The message that a key of the keyboard stands for in a state, where it
/// stands for one. Keys are named as the keyboard event names them; a key
/// whose name is a single character is that character.
pub open spec fn keyboard_spec(model: ModelView, key: Seq<char>, orientation: TextOrientation) -> Option<
    Msg,
> {
    match model {
        ModelView::Menu(m) => {
            if (key == "ArrowLeft"@ && orientation == TextOrientation::Vertical) || (key
                == "ArrowDown"@ && orientation == TextOrientation::Horizontal) {
                if m.selecting + 1 < m.available_contents.len() {
                    Some(Msg::Menu(MenuMsg::MoveCursor((m.selecting + 1) as usize)))
                } else {
                    None
                }
            } else if (key == "ArrowRight"@ && orientation == TextOrientation::Vertical) || (key
                == "ArrowUp"@ && orientation == TextOrientation::Horizontal) {
                if m.selecting > 0 {
                    Some(Msg::Menu(MenuMsg::MoveCursor((m.selecting - 1) as usize)))
                } else {
                    None
                }
            } else if key == " "@ || key == "Enter"@ {
                Some(Msg::Menu(MenuMsg::Start))
            } else {
                None
            }
        },
        ModelView::TypingStart(_) => {
            if key == " "@ {
                Some(Msg::TypingStart(TypingStartMsg::StartTyping))
            } else if key == "Escape"@ {
                Some(Msg::TypingStart(TypingStartMsg::Cancel))
            } else {
                None
            }
        },
        ModelView::Typing(_) => {
            if key == "Escape"@ {
                Some(Msg::Typing(TypingMsg::Pause))
            } else if key.len() == 1 {
                Some(Msg::Typing(TypingMsg::KeyInput(key[0])))
            } else {
                None
            }
        },
        ModelView::Pause(_) => {
            if key == " "@ {
                Some(Msg::Pause(PauseMsg::Resume))
            } else if key == "Escape"@ {
                Some(Msg::Pause(PauseMsg::Cancel))
            } else {
                None
            }
        },
        ModelView::Result(_) => {
            if key == " "@ {
                Some(Msg::Result(ResultMsg::Retry))
            } else if key == "Escape"@ {
                Some(Msg::Result(ResultMsg::BackToMenu))
            } else {
                None
            }
        },
        ModelView::Empty => None,
    }
}

/// The message that a key of the keyboard stands for in a state.
pub fn keyboard_message(model: &Model, key: &str, orientation: TextOrientation) -> (msg: Option<Msg>)
    ensures
        msg == keyboard_spec(model@, key@, orientation),
{
    match model {
        Model::Menu(menu) => {
            let vertical = match orientation {
                TextOrientation::Vertical => true,
                TextOrientation::Horizontal => false,
            };
            let forward = if vertical {
                str_equal(key, "ArrowLeft")
            } else {
                str_equal(key, "ArrowDown")
            };
            let backward = if vertical {
                str_equal(key, "ArrowRight")
            } else {
                str_equal(key, "ArrowUp")
            };
            let count = menu.available_contents.len();
            if forward {
                if menu.selecting < count && menu.selecting + 1 < count {
                    Some(Msg::Menu(MenuMsg::MoveCursor(menu.selecting + 1)))
                } else {
                    None
                }
            } else if backward {
                if menu.selecting > 0 {
                    Some(Msg::Menu(MenuMsg::MoveCursor(menu.selecting - 1)))
                } else {
                    None
                }
            } else if str_equal(key, " ") || str_equal(key, "Enter") {
                Some(Msg::Menu(MenuMsg::Start))
            } else {
                None
            }
        },
        Model::TypingStart(_) => {
            if str_equal(key, " ") {
                Some(Msg::TypingStart(TypingStartMsg::StartTyping))
            } else if str_equal(key, "Escape") {
                Some(Msg::TypingStart(TypingStartMsg::Cancel))
            } else {
                None
            }
        },
        Model::Typing(_) => {
            if str_equal(key, "Escape") {
                Some(Msg::Typing(TypingMsg::Pause))
            } else {
                let chars = str_chars(key);
                if chars.len() == 1 {
                    Some(Msg::Typing(TypingMsg::KeyInput(chars[0])))
                } else {
                    None
                }
            }
        },
        Model::Pause(_) => {
            if str_equal(key, " ") {
                Some(Msg::Pause(PauseMsg::Resume))
            } else if str_equal(key, "Escape") {
                Some(Msg::Pause(PauseMsg::Cancel))
            } else {
                None
            }
        },
        Model::Result(_) => {
            if str_equal(key, " ") {
                Some(Msg::Result(ResultMsg::Retry))
            } else if str_equal(key, "Escape") {
                Some(Msg::Result(ResultMsg::BackToMenu))
            } else {
                None
            }
        },
        Model::Empty => None,
    }
}

/// The state after a key of the keyboard: the state that follows on the
/// message that the key stands for, and the same state where it stands for
/// none.
pub open spec fn keyboard_step(
    model: ModelView,
    key: Seq<char>,
    orientation: TextOrientation,
    now: u64,
) -> ModelView {
    match keyboard_spec(model, key, orientation) {
        Some(msg) => update_spec(model, msg, now),
        None => model,
    }
}

/// Takes a key of the keyboard: applies the message that it stands for in
/// the state, at the time that the clock gives.
pub fn event_receive_keyboard(model: Model, key: &str, orientation: TextOrientation) -> (next: Model)
    requires
        keyboard_spec(model@, key@, orientation) matches Some(msg) ==> can_update(model, msg),
    ensures
        exists|current_time: u64| next@ == keyboard_step(model@, key@, orientation, current_time),
        model.wf() ==> next.wf(),
{
    match keyboard_message(&model, key, orientation) {
        Some(msg) => {
            let next = update(model, msg);
            proof {
                let at = choose|at: u64| next@ == update_spec(model@, msg, at);
                assert(next@ == keyboard_step(model@, key@, orientation, at));
            }
            next
        },
        None => {
            assert(model@ == keyboard_step(model@, key@, orientation, 0));
            model
        },
    }
}

/// The message that sets the scroll state of `model` to the position
/// `target` in a range that ends at `max`, where the state scrolls.
pub open spec fn scroll_spec(model: ModelView, target: i64, max: i64) -> Option<Msg> {
    match model {
        ModelView::Typing(_) => Some(Msg::Typing(TypingMsg::ScrollTo(target, max))),
        ModelView::TypingStart(_) => Some(Msg::TypingStart(TypingStartMsg::ScrollMax(max))),
        _ => None,
    }
}

/// The state after its scroll state is set at time `now`.
pub open spec fn scroll_step(model: ModelView, target: i64, max: i64, now: u64) -> ModelView {
    match scroll_spec(model, target, max) {
        Some(msg) => update_spec(model, msg, now),
        None => model,
    }
}

/// Sets the scroll state: during an attempt the position and the far end,
/// before its start the far end alone; elsewhere nothing.
pub fn typing_scroll(model: Model, target: i64, max: i64) -> (next: Model)
    ensures
        exists|current_time: u64| next@ == scroll_step(model@, target, max, current_time),
        model.wf() ==> next.wf(),
{
    let msg = match model {
        Model::Typing(_) => Msg::Typing(TypingMsg::ScrollTo(target, max)),
        Model::TypingStart(_) => Msg::TypingStart(TypingStartMsg::ScrollMax(max)),
        _ => {
            assert(model@ == scroll_step(model@, target, max, 0));
            return model;
        },
    };
    let next = update(model, msg);
    proof {
        let at = choose|at: u64| next@ == update_spec(model@, msg, at);
        assert(next@ == scroll_step(model@, target, max, at));
    }
    next
}

/// Adds the content that a source text stands for to the menu; elsewhere
/// nothing.
pub fn add_contents(model: Model, content: String) -> (next: Model)
    ensures
        next@ == match model@ {
            ModelView::Menu(m) => ModelView::Menu(with_content(m, content@)),
            _ => model@,
        },
        model.wf() ==> next.wf(),
{
    match model {
        Model::Menu(menu) => Model::Menu(add_content(menu, content.as_str())),
        _ => model,
    }
}

/// The contents that a sequence of source texts stands for.
pub open spec fn parsed_contents(texts: Seq<String>) -> Seq<ContentView> {
    Seq::new(texts.len(), |i: int| parse_problem_spec(texts[i]@))
}

/// The menu with the table `layout` and the contents that `samples` stand
/// for: the cursor on the first content, no messages.
pub fn initial_menu(layout: TextConvert, samples: &Vec<String>) -> (model: Model)
    ensures
        model@ == ModelView::Menu(menu_of(parsed_contents(samples@), layout@)),
{
    let mut available_contents: Vec<Content> = Vec::new();
    let mut i: usize = 0;
    while i < samples.len()
        invariant
            i <= samples.len(),
            available_contents@.len() == i,
            forall|k: int|
                0 <= k < i ==> (#[trigger] available_contents@[k])@ == parse_problem_spec(
                    samples@[k]@,
                ),
        decreases samples.len() - i,
    {
        available_contents.push(parse_problem(samples[i].as_str()));
        i += 1;
    }
    let menu = MenuModel { available_contents, selecting: 0, layout, error_messages: Vec::new() };
    assert(menu@.available_contents =~= parsed_contents(samples@));
    assert(menu@.error_messages =~= Seq::empty());
    Model::Menu(menu)
}

/// The first state of the game: the menu with the table that `layout_json`
/// stands for and the contents that `samples` stand for. Fails where the
/// text is not a table.
pub fn init_model(layout_json: &str, samples: &Vec<String>) -> (made: Result<Model, LayoutError>)
    ensures
        match made {
            Ok(model) => json_table(layout_json@) matches Some(layout) && model@
                == ModelView::Menu(menu_of(parsed_contents(samples@), layout)),
            Err(_) => json_table(layout_json@) is None,
        },
{
    match layout_from_json(layout_json) {
        Ok(layout) => Ok(initial_menu(layout, samples)),
        Err(error) => Err(error),
    }
}

} // verus!
