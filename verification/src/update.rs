//! The transition function of the game: from a state and a message to the
//! next state.

pub use crate::events::{add_contents, event_receive_keyboard, init_model, typing_scroll};
pub use crate::render::fetch_render_data;

use vstd::prelude::*;
use std::collections::HashMap;
use crate::model::{
    contents_view, KeyboardRemapping, MenuModel, MenuView, Model, ModelView, PauseModel,
    ResultModel, SessionView, StatusView, TypingModel, TypingScroll, TypingSession,
    TypingStartModel, TypingStartView, TypingStatus, TypingView,
};
use crate::msg::{MenuMsg, Msg, PauseMsg, ResultMsg, TypingMsg, TypingStartMsg};
use crate::parser::{copy_content, parse_problem, parse_problem_spec, ContentView};
use crate::timestamp::now;
use crate::typing::{
    fresh_tracker, is_typable, key_input_at, key_step, pending_tracker, start_new_session,
    typable, with_new_session,
};

verus! {

/// The menu that a state goes back to: the cursor on the first content, no
/// messages.
pub open spec fn menu_of(
    available_contents: Seq<ContentView>,
    layout: Seq<(Seq<char>, Seq<Seq<char>>)>,
) -> MenuView {
    MenuView { available_contents, selecting: 0, layout, error_messages: Seq::empty() }
}

/// The menu with the content that a source text stands for behind the
/// contents that it had.
pub open spec fn with_content(m: MenuView, source: Seq<char>) -> MenuView {
    MenuView { available_contents: m.available_contents.push(parse_problem_spec(source)), ..m }
}

/// The attempt that starts at time `now` on the content that waits in `m`.
pub open spec fn attempt_of(m: TypingStartView, now: u64) -> TypingView {
    TypingView {
        content: m.content,
        typing_correctness: pending_tracker(m.content),
        user_input: seq![SessionView { line: 0, inputs: Seq::empty() }],
        status: StatusView {
            line: 0,
            segment: 0,
            char_: 0,
            unconfirmed: Seq::empty(),
            last_wrong_keydown: None,
        },
        available_contents: m.available_contents,
        layout: m.layout,
        keyboard_remapping: Map::empty(),
        scroll: TypingScroll { last_update: now, scroll: m.scroll_max, max: m.scroll_max },
    }
}

/// The state that follows `model` on `msg` at time `now`. A message that is
/// not meant for the state leaves it as it is, and so does the start signal
/// for a content that cannot be typed.
pub open spec fn update_spec(model: ModelView, msg: Msg, now: u64) -> ModelView {
    match (model, msg) {
        (ModelView::Menu(m), Msg::Menu(MenuMsg::MoveCursor(index))) => ModelView::Menu(
            MenuView { selecting: index as nat, ..m },
        ),
        (ModelView::Menu(m), Msg::Menu(MenuMsg::Start)) => ModelView::TypingStart(
            TypingStartView {
                content: m.available_contents[m.selecting as int],
                available_contents: m.available_contents,
                layout: m.layout,
                scroll_max: 0,
            },
        ),
        (ModelView::Menu(m), Msg::Menu(MenuMsg::AddContent(text))) => ModelView::Menu(
            with_content(m, text@),
        ),
        (ModelView::TypingStart(m), Msg::TypingStart(TypingStartMsg::StartTyping)) => {
            if typable(m.content) {
                ModelView::Typing(attempt_of(m, now))
            } else {
                model
            }
        },
        (ModelView::TypingStart(m), Msg::TypingStart(TypingStartMsg::Cancel)) => ModelView::Menu(
            menu_of(m.available_contents, m.layout),
        ),
        (
            ModelView::TypingStart(m),
            Msg::TypingStart(TypingStartMsg::ScrollMax(max)),
        ) => ModelView::TypingStart(TypingStartView { scroll_max: max, ..m }),
        (ModelView::Typing(m), Msg::Typing(TypingMsg::KeyInput(input))) => key_step(m, input, now),
        (ModelView::Typing(m), Msg::Typing(TypingMsg::Pause)) => ModelView::Pause(m),
        (ModelView::Typing(m), Msg::Typing(TypingMsg::ScrollTo(scroll, max))) => ModelView::Typing(
            TypingView { scroll: TypingScroll { last_update: now, scroll, max }, ..m },
        ),
        (ModelView::Pause(m), Msg::Pause(PauseMsg::Resume)) => ModelView::Typing(
            with_new_session(m),
        ),
        (ModelView::Pause(m), Msg::Pause(PauseMsg::Cancel)) => ModelView::Result(m),
        (ModelView::Result(m), Msg::Result(ResultMsg::BackToMenu)) => ModelView::Menu(
            menu_of(m.available_contents, m.layout),
        ),
        (ModelView::Result(m), Msg::Result(ResultMsg::Retry)) => ModelView::TypingStart(
            TypingStartView {
                content: m.content,
                available_contents: m.available_contents,
                layout: m.layout,
                scroll_max: 0,
            },
        ),
        (m, _) => m,
    }
}

/// A message can be applied to a state: an attempt that is given a keystroke
/// is fit to take one, and a menu that is asked to start has its cursor on a
/// content.
pub open spec fn can_update(model: Model, msg: Msg) -> bool {
    match (model, msg) {
        (Model::Typing(m), Msg::Typing(TypingMsg::KeyInput(_))) => m@.ready(),
        (Model::Menu(m), Msg::Menu(MenuMsg::Start)) => m.selecting < m.available_contents@.len(),
        _ => true,
    }
}

/// Parses a source text and adds its content to the menu.
pub fn add_content(menu: MenuModel, source: &str) -> (next: MenuModel)
    ensures
        next@ == with_content(menu@, source@),
{
    let content = parse_problem(source);
    let ghost before = contents_view(menu.available_contents@);
    let mut contents = menu.available_contents;
    contents.push(content);
    assert(contents_view(contents@) =~= before.push(content@));
    MenuModel { available_contents: contents, ..menu }
}

/// Whether a message can be applied to a state.
pub fn can_apply(model: &Model, msg: &Msg) -> (fit: bool)
    ensures
        fit == can_update(*model, *msg),
{
    match (model, msg) {
        (Model::Typing(m), Msg::Typing(TypingMsg::KeyInput(_))) => m.is_ready(),
        (Model::Menu(m), Msg::Menu(MenuMsg::Start)) => m.selecting < m.available_contents.len(),
        _ => true,
    }
}

/// The state that follows `model` on `msg` at the time `current_time`, in
/// milliseconds.
pub fn update_at(model: Model, msg: Msg, current_time: u64) -> (next: Model)
    requires
        can_update(model, msg),
    ensures
        next@ == update_spec(model@, msg, current_time),
        model.wf() ==> next.wf(),
{
    match (model, msg) {
        (Model::Menu(menu), Msg::Menu(menu_msg)) => {
            match menu_msg {
                MenuMsg::MoveCursor(index) => Model::Menu(MenuModel { selecting: index, ..menu }),
                MenuMsg::Start => {
                    let content = copy_content(&menu.available_contents[menu.selecting]);
                    Model::TypingStart(
                        TypingStartModel {
                            content,
                            available_contents: menu.available_contents,
                            layout: menu.layout,
                            scroll_max: 0,
                        },
                    )
                },
                MenuMsg::AddContent(file_content) => Model::Menu(
                    add_content(menu, file_content.as_str()),
                ),
            }
        },
        (Model::TypingStart(start), Msg::TypingStart(start_msg)) => {
            match start_msg {
                TypingStartMsg::StartTyping => {
                    if is_typable(&start.content) {
                        let typing_correctness = fresh_tracker(&start.content);
                        let mut user_input: Vec<TypingSession> = Vec::new();
                        user_input.push(TypingSession { line: 0, inputs: Vec::new() });
                        let typing = TypingModel {
                            content: start.content,
                            typing_correctness,
                            user_input,
                            status: TypingStatus {
                                line: 0,
                                segment: 0,
                                char_: 0,
                                unconfirmed: Vec::new(),
                                last_wrong_keydown: None,
                            },
                            available_contents: start.available_contents,
                            layout: start.layout,
                            keyboard_remapping: KeyboardRemapping { mapping: HashMap::new() },
                            scroll: TypingScroll {
                                last_update: current_time,
                                scroll: start.scroll_max,
                                max: start.scroll_max,
                            },
                        };
                        assert(typing@.user_input =~= attempt_of(start@, current_time).user_input);
                        Model::Typing(typing)
                    } else {
                        Model::TypingStart(start)
                    }
                },
                TypingStartMsg::Cancel => {
                    let menu = MenuModel {
                        available_contents: start.available_contents,
                        selecting: 0,
                        layout: start.layout,
                        error_messages: Vec::new(),
                    };
                    assert(menu@.error_messages =~= Seq::empty());
                    Model::Menu(menu)
                },
                TypingStartMsg::ScrollMax(max) => Model::TypingStart(
                    TypingStartModel { scroll_max: max, ..start },
                ),
            }
        },
        (Model::Typing(typing), Msg::Typing(typing_msg)) => {
            match typing_msg {
                TypingMsg::KeyInput(input) => key_input_at(typing, input, current_time),
                TypingMsg::Pause => Model::Pause(PauseModel { typing_model: typing }),
                TypingMsg::ScrollTo(scroll, max) => Model::Typing(
                    TypingModel {
                        scroll: TypingScroll { last_update: current_time, scroll, max },
                        ..typing
                    },
                ),
            }
        },
        (Model::Pause(pause), Msg::Pause(pause_msg)) => {
            match pause_msg {
                PauseMsg::Resume => Model::Typing(start_new_session(pause.typing_model)),
                PauseMsg::Cancel => Model::Result(ResultModel { typing_model: pause.typing_model }),
            }
        },
        (Model::Result(result), Msg::Result(result_msg)) => {
            match result_msg {
                ResultMsg::BackToMenu => {
                    let menu = MenuModel {
                        available_contents: result.typing_model.available_contents,
                        selecting: 0,
                        layout: result.typing_model.layout,
                        error_messages: Vec::new(),
                    };
                    assert(menu@.error_messages =~= Seq::empty());
                    Model::Menu(menu)
                },
                ResultMsg::Retry => Model::TypingStart(
                    TypingStartModel {
                        content: result.typing_model.content,
                        available_contents: result.typing_model.available_contents,
                        layout: result.typing_model.layout,
                        scroll_max: 0,
                    },
                ),
            }
        },
        (model, _) => model,
    }
}

/// The state that follows `model` on `msg` at the time that the clock gives:
/// what [`update_at`] does at that time.
pub fn update(model: Model, msg: Msg) -> (next: Model)
    requires
        can_update(model, msg),
    ensures
        exists|current_time: u64| next@ == update_spec(model@, msg, current_time),
        model.wf() ==> next.wf(),
{
    let current_time = now();
    update_at(model, msg, current_time)
}

/// Only an attempt in progress takes keystrokes: in every other state, a
/// finished attempt among them, a keystroke changes nothing.
pub proof fn lemma_only_attempts_take_keys(model: ModelView, input: char, now: u64)
    requires
        !(model is Typing),
    ensures
        update_spec(model, Msg::Typing(TypingMsg::KeyInput(input)), now) == model,
{
}

/// Resuming after a pause changes nothing but the log, which gets a new
/// session.
pub proof fn lemma_pause_keeps_the_attempt(m: TypingView, now: u64, later: u64)
    ensures
        update_spec(
            update_spec(ModelView::Typing(m), Msg::Typing(TypingMsg::Pause), now),
            Msg::Pause(PauseMsg::Resume),
            later,
        ) == ModelView::Typing(with_new_session(m)),
{
}

} // verus!
