use std::collections::HashMap;
use typing_game::layout::{layout_from_json, LayoutError};
use typing_game::model::{
    ErrorMsg, KeyboardRemapping, MenuModel, Model, PauseModel, Ratio, ResultModel, TextConvert,
    TextOrientation, TypingCorrectnessChar, TypingCorrectnessSegment, TypingInput, TypingMetrics,
    TypingModel, TypingScroll, TypingSession, TypingStartModel, TypingStatus,
};
use typing_game::msg::{MenuMsg, Msg, PauseMsg, ResultMsg, TypingMsg, TypingStartMsg};
use typing_game::parser::{parse_line, parse_problem, Content, Line};
use typing_game::textrender::{is_japanese, is_japanese_hiragana, is_japanese_kana, CharOrientation};
use typing_game::timestamp::{millis_of, now};
use typing_game::typing::fresh_tracker;
use typing_game::events::{initial_menu, keyboard_message};
use typing_game::render::{is_renderable, RenderData};
use typing_game::update::{
    add_content, add_contents, can_apply, event_receive_keyboard, fetch_render_data, init_model,
    typing_scroll, update, update_at,
};

fn table() -> TextConvert {
    TextConvert {
        mapping: vec![
            ("a".to_string(), vec!["a".to_string()]),
            ("b".to_string(), vec!["b".to_string()]),
            ("し".to_string(), vec!["si".to_string(), "shi".to_string()]),
        ],
    }
}

fn contents() -> Vec<Content> {
    vec![parse_problem("#title one\nab\nb"), parse_problem("#title two\nし"), parse_problem("#title none\n")]
}

fn menu() -> MenuModel {
    MenuModel {
        available_contents: contents(),
        selecting: 0,
        layout: table(),
        error_messages: vec![ErrorMsg { message: "old".to_string(), timestamp: 3 }],
    }
}

fn start_model(index: usize) -> TypingStartModel {
    TypingStartModel {
        content: contents()[index].clone(),
        available_contents: contents(),
        layout: table(),
        scroll_max: 0,
    }
}

fn typing_model() -> TypingModel {
    let content = contents()[0].clone();
    TypingModel {
        typing_correctness: fresh_tracker(&content),
        content,
        user_input: vec![TypingSession { line: 0, inputs: vec![] }],
        status: TypingStatus {
            line: 0,
            segment: 0,
            char_: 0,
            unconfirmed: vec![],
            last_wrong_keydown: None,
        },
        available_contents: contents(),
        layout: table(),
        keyboard_remapping: KeyboardRemapping { mapping: HashMap::new() },
        scroll: TypingScroll { last_update: 77, scroll: -30, max: -100 },
    }
}

fn played() -> TypingModel {
    match update_at(Model::Typing(typing_model()), Msg::Typing(TypingMsg::KeyInput('a')), 500) {
        Model::Typing(m) => m,
        other => panic!("the attempt should go on, but the state is {:?}", other),
    }
}

#[test]
fn move_cursor_sets_the_selection() {
    let next = update_at(Model::Menu(menu()), Msg::Menu(MenuMsg::MoveCursor(2)), 0);
    assert_eq!(next, Model::Menu(MenuModel { selecting: 2, ..menu() }));
}

#[test]
fn start_chooses_the_content_under_the_cursor() {
    let chosen = Model::Menu(MenuModel { selecting: 1, ..menu() });
    let next = update_at(chosen, Msg::Menu(MenuMsg::Start), 0);
    assert_eq!(next, Model::TypingStart(start_model(1)));
}

#[test]
fn add_content_parses_and_appends() {
    let source = "#title three\n(色/いろ)は".to_string();
    let next = update_at(Model::Menu(menu()), Msg::Menu(MenuMsg::AddContent(source.clone())), 0);
    let mut expected = menu();
    expected.available_contents.push(parse_problem(&source));
    assert_eq!(next, Model::Menu(expected));
}

#[test]
fn start_typing_makes_a_fresh_attempt() {
    let mut waiting = start_model(0);
    waiting.scroll_max = -250;
    let next = update_at(Model::TypingStart(waiting), Msg::TypingStart(TypingStartMsg::StartTyping), 1234);
    let mut expected = typing_model();
    expected.scroll = TypingScroll { last_update: 1234, scroll: -250, max: -250 };
    assert_eq!(next, Model::Typing(expected));
}

#[test]
fn start_typing_is_refused_for_a_content_that_cannot_be_typed() {
    let waiting = Model::TypingStart(start_model(2));
    let next = update_at(waiting.clone(), Msg::TypingStart(TypingStartMsg::StartTyping), 5);
    assert_eq!(next, waiting);
    let mut unread = start_model(0);
    unread.content = parse_problem("#title t\nab(漢)");
    let waiting = Model::TypingStart(unread);
    assert_eq!(update_at(waiting.clone(), Msg::TypingStart(TypingStartMsg::StartTyping), 5), waiting);
}

#[test]
fn cancel_before_the_start_goes_back_to_the_menu() {
    let next = update_at(Model::TypingStart(start_model(1)), Msg::TypingStart(TypingStartMsg::Cancel), 0);
    assert_eq!(next, Model::Menu(MenuModel { error_messages: vec![], ..menu() }));
}

#[test]
fn scroll_max_is_kept_for_the_start() {
    let next = update_at(Model::TypingStart(start_model(1)), Msg::TypingStart(TypingStartMsg::ScrollMax(-42)), 0);
    assert_eq!(next, Model::TypingStart(TypingStartModel { scroll_max: -42, ..start_model(1) }));
}

#[test]
fn key_input_message_applies_the_keystroke() {
    let m = played();
    assert_eq!((m.status.line, m.status.segment, m.status.char_), (0, 0, 1));
    assert_eq!(
        m.user_input,
        vec![TypingSession {
            line: 0,
            inputs: vec![TypingInput { key: 'a', timestamp: 500, is_correct: true }],
        }]
    );
    assert_eq!(m.typing_correctness.lines[0].segments[0].chars[0], TypingCorrectnessChar::Correct);
}

#[test]
fn last_keystroke_ends_the_attempt() {
    let mut state = Model::Typing(typing_model());
    for (key, at) in [('a', 0), ('b', 100)] {
        state = update_at(state, Msg::Typing(TypingMsg::KeyInput(key)), at);
        assert!(matches!(state, Model::Typing(_)));
    }
    state = update_at(state, Msg::Typing(TypingMsg::KeyInput('b')), 200);
    match state {
        Model::Result(result) => assert_eq!(result.typing_model.status.line, 2),
        other => panic!("the attempt should have ended, but the state is {:?}", other),
    }
}

#[test]
fn pause_and_resume_keep_the_attempt_and_open_a_session() {
    let paused = update_at(Model::Typing(played()), Msg::Typing(TypingMsg::Pause), 0);
    assert_eq!(paused, Model::Pause(PauseModel { typing_model: played() }));
    let resumed = update_at(paused, Msg::Pause(PauseMsg::Resume), 0);
    let mut expected = played();
    expected.user_input.push(TypingSession { line: 0, inputs: vec![] });
    assert_eq!(resumed, Model::Typing(expected));
}

#[test]
fn cancel_during_a_pause_ends_the_attempt() {
    let paused = Model::Pause(PauseModel { typing_model: played() });
    let next = update_at(paused, Msg::Pause(PauseMsg::Cancel), 0);
    assert_eq!(next, Model::Result(ResultModel { typing_model: played() }));
}

#[test]
fn scroll_to_replaces_the_scroll_state() {
    let next = update_at(Model::Typing(played()), Msg::Typing(TypingMsg::ScrollTo(-12, -90)), 888);
    let mut expected = played();
    expected.scroll = TypingScroll { last_update: 888, scroll: -12, max: -90 };
    assert_eq!(next, Model::Typing(expected));
}

#[test]
fn result_goes_back_to_the_menu_or_to_a_new_start() {
    let result = Model::Result(ResultModel { typing_model: played() });
    let back = update_at(result.clone(), Msg::Result(ResultMsg::BackToMenu), 0);
    assert_eq!(back, Model::Menu(MenuModel { error_messages: vec![], ..menu() }));
    let retry = update_at(result, Msg::Result(ResultMsg::Retry), 0);
    assert_eq!(retry, Model::TypingStart(start_model(0)));
}

#[test]
fn message_for_another_state_changes_nothing() {
    let states = vec![
        Model::Empty,
        Model::Menu(menu()),
        Model::TypingStart(start_model(0)),
        Model::Typing(played()),
        Model::Pause(PauseModel { typing_model: played() }),
        Model::Result(ResultModel { typing_model: played() }),
    ];
    for (i, state) in states.iter().enumerate() {
        let foreign = vec![
            Msg::Menu(MenuMsg::MoveCursor(1)),
            Msg::TypingStart(TypingStartMsg::Cancel),
            Msg::Typing(TypingMsg::Pause),
            Msg::Pause(PauseMsg::Cancel),
            Msg::Result(ResultMsg::Retry),
        ];
        for (j, msg) in foreign.into_iter().enumerate() {
            if i == j + 1 {
                continue;
            }
            assert_eq!(update_at(state.clone(), msg, 0), *state);
        }
    }
}

#[test]
fn update_reads_the_clock() {
    let before = now();
    let next = update(Model::Typing(played()), Msg::Typing(TypingMsg::ScrollTo(1, 2)));
    let after = now();
    match next {
        Model::Typing(m) => {
            assert_eq!((m.scroll.scroll, m.scroll.max), (1, 2));
            assert!(before <= m.scroll.last_update && m.scroll.last_update <= after);
        }
        other => panic!("the attempt should go on, but the state is {:?}", other),
    }
}

#[test]
fn keys_of_the_menu() {
    let state = Model::Menu(MenuModel { selecting: 1, ..menu() });
    let vertical = TextOrientation::Vertical;
    let horizontal = TextOrientation::Horizontal;
    assert_eq!(keyboard_message(&state, "ArrowLeft", vertical), Some(Msg::Menu(MenuMsg::MoveCursor(2))));
    assert_eq!(keyboard_message(&state, "ArrowDown", horizontal), Some(Msg::Menu(MenuMsg::MoveCursor(2))));
    assert_eq!(keyboard_message(&state, "ArrowRight", vertical), Some(Msg::Menu(MenuMsg::MoveCursor(0))));
    assert_eq!(keyboard_message(&state, "ArrowUp", horizontal), Some(Msg::Menu(MenuMsg::MoveCursor(0))));
    assert_eq!(keyboard_message(&state, "ArrowLeft", horizontal), None);
    assert_eq!(keyboard_message(&state, "ArrowDown", vertical), None);
    assert_eq!(keyboard_message(&state, "ArrowRight", horizontal), None);
    assert_eq!(keyboard_message(&state, "ArrowUp", vertical), None);
    assert_eq!(keyboard_message(&state, " ", vertical), Some(Msg::Menu(MenuMsg::Start)));
    assert_eq!(keyboard_message(&state, "Enter", horizontal), Some(Msg::Menu(MenuMsg::Start)));
    assert_eq!(keyboard_message(&state, "a", vertical), None);
    let last = Model::Menu(MenuModel { selecting: 2, ..menu() });
    assert_eq!(keyboard_message(&last, "ArrowLeft", vertical), None);
    let first = Model::Menu(menu());
    assert_eq!(keyboard_message(&first, "ArrowRight", vertical), None);
    let empty = Model::Menu(MenuModel { available_contents: vec![], ..menu() });
    assert_eq!(keyboard_message(&empty, "ArrowLeft", vertical), None);
}

#[test]
fn keys_of_the_other_states() {
    let o = TextOrientation::Vertical;
    let waiting = Model::TypingStart(start_model(0));
    assert_eq!(keyboard_message(&waiting, " ", o), Some(Msg::TypingStart(TypingStartMsg::StartTyping)));
    assert_eq!(keyboard_message(&waiting, "Escape", o), Some(Msg::TypingStart(TypingStartMsg::Cancel)));
    assert_eq!(keyboard_message(&waiting, "Enter", o), None);
    let typing = Model::Typing(played());
    assert_eq!(keyboard_message(&typing, "Escape", o), Some(Msg::Typing(TypingMsg::Pause)));
    assert_eq!(keyboard_message(&typing, "a", o), Some(Msg::Typing(TypingMsg::KeyInput('a'))));
    assert_eq!(keyboard_message(&typing, " ", o), Some(Msg::Typing(TypingMsg::KeyInput(' '))));
    assert_eq!(keyboard_message(&typing, "し", o), Some(Msg::Typing(TypingMsg::KeyInput('し'))));
    assert_eq!(keyboard_message(&typing, "Shift", o), None);
    assert_eq!(keyboard_message(&typing, "", o), None);
    let paused = Model::Pause(PauseModel { typing_model: played() });
    assert_eq!(keyboard_message(&paused, " ", o), Some(Msg::Pause(PauseMsg::Resume)));
    assert_eq!(keyboard_message(&paused, "Escape", o), Some(Msg::Pause(PauseMsg::Cancel)));
    assert_eq!(keyboard_message(&paused, "a", o), None);
    let result = Model::Result(ResultModel { typing_model: played() });
    assert_eq!(keyboard_message(&result, " ", o), Some(Msg::Result(ResultMsg::Retry)));
    assert_eq!(keyboard_message(&result, "Escape", o), Some(Msg::Result(ResultMsg::BackToMenu)));
    assert_eq!(keyboard_message(&result, "Enter", o), None);
    assert_eq!(keyboard_message(&Model::Empty, " ", o), None);
}

#[test]
fn keyboard_events_move_the_game() {
    let o = TextOrientation::Horizontal;
    let state = event_receive_keyboard(Model::Menu(menu()), "ArrowDown", o);
    assert_eq!(state, Model::Menu(MenuModel { selecting: 1, ..menu() }));
    let state = event_receive_keyboard(state, "F5", o);
    assert_eq!(state, Model::Menu(MenuModel { selecting: 1, ..menu() }));
    let state = event_receive_keyboard(state, "Enter", o);
    assert_eq!(state, Model::TypingStart(start_model(1)));
    let state = event_receive_keyboard(state, " ", o);
    assert!(matches!(state, Model::Typing(_)));
    let state = event_receive_keyboard(state, "s", o);
    let state = event_receive_keyboard(state, "Escape", o);
    assert!(matches!(state, Model::Pause(_)));
    let state = event_receive_keyboard(state, " ", o);
    let state = event_receive_keyboard(state, "i", o);
    match &state {
        Model::Result(result) => {
            let log = &result.typing_model.user_input;
            assert_eq!(log.len(), 3);
            assert_eq!(log[0].inputs.len(), 1);
            assert_eq!(log[1].inputs.len(), 1);
            assert_eq!(log[2], TypingSession { line: 1, inputs: vec![] });
        }
        other => panic!("the attempt should have ended, but the state is {:?}", other),
    }
    let state = event_receive_keyboard(state, "Escape", o);
    assert_eq!(state, Model::Menu(MenuModel { error_messages: vec![], ..menu() }));
}

#[test]
fn typing_scroll_sets_position_or_far_end() {
    match typing_scroll(Model::Typing(played()), -15, -60) {
        Model::Typing(m) => assert_eq!((m.scroll.scroll, m.scroll.max), (-15, -60)),
        other => panic!("the attempt should go on, but the state is {:?}", other),
    }
    assert_eq!(
        typing_scroll(Model::TypingStart(start_model(0)), -15, -60),
        Model::TypingStart(TypingStartModel { scroll_max: -60, ..start_model(0) })
    );
    assert_eq!(typing_scroll(Model::Menu(menu()), -15, -60), Model::Menu(menu()));
}

#[test]
fn add_contents_reaches_the_menu_alone() {
    let source = "#title new\nabc".to_string();
    let mut expected = menu();
    expected.available_contents.push(parse_problem(&source));
    assert_eq!(add_contents(Model::Menu(menu()), source.clone()), Model::Menu(expected));
    let waiting = Model::TypingStart(start_model(0));
    assert_eq!(add_contents(waiting.clone(), source), waiting);
}

#[test]
fn init_model_builds_the_menu() {
    let samples = vec!["#title one\nab\nb".to_string(), "#title two\nし".to_string()];
    let made = init_model("{\"し\": [\"si\", \"shi\"], \"a\": [\"a\"]}", &samples);
    assert_eq!(
        made,
        Ok(Model::Menu(MenuModel {
            available_contents: vec![contents()[0].clone(), contents()[1].clone()],
            selecting: 0,
            layout: TextConvert {
                mapping: vec![
                    ("a".to_string(), vec!["a".to_string()]),
                    ("し".to_string(), vec!["si".to_string(), "shi".to_string()]),
                ],
            },
            error_messages: vec![],
        }))
    );
    assert_eq!(init_model("not json", &samples), Err(LayoutError::Syntax));
}

#[test]
fn layout_entries_come_in_the_order_of_their_keys() {
    let loaded = layout_from_json("{\"き\": [\"ki\"], \"b\": [\"b\"], \"きゃ\": [\"kya\", \"kilya\"], \"a\": []}");
    assert_eq!(
        loaded,
        Ok(TextConvert {
            mapping: vec![
                ("a".to_string(), vec![]),
                ("b".to_string(), vec!["b".to_string()]),
                ("き".to_string(), vec!["ki".to_string()]),
                ("きゃ".to_string(), vec!["kya".to_string(), "kilya".to_string()]),
            ],
        })
    );
    assert_eq!(layout_from_json("{}"), Ok(TextConvert { mapping: vec![] }));
}

#[test]
fn layout_errors_are_told_apart() {
    assert_eq!(layout_from_json("{\"a\": [\"a\"],}"), Err(LayoutError::Syntax));
    assert_eq!(layout_from_json("{\"a\": [\"a\"]} x"), Err(LayoutError::Syntax));
    assert_eq!(layout_from_json("{\"a\": \"a\"}"), Err(LayoutError::Data));
    assert_eq!(layout_from_json("[\"a\"]"), Err(LayoutError::Data));
    assert_eq!(layout_from_json("{\"a\": [1]}"), Err(LayoutError::Data));
    assert_eq!(layout_from_json("{\"a\": [\"a\""), Err(LayoutError::Eof));
    assert_eq!(layout_from_json(""), Err(LayoutError::Eof));
}

#[test]
fn loaded_layout_drives_the_matcher() {
    let layout = layout_from_json("{\"し\": [\"si\", \"shi\"]}").unwrap();
    let mut m = typing_model();
    m.content = parse_problem("#title t\nし");
    m.typing_correctness = fresh_tracker(&m.content);
    m.layout = layout;
    let mut state = Model::Typing(m);
    for key in ['s', 'h'] {
        state = update_at(state, Msg::Typing(TypingMsg::KeyInput(key)), 0);
    }
    assert!(matches!(state, Model::Typing(_)));
    assert!(matches!(update_at(state, Msg::Typing(TypingMsg::KeyInput('i')), 0), Model::Result(_)));
}

#[test]
fn render_data_of_each_state() {
    assert_eq!(fetch_render_data(&Model::Empty), RenderData::Other);
    assert_eq!(
        fetch_render_data(&Model::Menu(MenuModel { selecting: 1, ..menu() })),
        RenderData::Menu {
            selecting: 1,
            titles: vec![
                Line { segments: parse_line("one") },
                Line { segments: parse_line("two") },
                Line { segments: parse_line("none") },
            ],
        }
    );
    assert_eq!(
        fetch_render_data(&Model::TypingStart(start_model(1))),
        RenderData::TypingStart { title: Line { segments: parse_line("two") } }
    );
    let metrics = TypingMetrics {
        miss_count: 0,
        type_count: 1,
        total_time: 0,
        accuracy: Ratio { numerator: 1, denominator: 1 },
        speed: Ratio { numerator: 0, denominator: 1 },
    };
    assert_eq!(
        fetch_render_data(&Model::Typing(played())),
        RenderData::Typing {
            title: Line { segments: parse_line("one") },
            segments: parse_line("ab"),
            correctness: vec![TypingCorrectnessSegment {
                chars: vec![TypingCorrectnessChar::Correct, TypingCorrectnessChar::Pending],
            }],
            status: TypingStatus {
                line: 0,
                segment: 0,
                char_: 1,
                unconfirmed: vec![],
                last_wrong_keydown: None,
            },
            scroll: -30,
            metrics,
        }
    );
    assert_eq!(
        fetch_render_data(&Model::Pause(PauseModel { typing_model: played() })),
        RenderData::Pause { title: Line { segments: parse_line("one") }, metrics }
    );
    assert_eq!(
        fetch_render_data(&Model::Result(ResultModel { typing_model: played() })),
        RenderData::Result { title: Line { segments: parse_line("one") }, metrics }
    );
}

#[test]
fn clock_readings_become_milliseconds() {
    assert_eq!(millis_of(Some(0)), 0);
    assert_eq!(millis_of(Some(1_700_000_000_123)), 1_700_000_000_123);
    assert_eq!(millis_of(Some(u64::MAX as u128)), u64::MAX);
    assert_eq!(millis_of(Some(u64::MAX as u128 + 1)), u64::MAX);
    assert_eq!(millis_of(None), 0);
}

#[test]
fn clock_does_not_run_back_between_two_readings() {
    let first = now();
    let second = now();
    assert!(first > 1_600_000_000_000);
    assert!(second >= first);
    assert!(second - first < 60_000);
}

#[test]
fn scripts_are_told_apart() {
    for c in ['あ', 'ん', 'ゟ'] {
        assert!(is_japanese_hiragana(c) && is_japanese_kana(c) && is_japanese(c));
    }
    for c in ['ア', 'ー', 'ヿ'] {
        assert!(!is_japanese_hiragana(c) && is_japanese_kana(c) && is_japanese(c));
    }
    for c in ['色', '丨', '、', '\u{3000}', '︰', '︐', '㐀', '豈', '𠀀'] {
        assert!(!is_japanese_hiragana(c) && !is_japanese_kana(c) && is_japanese(c));
    }
    for c in ['a', ' ', '1', 'é', '\u{2fff}', '\u{a000}', '\u{40000}', '\u{fe1a}', '\u{fe50}'] {
        assert!(!is_japanese_hiragana(c) && !is_japanese_kana(c) && !is_japanese(c));
    }
    assert_ne!(CharOrientation::Vertical, CharOrientation::Horizontal);
}

#[test]
fn initial_menu_parses_the_samples() {
    let samples = vec!["#title two\nし".to_string()];
    assert_eq!(
        initial_menu(table(), &samples),
        Model::Menu(MenuModel {
            available_contents: vec![contents()[1].clone()],
            selecting: 0,
            layout: table(),
            error_messages: vec![],
        })
    );
}

#[test]
fn messages_that_can_be_applied_are_recognised() {
    let start = Msg::Menu(MenuMsg::Start);
    assert!(can_apply(&Model::Menu(menu()), &start));
    assert!(!can_apply(&Model::Menu(MenuModel { selecting: 3, ..menu() }), &start));
    assert!(can_apply(&Model::Menu(MenuModel { selecting: 3, ..menu() }), &Msg::Menu(MenuMsg::MoveCursor(0))));
    let key = Msg::Typing(TypingMsg::KeyInput('a'));
    assert!(can_apply(&Model::Typing(played()), &key));
    let mut astray = played();
    astray.status.char_ = 2;
    assert!(!astray.is_wf());
    assert!(!can_apply(&Model::Typing(astray.clone()), &key));
    assert!(can_apply(&Model::Typing(astray.clone()), &Msg::Typing(TypingMsg::Pause)));
    assert!(can_apply(&Model::Pause(PauseModel { typing_model: astray.clone() }), &Msg::Pause(PauseMsg::Resume)));
    assert!(!Model::Pause(PauseModel { typing_model: astray.clone() }).is_wf());
    assert!(can_apply(&Model::Result(ResultModel { typing_model: astray.clone() }), &Msg::Result(ResultMsg::Retry)));
    let mut untracked = played();
    untracked.typing_correctness.lines[1].segments[0].chars.clear();
    assert!(!untracked.is_wf());
    let mut negative = played();
    negative.status.segment = -1;
    assert!(!negative.is_wf());
    assert!(played().is_wf());
}

#[test]
fn states_that_can_be_rendered_are_recognised() {
    assert!(is_renderable(&Model::Empty));
    assert!(is_renderable(&Model::Menu(menu())));
    assert!(is_renderable(&Model::Typing(played())));
    let mut astray = played();
    astray.status.char_ = 9;
    assert!(is_renderable(&Model::Typing(astray.clone())));
    astray.status.line = 9;
    assert!(!is_renderable(&Model::Typing(astray.clone())));
    assert!(is_renderable(&Model::Result(ResultModel { typing_model: astray })));
}

#[test]
fn add_content_keeps_the_rest_of_the_menu() {
    let before = MenuModel { selecting: 2, ..menu() };
    let after = add_content(before.clone(), "#title four\n(四/し)");
    assert_eq!(after.available_contents.len(), 4);
    assert_eq!(after.available_contents[..3], before.available_contents[..]);
    assert_eq!(after.available_contents[3], parse_problem("#title four\n(四/し)"));
    assert_eq!(after.selecting, 2);
    assert_eq!(after.layout, before.layout);
    assert_eq!(after.error_messages, before.error_messages);
}
