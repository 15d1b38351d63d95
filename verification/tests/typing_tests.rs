use std::collections::HashMap;
use typing_game::model::{
    KeyboardRemapping, Model, Ratio, TextConvert, TypingCorrectnessChar, TypingCorrectnessContent,
    TypingInput, TypingMetrics, TypingModel, TypingScroll, TypingSession, TypingStatus,
};
use typing_game::parser::{parse_problem, Content, Line, Segment};
use typing_game::matcher::find_hit;
use typing_game::metrics::log_is_countable;
use typing_game::typing::{
    calculate_line_metrics, calculate_total_metrics, create_typing_correctness_model,
    fresh_tracker, is_typable, key_input, key_input_at, start_new_session, SESSION_GAP_MS,
};

use TypingCorrectnessChar::{Correct, Incorrect, Pending};

fn layout(entries: &[(&str, &[&str])]) -> TextConvert {
    TextConvert {
        mapping: entries
            .iter()
            .map(|(key, spellings)| {
                (key.to_string(), spellings.iter().map(|s| s.to_string()).collect())
            })
            .collect(),
    }
}

fn romaji() -> TextConvert {
    layout(&[
        ("a", &["a"]),
        ("b", &["b"]),
        ("c", &["c"]),
        ("し", &["si", "shi"]),
        ("きゃ", &["kya"]),
        ("き", &["ki"]),
        ("ゃ", &["xya", "lya"]),
        ("ん", &["nn"]),
    ])
}

fn attempt(source: &str, table: TextConvert) -> TypingModel {
    let content = parse_problem(source);
    assert!(is_typable(&content));
    TypingModel {
        typing_correctness: fresh_tracker(&content),
        content,
        user_input: vec![TypingSession { line: 0, inputs: vec![] }],
        status: TypingStatus {
            line: 0,
            segment: 0,
            char_: 0,
            unconfirmed: vec![],
            last_wrong_keydown: None,
        },
        available_contents: vec![],
        layout: table,
        keyboard_remapping: KeyboardRemapping { mapping: HashMap::new() },
        scroll: TypingScroll { last_update: 0, scroll: 5, max: 40 },
    }
}

fn typing(model: Model) -> TypingModel {
    match model {
        Model::Typing(m) => m,
        other => panic!("the attempt should go on, but the state is {:?}", other),
    }
}

fn finished(model: Model) -> TypingModel {
    match model {
        Model::Result(r) => r.typing_model,
        other => panic!("the attempt should have ended, but the state is {:?}", other),
    }
}

fn cells(tracker: &TypingCorrectnessContent, line: usize, segment: usize) -> Vec<TypingCorrectnessChar> {
    tracker.lines[line].segments[segment].chars.clone()
}

fn cursor(m: &TypingModel) -> (i32, i32, i32) {
    (m.status.line, m.status.segment, m.status.char_)
}

fn input(key: char, timestamp: u64, is_correct: bool) -> TypingInput {
    TypingInput { key, timestamp, is_correct }
}

fn log(sessions: Vec<TypingSession>) -> TypingModel {
    let mut m = attempt("#title t\na", romaji());
    m.user_input = sessions;
    m
}

#[test]
fn fresh_tracker_is_pending_and_sized_by_target_text() {
    let content = parse_problem("#title t\n(色/いろ)は(匂/にお)\nabc\n(空/)x");
    let tracker = create_typing_correctness_model(content.clone());
    assert_eq!(tracker.lines.len(), 3);
    assert_eq!(tracker.lines[0].segments.len(), 3);
    assert_eq!(cells(&tracker, 0, 0), vec![Pending, Pending]);
    assert_eq!(cells(&tracker, 0, 1), vec![Pending]);
    assert_eq!(cells(&tracker, 0, 2), vec![Pending, Pending]);
    assert_eq!(cells(&tracker, 1, 0), vec![Pending, Pending, Pending]);
    assert_eq!(cells(&tracker, 2, 0), Vec::<TypingCorrectnessChar>::new());
    assert_eq!(cells(&tracker, 2, 1), vec![Pending]);
    assert_eq!(create_typing_correctness_model(content.clone()), tracker);
    assert_eq!(fresh_tracker(&content), tracker);
}

#[test]
fn fresh_tracker_of_empty_content_is_empty() {
    let content = Content { title: Line { segments: vec![] }, lines: vec![] };
    assert!(create_typing_correctness_model(content).lines.is_empty());
}

#[test]
fn typable_needs_lines_segments_and_target_text() {
    assert!(is_typable(&parse_problem("#title t\nabc")));
    assert!(!is_typable(&parse_problem("#title t\n")));
    assert!(!is_typable(&parse_problem("")));
    assert!(!is_typable(&parse_problem("#title t\nabc\n/")));
    assert!(!is_typable(&parse_problem("#title t\n(base)")));
    assert!(!is_typable(&parse_problem("#title t\nabc(漢/)")));
    assert!(is_typable(&Content {
        title: Line { segments: vec![] },
        lines: vec![Line { segments: vec![Segment::Plain { text: "a".to_string() }] }],
    }));
}

#[test]
fn single_key_completes_the_content() {
    let m = attempt("#title t\na", layout(&[("a", &["a"])]));
    let done = finished(key_input_at(m, 'a', 100));
    assert_eq!(cells(&done.typing_correctness, 0, 0), vec![Correct]);
    assert_eq!(cursor(&done), (1, 0, 0));
    assert!(done.status.unconfirmed.is_empty());
    assert_eq!(done.status.last_wrong_keydown, None);
    let metrics = calculate_total_metrics(&done);
    assert_eq!(metrics.type_count, 1);
    assert_eq!(metrics.miss_count, 0);
    assert_eq!(metrics.total_time, 0);
    assert_eq!(metrics.accuracy, Ratio { numerator: 1, denominator: 1 });
    assert_eq!(metrics.accuracy.numerator as f64 / metrics.accuracy.denominator as f64, 1.0);
    assert_eq!(metrics.speed, Ratio { numerator: 0, denominator: 1 });
}

#[test]
fn short_spelling_of_an_ambiguous_key_completes() {
    let table = layout(&[("し", &["si", "shi"])]);
    let m = attempt("#title t\nしa", table);
    let m = typing(key_input_at(m, 's', 0));
    assert_eq!(m.status.unconfirmed, vec!['s']);
    assert_eq!(cursor(&m), (0, 0, 0));
    assert_eq!(cells(&m.typing_correctness, 0, 0), vec![Pending, Pending]);
    let m = typing(key_input_at(m, 'i', 10));
    assert!(m.status.unconfirmed.is_empty());
    assert_eq!(cursor(&m), (0, 0, 1));
    assert_eq!(cells(&m.typing_correctness, 0, 0), vec![Correct, Pending]);
}

#[test]
fn long_spelling_of_an_ambiguous_key_completes() {
    let table = layout(&[("し", &["si", "shi"])]);
    let m = attempt("#title t\nしa", table);
    let m = typing(key_input_at(m, 's', 0));
    let m = typing(key_input_at(m, 'h', 10));
    assert_eq!(m.status.unconfirmed, vec!['s', 'h']);
    assert_eq!(cursor(&m), (0, 0, 0));
    let m = typing(key_input_at(m, 'i', 20));
    assert!(m.status.unconfirmed.is_empty());
    assert_eq!(cursor(&m), (0, 0, 1));
    assert_eq!(cells(&m.typing_correctness, 0, 0), vec![Correct, Pending]);
    assert_eq!(m.user_input.len(), 1);
    assert!(m.user_input[0].inputs.iter().all(|i| i.is_correct));
}

#[test]
fn both_spellings_reach_the_same_state_but_for_the_log() {
    let table = layout(&[("し", &["si", "shi"])]);
    let mut short = attempt("#title t\nしa", table.clone());
    for key in ['s', 'i'] {
        short = typing(key_input_at(short, key, 0));
    }
    let mut long = attempt("#title t\nしa", table);
    for key in ['s', 'h', 'i'] {
        long = typing(key_input_at(long, key, 0));
    }
    assert_eq!(short.status, long.status);
    assert_eq!(short.typing_correctness, long.typing_correctness);
}

#[test]
fn wrong_key_marks_the_cell_and_moves_nothing() {
    let m = attempt("#title t\nab", romaji());
    let m = typing(key_input_at(m, 'x', 0));
    assert_eq!(cursor(&m), (0, 0, 0));
    assert_eq!(m.status.last_wrong_keydown, Some('x'));
    assert_eq!(cells(&m.typing_correctness, 0, 0), vec![Incorrect, Pending]);
    assert_eq!(m.user_input[0].inputs, vec![input('x', 0, false)]);
    let m = typing(key_input_at(m, 'a', 10));
    assert_eq!(cursor(&m), (0, 0, 1));
    assert_eq!(m.status.last_wrong_keydown, None);
    assert_eq!(cells(&m.typing_correctness, 0, 0), vec![Incorrect, Pending]);
}

#[test]
fn wrong_key_keeps_the_keys_typed_so_far() {
    let m = attempt("#title t\nしa", romaji());
    let m = typing(key_input_at(m, 's', 0));
    let m = typing(key_input_at(m, 'x', 10));
    assert_eq!(m.status.unconfirmed, vec!['s']);
    assert_eq!(m.status.last_wrong_keydown, Some('x'));
    assert_eq!(cells(&m.typing_correctness, 0, 0), vec![Incorrect, Pending]);
    let m = typing(key_input_at(m, 'i', 20));
    assert_eq!(cursor(&m), (0, 0, 1));
    assert_eq!(cells(&m.typing_correctness, 0, 0), vec![Incorrect, Pending]);
}

#[test]
fn span_of_a_long_key_is_marked_as_one() {
    let m = attempt("#title t\nきゃa", romaji());
    let mut m = typing(key_input_at(m, 'k', 0));
    for key in ['y', 'a'] {
        m = typing(key_input_at(m, key, 0));
    }
    assert_eq!(cursor(&m), (0, 0, 2));
    assert_eq!(cells(&m.typing_correctness, 0, 0), vec![Correct, Correct, Pending]);
}

#[test]
fn span_with_an_earlier_miss_is_incorrect_throughout() {
    let m = attempt("#title t\nきゃa", romaji());
    let mut m = typing(key_input_at(m, 'z', 0));
    assert_eq!(cells(&m.typing_correctness, 0, 0), vec![Incorrect, Pending, Pending]);
    for key in ['k', 'y', 'a'] {
        m = typing(key_input_at(m, key, 0));
    }
    assert_eq!(cells(&m.typing_correctness, 0, 0), vec![Incorrect, Incorrect, Pending]);
}

#[test]
fn first_entry_in_table_order_wins() {
    let long_first = layout(&[("きゃ", &["k"]), ("き", &["k"]), ("ゃ", &["y"])]);
    let m = typing(key_input_at(attempt("#title t\nきゃa", long_first), 'k', 0));
    assert_eq!(cursor(&m), (0, 0, 2));
    let short_first = layout(&[("き", &["k"]), ("きゃ", &["k"]), ("ゃ", &["y"])]);
    let m = typing(key_input_at(attempt("#title t\nきゃa", short_first), 'k', 0));
    assert_eq!(cursor(&m), (0, 0, 1));
}

#[test]
fn find_hit_gives_entry_and_spelling() {
    let table = romaji();
    let target: Vec<char> = "あしき".chars().collect();
    assert_eq!(find_hit(&table, &target, 1, &vec![], 's'), Some((3, 0)));
    assert_eq!(find_hit(&table, &target, 1, &vec!['s'], 'h'), Some((3, 1)));
    assert_eq!(find_hit(&table, &target, 1, &vec!['s'], 'i'), Some((3, 0)));
    assert_eq!(find_hit(&table, &target, 1, &vec!['s', 'i'], 'i'), None);
    assert_eq!(find_hit(&table, &target, 0, &vec![], 's'), None);
    assert_eq!(find_hit(&table, &target, 2, &vec![], 'k'), Some((5, 0)));
    assert_eq!(find_hit(&table, &target, 3, &vec![], 'k'), None);
    assert_eq!(find_hit(&TextConvert { mapping: vec![] }, &target, 0, &vec![], 'a'), None);
}

#[test]
fn spelling_that_is_no_longer_than_the_typed_keys_is_passed_over() {
    let table = layout(&[("ab", &["xy"]), ("a", &["x"])]);
    let m = typing(key_input_at(attempt("#title t\nabc", table), 'x', 0));
    assert_eq!(m.status.unconfirmed, vec!['x']);
    let m = typing(key_input_at(m, 'y', 0));
    assert_eq!(cursor(&m), (0, 0, 2));
}

#[test]
fn cursor_moves_through_segments_and_lines() {
    let m = attempt("#title t\na(漢/b)\nc", romaji());
    let mut seen = vec![cursor(&m)];
    let m = typing(key_input_at(m, 'a', 0));
    seen.push(cursor(&m));
    assert_eq!(m.scroll.scroll, 5);
    let m = typing(key_input_at(m, 'x', 10));
    seen.push(cursor(&m));
    let m = typing(key_input_at(m, 'b', 20));
    seen.push(cursor(&m));
    assert_eq!(m.scroll, TypingScroll { last_update: 0, scroll: 40, max: 40 });
    let done = finished(key_input_at(m, 'c', 30));
    seen.push(cursor(&done));
    assert_eq!(seen, vec![(0, 0, 0), (0, 1, 0), (0, 1, 0), (1, 0, 0), (2, 0, 0)]);
    let mut sorted = seen.clone();
    sorted.sort();
    assert_eq!(seen, sorted);
    assert_eq!(done.scroll.scroll, 40);
}

#[test]
fn line_change_opens_a_session_for_the_new_line() {
    let m = attempt("#title t\na\nb", romaji());
    let m = typing(key_input_at(m, 'a', 0));
    assert_eq!(
        m.user_input,
        vec![
            TypingSession { line: 0, inputs: vec![input('a', 0, true)] },
            TypingSession { line: 1, inputs: vec![] },
        ]
    );
    let done = finished(key_input_at(m, 'b', 100));
    assert_eq!(
        done.user_input,
        vec![
            TypingSession { line: 0, inputs: vec![input('a', 0, true)] },
            TypingSession { line: 1, inputs: vec![input('b', 100, true)] },
            TypingSession { line: 2, inputs: vec![] },
        ]
    );
}

#[test]
fn keystrokes_far_apart_fall_into_two_sessions() {
    let m = attempt("#title t\nabc", romaji());
    let m = typing(key_input_at(m, 'a', 10_000));
    let m = typing(key_input_at(m, 'b', 11_500));
    assert_eq!(m.user_input.len(), 2);
    assert_eq!(m.user_input[0].inputs, vec![input('a', 10_000, true)]);
    assert_eq!(m.user_input[1], TypingSession { line: 0, inputs: vec![input('b', 11_500, true)] });
}

#[test]
fn keystrokes_close_together_fall_into_one_session() {
    let m = attempt("#title t\nabc", romaji());
    let m = typing(key_input_at(m, 'a', 10_000));
    let m = typing(key_input_at(m, 'b', 10_500));
    assert_eq!(m.user_input.len(), 1);
    assert_eq!(m.user_input[0].inputs, vec![input('a', 10_000, true), input('b', 10_500, true)]);
}

#[test]
fn session_gap_is_exclusive_at_its_limit() {
    assert_eq!(SESSION_GAP_MS, 1000);
    let m = attempt("#title t\nabc", romaji());
    let m = typing(key_input_at(m, 'a', 5_000));
    let m = typing(key_input_at(m, 'b', 6_000));
    assert_eq!(m.user_input.len(), 1);
    let m = typing(key_input_at(m, 'x', 7_001));
    assert_eq!(m.user_input.len(), 2);
    let m = typing(key_input_at(m, 'x', 3_000));
    assert_eq!(m.user_input.len(), 2);
}

#[test]
fn first_keystroke_opens_a_session_where_the_log_is_empty() {
    let mut m = attempt("#title t\nabc", romaji());
    m.user_input.clear();
    let m = typing(key_input_at(m, 'a', 7));
    assert_eq!(m.user_input, vec![TypingSession { line: 0, inputs: vec![input('a', 7, true)] }]);
}

#[test]
fn key_input_stamps_the_keystroke_with_the_clock() {
    let before = typing_game::timestamp::now();
    let m = typing(key_input(attempt("#title t\nab", romaji()), 'a'));
    let after = typing_game::timestamp::now();
    let stamped = m.user_input[0].inputs[0];
    assert_eq!((stamped.key, stamped.is_correct), ('a', true));
    assert!(before <= stamped.timestamp && stamped.timestamp <= after);
    assert!(before > 1_600_000_000_000);
}

#[test]
fn resuming_opens_a_session_for_the_current_line() {
    let m = attempt("#title t\na\nb", romaji());
    let m = typing(key_input_at(m, 'a', 0));
    let before = m.clone();
    let m = start_new_session(m);
    assert_eq!(m.user_input.len(), 3);
    assert_eq!(m.user_input[2], TypingSession { line: 1, inputs: vec![] });
    assert_eq!(m.user_input[..2], before.user_input[..]);
    assert_eq!(m.status, before.status);
    assert_eq!(m.typing_correctness, before.typing_correctness);
}

#[test]
fn burst_of_misses_counts_once() {
    let m = log(vec![TypingSession {
        line: 0,
        inputs: vec![
            input('x', 0, false),
            input('y', 100, false),
            input('z', 200, false),
            input('a', 300, true),
        ],
    }]);
    let metrics = calculate_total_metrics(&m);
    assert_eq!(metrics.miss_count, 1);
    assert_eq!(metrics.type_count, 1);
    assert_eq!(metrics.total_time, 300);
    assert_eq!(metrics.accuracy, Ratio { numerator: 0, denominator: 1 });
    assert_eq!(metrics.speed, Ratio { numerator: 1000, denominator: 300 });
}

#[test]
fn bursts_are_counted_by_session() {
    let m = log(vec![
        TypingSession { line: 0, inputs: vec![input('a', 0, true), input('x', 400, false)] },
        TypingSession {
            line: 0,
            inputs: vec![
                input('y', 2_000, false),
                input('b', 2_100, true),
                input('z', 2_200, false),
                input('c', 2_500, true),
                input('d', 2_600, true),
            ],
        },
        TypingSession { line: 1, inputs: vec![] },
        TypingSession { line: 1, inputs: vec![input('e', 9_000, true)] },
    ]);
    let metrics = calculate_total_metrics(&m);
    assert_eq!(metrics.miss_count, 3);
    assert_eq!(metrics.type_count, 5);
    assert_eq!(metrics.total_time, 1_000);
    assert_eq!(metrics.accuracy, Ratio { numerator: 2, denominator: 5 });
    assert_eq!(metrics.speed, Ratio { numerator: 5_000, denominator: 1_000 });
    assert_eq!(metrics.accuracy.numerator as f64 / metrics.accuracy.denominator as f64, 1.0 - 3.0 / 5.0);
    assert_eq!(metrics.speed.numerator as f64 / metrics.speed.denominator as f64, 5.0);
}

#[test]
fn line_metrics_count_the_sessions_of_that_line() {
    let m = log(vec![
        TypingSession { line: 0, inputs: vec![input('a', 0, true), input('x', 400, false)] },
        TypingSession { line: 1, inputs: vec![input('b', 1_000, true), input('c', 1_250, true)] },
        TypingSession { line: 0, inputs: vec![input('d', 5_000, true), input('e', 5_100, true)] },
    ]);
    let first = calculate_line_metrics(&m, 0);
    assert_eq!((first.miss_count, first.type_count, first.total_time), (1, 3, 500));
    assert_eq!(first.accuracy, Ratio { numerator: 2, denominator: 3 });
    assert_eq!(first.speed, Ratio { numerator: 3_000, denominator: 500 });
    let second = calculate_line_metrics(&m, 1);
    assert_eq!((second.miss_count, second.type_count, second.total_time), (0, 2, 250));
    assert_eq!(second.speed, Ratio { numerator: 2_000, denominator: 250 });
    let none = calculate_line_metrics(&m, 7);
    assert_eq!((none.miss_count, none.type_count, none.total_time), (0, 0, 0));
    assert_eq!(none.accuracy, Ratio { numerator: 1, denominator: 1 });
    assert_eq!(none.speed, Ratio { numerator: 0, denominator: 1 });
}

#[test]
fn empty_log_has_full_accuracy_and_no_speed() {
    let metrics = calculate_total_metrics(&log(vec![]));
    assert_eq!(
        metrics,
        TypingMetrics {
            miss_count: 0,
            type_count: 0,
            total_time: 0,
            accuracy: Ratio { numerator: 1, denominator: 1 },
            speed: Ratio { numerator: 0, denominator: 1 },
        }
    );
}

#[test]
fn misses_alone_make_accuracy_one() {
    let m = log(vec![TypingSession { line: 0, inputs: vec![input('x', 0, false), input('y', 50, false)] }]);
    let metrics = calculate_total_metrics(&m);
    assert_eq!((metrics.miss_count, metrics.type_count, metrics.total_time), (1, 0, 50));
    assert_eq!(metrics.accuracy, Ratio { numerator: 1, denominator: 1 });
    assert_eq!(metrics.speed, Ratio { numerator: 0, denominator: 50 });
}

#[test]
fn clock_that_runs_back_gives_negative_time() {
    let m = log(vec![TypingSession { line: 0, inputs: vec![input('a', 900, true), input('b', 400, true)] }]);
    let metrics = calculate_total_metrics(&m);
    assert_eq!(metrics.total_time, -500);
    assert_eq!(metrics.speed, Ratio { numerator: 2_000, denominator: -500 });
}

#[test]
fn new_metrics_are_zero_and_calculate_derives_the_quotients() {
    let mut metrics = TypingMetrics::new();
    assert_eq!((metrics.miss_count, metrics.type_count, metrics.total_time), (0, 0, 0));
    metrics.type_count = 8;
    metrics.miss_count = 2;
    metrics.total_time = 4_000;
    metrics.calculate();
    assert_eq!(metrics.accuracy, Ratio { numerator: 6, denominator: 8 });
    assert_eq!(metrics.speed, Ratio { numerator: 8_000, denominator: 4_000 });
    assert_eq!((metrics.miss_count, metrics.type_count, metrics.total_time), (2, 8, 4_000));
}

#[test]
fn countable_log_is_recognised() {
    assert!(log_is_countable(&log(vec![])));
    assert!(log_is_countable(&log(vec![TypingSession { line: 0, inputs: vec![input('a', 0, true)] }])));
}

#[test]
fn metrics_of_a_played_attempt() {
    let m = attempt("#title t\nしa", romaji());
    let mut m = typing(key_input_at(m, 's', 1_000));
    for (key, at) in [('x', 1_100), ('q', 1_200), ('h', 1_300), ('i', 1_400)] {
        m = typing(key_input_at(m, key, at));
    }
    let done = finished(key_input_at(m, 'a', 1_500));
    let metrics = calculate_total_metrics(&done);
    assert_eq!((metrics.miss_count, metrics.type_count, metrics.total_time), (1, 4, 500));
    assert_eq!(metrics.speed, Ratio { numerator: 4_000, denominator: 500 });
    assert_eq!(cells(&done.typing_correctness, 0, 0), vec![Incorrect, Correct]);
}

#[test]
fn attempt_that_is_ready_but_not_well_formed_takes_a_keystroke() {
    let content = parse_problem("#title t\na\n/\nb");
    assert!(!is_typable(&content));
    let mut m = attempt("#title t\na", romaji());
    m.typing_correctness = fresh_tracker(&content);
    m.content = content;
    assert!(m.is_ready());
    assert!(!m.is_wf());
    let m = typing(key_input_at(m, 'a', 0));
    assert_eq!(cursor(&m), (1, 0, 0));
    assert!(!m.is_ready());
}

#[test]
fn readiness_is_recognised() {
    let m = attempt("#title t\nab\nc", romaji());
    assert!(m.is_ready() && m.is_wf());
    let mut off = m.clone();
    off.status.char_ = 2;
    assert!(!off.is_ready());
    let mut off = m.clone();
    off.status.segment = 1;
    assert!(!off.is_ready());
    let mut off = m.clone();
    off.status.line = 2;
    assert!(!off.is_ready());
    let mut off = m.clone();
    off.status.line = -1;
    assert!(!off.is_ready());
    let mut off = m.clone();
    off.typing_correctness.lines[0].segments[0].chars.pop();
    assert!(!off.is_ready());
    let mut elsewhere = m.clone();
    elsewhere.typing_correctness.lines[1].segments[0].chars.pop();
    assert!(elsewhere.is_ready());
    assert!(!elsewhere.is_wf());
    let mut done = m;
    done.status.line = 2;
    assert!(!done.is_ready());
}
