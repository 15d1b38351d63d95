//! The metrics of an input log: misses, correct inputs, time, accuracy and
//! speed.

use vstd::prelude::*;
use crate::model::{
    sessions_view, Ratio, SessionView, TypingInput, TypingMetrics, TypingModel, TypingSession,
    TypingView,
};

verus! {

/// The number of correct inputs.
pub open spec fn typed_count(inputs: Seq<TypingInput>) -> nat
    decreases inputs.len(),
{
    if inputs.len() == 0 {
        0
    } else {
        typed_count(inputs.drop_last()) + if inputs.last().is_correct {
            1nat
        } else {
            0nat
        }
    }
}

/// Input `i` opens a burst of misses: it is incorrect, and it is the first
/// of its session or follows a correct one.
pub open spec fn opens_burst(inputs: Seq<TypingInput>, i: int) -> bool {
    !inputs[i].is_correct && (i == 0 || inputs[i - 1].is_correct)
}

/// The number of bursts of misses: an unbroken run of incorrect inputs
/// counts once.
pub open spec fn miss_count(inputs: Seq<TypingInput>) -> nat
    decreases inputs.len(),
{
    if inputs.len() == 0 {
        0
    } else {
        miss_count(inputs.drop_last()) + if opens_burst(inputs, inputs.len() - 1) {
            1nat
        } else {
            0nat
        }
    }
}

/// The time from the first input of a session to its last, in milliseconds.
pub open spec fn session_time(inputs: Seq<TypingInput>) -> int {
    if inputs.len() == 0 {
        0
    } else {
        inputs.last().timestamp - inputs[0].timestamp
    }
}

/// Whether a session counts: every session does where no line is asked for,
/// else those of that line.
pub open spec fn counted(session: SessionView, only_line: Option<int>) -> bool {
    match only_line {
        Some(line) => session.line == line,
        None => true,
    }
}

/// What a log adds up to.
pub struct Tally {
    pub miss_count: int,
    pub type_count: int,
    pub total_time: int,
}

/// The sums of misses, correct inputs and session times over the sessions
/// that count.
pub open spec fn tally(sessions: Seq<SessionView>, only_line: Option<int>) -> Tally
    decreases sessions.len(),
{
    if sessions.len() == 0 {
        Tally { miss_count: 0, type_count: 0, total_time: 0 }
    } else {
        let before = tally(sessions.drop_last(), only_line);
        let inputs = sessions.last().inputs;
        if counted(sessions.last(), only_line) {
            Tally {
                miss_count: before.miss_count + miss_count(inputs),
                type_count: before.type_count + typed_count(inputs),
                total_time: before.total_time + session_time(inputs),
            }
        } else {
            before
        }
    }
}

/// The number of inputs in a log.
pub open spec fn total_inputs(sessions: Seq<SessionView>) -> nat
    decreases sessions.len(),
{
    if sessions.len() == 0 {
        0
    } else {
        total_inputs(sessions.drop_last()) + sessions.last().inputs.len()
    }
}

/// Accuracy as a quotient: one less the misses per correct input, and one
/// where there is no correct input.
pub open spec fn accuracy_of(miss_count: int, type_count: int) -> (int, int) {
    if type_count == 0 {
        (1, 1)
    } else {
        (type_count - miss_count, type_count)
    }
}

/// Speed as a quotient: correct inputs per second, and zero where no time
/// has passed.
pub open spec fn speed_of(type_count: int, total_time: int) -> (int, int) {
    if total_time == 0 {
        (0, 1)
    } else {
        (type_count * 1000, total_time)
    }
}

/// Neither quotient has a zero denominator.
pub proof fn lemma_quotients_are_defined(miss_count: int, type_count: int, total_time: int)
    ensures
        accuracy_of(miss_count, type_count).1 != 0,
        speed_of(type_count, total_time).1 != 0,
{
}

/// The metrics that a tally gives.
pub open spec fn is_metrics_of(metrics: TypingMetrics, sums: Tally) -> bool {
    &&& metrics.miss_count == sums.miss_count
    &&& metrics.type_count == sums.type_count
    &&& metrics.total_time == sums.total_time
    &&& metrics.accuracy@ == accuracy_of(sums.miss_count, sums.type_count)
    &&& metrics.speed@ == speed_of(sums.type_count, sums.total_time)
}

impl TypingMetrics {
    /// Metrics with nothing counted: every count zero, every quotient zero.
    pub open spec fn zero() -> TypingMetrics {
        TypingMetrics {
            miss_count: 0,
            type_count: 0,
            total_time: 0,
            accuracy: Ratio { numerator: 0, denominator: 1 },
            speed: Ratio { numerator: 0, denominator: 1 },
        }
    }

    /// Metrics with nothing counted yet.
    pub fn new() -> (metrics: Self)
        ensures
            metrics == Self::zero(),
    {
        TypingMetrics {
            miss_count: 0,
            type_count: 0,
            total_time: 0,
            accuracy: Ratio { numerator: 0, denominator: 1 },
            speed: Ratio { numerator: 0, denominator: 1 },
        }
    }

    /// Derives accuracy and speed from the counts and the time.
    pub fn calculate(&mut self)
        ensures
            final(self).miss_count == old(self).miss_count,
            final(self).type_count == old(self).type_count,
            final(self).total_time == old(self).total_time,
            final(self).accuracy@ == accuracy_of(
                old(self).miss_count as int,
                old(self).type_count as int,
            ),
            final(self).speed@ == speed_of(old(self).type_count as int, old(self).total_time as int),
    {
        if self.type_count == 0 {
            self.accuracy = Ratio { numerator: 1, denominator: 1 };
        } else {
            self.accuracy = Ratio {
                numerator: self.type_count as i128 - self.miss_count as i128,
                denominator: self.type_count as i128,
            };
        }
        if self.total_time == 0 {
            self.speed = Ratio { numerator: 0, denominator: 1 };
        } else {
            self.speed = Ratio {
                numerator: self.type_count as i128 * 1000,
                denominator: self.total_time,
            };
        }
    }
}

impl TypingView {
    /// The counters of the metrics can hold what the log adds up to.
    pub open spec fn countable(self) -> bool {
        total_inputs(self.user_input) <= i32::MAX
    }
}

/// Counts never exceed the number of inputs.
pub proof fn lemma_counts_bounded(inputs: Seq<TypingInput>)
    ensures
        typed_count(inputs) <= inputs.len(),
        miss_count(inputs) <= inputs.len(),
    decreases inputs.len(),
{
    if inputs.len() > 0 {
        lemma_counts_bounded(inputs.drop_last());
    }
}

/// A prefix of a log holds no more inputs than the log.
pub proof fn lemma_total_inputs_prefix(sessions: Seq<SessionView>, n: int)
    requires
        0 <= n <= sessions.len(),
    ensures
        total_inputs(sessions.take(n)) <= total_inputs(sessions),
    decreases sessions.len() - n,
{
    if n == sessions.len() {
        assert(sessions.take(n) =~= sessions);
    } else {
        lemma_total_inputs_prefix(sessions.drop_last(), n);
        assert(sessions.drop_last().take(n) =~= sessions.take(n));
    }
}

/// Counts the correct inputs and the bursts of misses of one session.
fn count_inputs(inputs: &Vec<TypingInput>) -> (counts: (usize, usize))
    ensures
        counts.0 == typed_count(inputs@),
        counts.1 == miss_count(inputs@),
{
    let mut typed: usize = 0;
    let mut missed: usize = 0;
    let mut in_burst = false;
    let mut i: usize = 0;
    while i < inputs.len()
        invariant
            i <= inputs.len(),
            typed == typed_count(inputs@.take(i as int)),
            missed == miss_count(inputs@.take(i as int)),
            typed <= i,
            missed <= i,
            in_burst == (i > 0 && !inputs@[i - 1].is_correct),
        decreases inputs.len() - i,
    {
        proof {
            assert(inputs@.take(i + 1).drop_last() =~= inputs@.take(i as int));
        }
        if inputs[i].is_correct {
            typed += 1;
            in_burst = false;
        } else {
            if !in_burst {
                missed += 1;
            }
            in_burst = true;
        }
        i += 1;
    }
    assert(inputs@.take(i as int) =~= inputs@);
    (typed, missed)
}

/// The span of a session in milliseconds.
fn time_of(inputs: &Vec<TypingInput>) -> (time: i128)
    ensures
        time == session_time(inputs@),
{
    if inputs.len() == 0 {
        0
    } else {
        inputs[inputs.len() - 1].timestamp as i128 - inputs[0].timestamp as i128
    }
}

/// Adds up the sessions of a log that count.
fn tally_sessions(sessions: &Vec<TypingSession>, only_line: Option<i32>) -> (metrics: TypingMetrics)
    requires
        total_inputs(sessions_view(sessions@)) <= i32::MAX,
    ensures
        is_metrics_of(
            metrics,
            tally(
                sessions_view(sessions@),
                match only_line {
                    Some(line) => Some(line as int),
                    None => None,
                },
            ),
        ),
{
    let ghost log = sessions_view(sessions@);
    let ghost only: Option<int> = match only_line {
        Some(line) => Some(line as int),
        None => None,
    };
    let mut metrics = TypingMetrics::new();
    let mut i: usize = 0;
    while i < sessions.len()
        invariant
            i <= sessions.len(),
            log == sessions_view(sessions@),
            total_inputs(log) <= i32::MAX,
            only == match only_line {
                Some(line) => Some(line as int),
                None => None,
            },
            metrics.miss_count == tally(log.take(i as int), only).miss_count,
            metrics.type_count == tally(log.take(i as int), only).type_count,
            metrics.total_time == tally(log.take(i as int), only).total_time,
            0 <= metrics.miss_count <= total_inputs(log.take(i as int)),
            0 <= metrics.type_count <= total_inputs(log.take(i as int)),
            -total_inputs(log.take(i as int)) * 0xFFFF_FFFF_FFFF_FFFF <= metrics.total_time
                <= total_inputs(log.take(i as int)) * 0xFFFF_FFFF_FFFF_FFFF,
        decreases sessions.len() - i,
    {
        let session = &sessions[i];
        proof {
            assert(log.take(i + 1).drop_last() =~= log.take(i as int));
            lemma_total_inputs_prefix(log, i + 1);
            lemma_counts_bounded(session.inputs@);
        }
        let wanted = match only_line {
            Some(line) => session.line == line,
            None => true,
        };
        if wanted {
            let (typed, missed) = count_inputs(&session.inputs);
            let time = time_of(&session.inputs);
            metrics.type_count = metrics.type_count + typed as i32;
            metrics.miss_count = metrics.miss_count + missed as i32;
            metrics.total_time = metrics.total_time + time;
        }
        i += 1;
    }
    assert(log.take(i as int) =~= log);
    metrics.calculate();
    metrics
}

/// The metrics of the sessions of one line.
pub fn calculate_line_metrics(model: &TypingModel, line: i32) -> (metrics: TypingMetrics)
    requires
        model@.countable(),
    ensures
        is_metrics_of(metrics, tally(model@.user_input, Some(line as int))),
{
    tally_sessions(&model.user_input, Some(line))
}

/// The metrics of the whole log.
pub fn calculate_total_metrics(model: &TypingModel) -> (metrics: TypingMetrics)
    requires
        model@.countable(),
    ensures
        is_metrics_of(metrics, tally(model@.user_input, None)),
{
    tally_sessions(&model.user_input, None)
}

/// Whether the counters of the metrics can hold what the log adds up to.
pub fn log_is_countable(model: &TypingModel) -> (fits: bool)
    ensures
        fits == model@.countable(),
{
    let ghost log = sessions_view(model.user_input@);
    let mut seen: usize = 0;
    let mut i: usize = 0;
    while i < model.user_input.len()
        invariant
            i <= model.user_input.len(),
            log == sessions_view(model.user_input@),
            seen == total_inputs(log.take(i as int)),
            seen <= i32::MAX,
        decreases model.user_input.len() - i,
    {
        let held = model.user_input[i].inputs.len();
        proof {
            assert(log.take(i + 1).drop_last() =~= log.take(i as int));
            lemma_total_inputs_prefix(log, i + 1);
        }
        if held > 0x7FFF_FFFF - seen {
            return false;
        }
        seen += held;
        i += 1;
    }
    assert(log.take(i as int) =~= log);
    true
}

/// A session of incorrect inputs alone holds one miss and no correct input.
pub proof fn lemma_run_of_misses(inputs: Seq<TypingInput>)
    requires
        inputs.len() >= 1,
        forall|i: int| 0 <= i < inputs.len() ==> !inputs[i].is_correct,
    ensures
        miss_count(inputs) == 1,
        typed_count(inputs) == 0,
    decreases inputs.len(),
{
    let shorter = inputs.drop_last();
    if inputs.len() > 1 {
        lemma_run_of_misses(shorter);
        assert(!inputs[inputs.len() - 2].is_correct);
    } else {
        assert(miss_count(shorter) == 0);
        assert(typed_count(shorter) == 0);
    }
}

/// A burst of misses counts once: of a session that is a run of incorrect
/// inputs with one correct input at its end, one miss and one correct input
/// are counted.
pub proof fn lemma_burst_counts_once(inputs: Seq<TypingInput>)
    requires
        inputs.len() >= 2,
        forall|i: int| 0 <= i < inputs.len() - 1 ==> !inputs[i].is_correct,
        inputs.last().is_correct,
    ensures
        miss_count(inputs) == 1,
        typed_count(inputs) == 1,
{
    lemma_run_of_misses(inputs.drop_last());
    assert(!inputs[inputs.len() - 2].is_correct);
}

} // verus!
