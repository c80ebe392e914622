//! The poll scheduler: when to poll, what to emit, which failure to report.
//!
//! The scheduler owns the whole state of the converter: the edge detector's
//! memory, the flag that says whether the current run of failed polls has
//! been reported, and the time at which the last poll cycle began. It makes
//! every decision of the polling loop and leaves the waiting, the polling and
//! the emitting to its caller: `next_step` says whether to stop, wait or
//! poll, and `on_reading` says what to do with the result of a poll.

use vstd::prelude::*;
use crate::edge::{actions_from, keys_held, spec_transition, state_after, Action, EdgeDetector};
use crate::xinput::ButtonState;

verus! {

/// The outcome of one poll: the button's state, or the error code of a
/// failed read.
pub type PollReading = Result<ButtonState, u32>;

/// The least time, in milliseconds, from the start of one poll cycle to the
/// start of the next.
pub const POLL_INTERVAL_MS: u64 = 5;

/// How long, in milliseconds, the loop sleeps before it asks again when no
/// poll is due yet.
pub const IDLE_WAIT_MS: u64 = 1;

/// What the polling loop does next.
#[derive(Debug, Clone, Copy, PartialEq, Eq, Structural)]
pub enum Step {
    /// Poll the controller now and hand the reading to `on_reading`.
    Poll,
    /// Sleep for this many milliseconds, then ask again.
    Wait(u64),
    /// Leave the loop.
    Stop,
}

/// What follows from one reading.
#[derive(Debug, Clone, Copy, PartialEq, Eq)]
pub struct Outcome {
    /// The key event to emit, if any.
    pub action: Action,
    /// The error code to show to the user, if this failure is to be shown.
    pub report: Option<u32>,
}

/// The scheduler's state as contracts see it.
pub struct PollState {
    /// The button state that the edge detector remembers.
    pub previous: ButtonState,
    /// Whether the current run of failed polls has been reported.
    pub error_shown: bool,
    /// When the last poll cycle began, in milliseconds; `None` before the
    /// first cycle.
    pub last_poll: Option<u64>,
}

impl PollState {
    /// The state at program start: button released, nothing reported, no
    /// poll made.
    pub open spec fn initial() -> PollState {
        PollState { previous: ButtonState::Released, error_shown: false, last_poll: None }
    }

    /// Whether a poll is due at time `now_ms`: always before the first cycle,
    /// and afterwards once the poll interval has passed since the last cycle
    /// began. A clock that reads earlier than that beginning has been set
    /// back, and the poll is due.
    pub open spec fn poll_due(self, now_ms: u64) -> bool {
        match self.last_poll {
            None => true,
            Some(last) => now_ms < last || now_ms - last >= POLL_INTERVAL_MS,
        }
    }

    /// What the loop does at time `now_ms`: it stops if asked to, polls if a
    /// poll is due, and else waits a moment.
    pub open spec fn step(self, now_ms: u64, cancel: bool) -> Step {
        if cancel {
            Step::Stop
        } else if self.poll_due(now_ms) {
            Step::Poll
        } else {
            Step::Wait(IDLE_WAIT_MS)
        }
    }

    /// The state after that decision: a poll cycle begins at `now_ms`, and
    /// nothing else changes the state.
    pub open spec fn after_step(self, now_ms: u64, cancel: bool) -> PollState {
        if self.step(now_ms, cancel) == Step::Poll {
            PollState { last_poll: Some(now_ms), ..self }
        } else {
            self
        }
    }

    /// What follows from `reading`. A successful read goes to the edge
    /// detector and reports nothing. A failed read emits nothing, and its
    /// code is reported unless this run of failures has been reported
    /// already.
    pub open spec fn outcome(self, reading: PollReading) -> Outcome {
        match reading {
            Ok(current) => Outcome {
                action: spec_transition(self.previous, current),
                report: None,
            },
            Err(code) => Outcome {
                action: Action::Nothing,
                report: if self.error_shown {
                    None
                } else {
                    Some(code)
                },
            },
        }
    }

    /// The state after `reading`. A successful read is remembered and ends
    /// the run of failures; a failed read leaves the remembered button state
    /// alone and marks the run as reported.
    pub open spec fn after_reading(self, reading: PollReading) -> PollState {
        match reading {
            Ok(current) => PollState { previous: current, error_shown: false, ..self },
            Err(_) => PollState { error_shown: true, ..self },
        }
    }

    /// The state after all of `readings`, taken in order.
    pub open spec fn after_readings(self, readings: Seq<PollReading>) -> PollState
        decreases readings.len(),
    {
        if readings.len() == 0 {
            self
        } else {
            self.after_readings(readings.drop_last()).after_reading(readings.last())
        }
    }

    /// The outcome of each of `readings`, taken in order: each is judged in
    /// the state that the readings before it have left.
    pub open spec fn outcomes(self, readings: Seq<PollReading>) -> Seq<Outcome> {
        Seq::new(
            readings.len(),
            |i: int| self.after_readings(readings.take(i)).outcome(readings[i]),
        )
    }
}

/// The key events among `outcomes`, in order.
pub open spec fn actions_of(outcomes: Seq<Outcome>) -> Seq<Action> {
    Seq::new(outcomes.len(), |i: int| outcomes[i].action)
}

/// How many of `outcomes` report an error.
pub open spec fn reports_in(outcomes: Seq<Outcome>) -> nat
    decreases outcomes.len(),
{
    if outcomes.len() == 0 {
        0
    } else {
        reports_in(outcomes.drop_last()) + if outcomes.last().report is Some {
            1nat
        } else {
            0nat
        }
    }
}

/// Whether a run of failed reads begins at index `i` of `readings`: the read
/// at `i` failed, and the one before it, if there is one, did not.
pub open spec fn starts_failure_run(readings: Seq<PollReading>, i: int) -> bool {
    readings[i] is Err && (i == 0 || readings[i - 1] is Ok)
}

/// The number of runs of consecutive failed reads in `readings`.
pub open spec fn failure_runs(readings: Seq<PollReading>) -> nat
    decreases readings.len(),
{
    if readings.len() == 0 {
        0
    } else {
        failure_runs(readings.drop_last()) + if starts_failure_run(
            readings,
            readings.len() - 1,
        ) {
            1nat
        } else {
            0nat
        }
    }
}

/// A run of failed reads with the given error codes.
pub open spec fn failed(codes: Seq<u32>) -> Seq<PollReading> {
    Seq::new(codes.len(), |i: int| Err(codes[i]))
}

/// A run of successful reads of the given button states.
pub open spec fn succeeded(states: Seq<ButtonState>) -> Seq<PollReading> {
    Seq::new(states.len(), |i: int| Ok(states[i]))
}

/// The state of the polling loop.
#[derive(Debug, Clone, Copy)]
pub struct Scheduler {
    detector: EdgeDetector,
    error_shown: bool,
    last_poll: Option<u64>,
}

impl View for Scheduler {
    type V = PollState;

    closed spec fn view(&self) -> PollState {
        PollState {
            previous: self.detector@,
            error_shown: self.error_shown,
            last_poll: self.last_poll,
        }
    }
}

impl Scheduler {
    /// A scheduler in the state of program start.
    pub fn new() -> (scheduler: Self)
        ensures
            scheduler@ == PollState::initial(),
    {
        Scheduler { detector: EdgeDetector::new(), error_shown: false, last_poll: None }
    }

    /// The button state that the edge detector remembers.
    pub fn previous(&self) -> (state: ButtonState)
        ensures
            state == self@.previous,
    {
        self.detector.previous()
    }

    /// Whether the current run of failed polls has been reported.
    pub fn error_shown(&self) -> (shown: bool)
        ensures
            shown == self@.error_shown,
    {
        self.error_shown
    }

    /// When the last poll cycle began, in milliseconds.
    pub fn last_poll(&self) -> (at: Option<u64>)
        ensures
            at == self@.last_poll,
    {
        self.last_poll
    }

    /// Decides what the loop does at time `now_ms`, the reading of a clock in
    /// milliseconds; `cancel` says whether the loop has been asked to end.
    /// Where the answer is to poll, the cycle counts as begun at `now_ms`.
    pub fn next_step(&mut self, now_ms: u64, cancel: bool) -> (step: Step)
        ensures
            step == old(self)@.step(now_ms, cancel),
            final(self)@ == old(self)@.after_step(now_ms, cancel),
    {
        if cancel {
            return Step::Stop;
        }
        let due: bool = match self.last_poll {
            None => true,
            Some(last) => now_ms < last || now_ms - last >= POLL_INTERVAL_MS,
        };
        if due {
            self.last_poll = Some(now_ms);
            Step::Poll
        } else {
            Step::Wait(IDLE_WAIT_MS)
        }
    }

    /// Takes in the result of one poll and says what follows from it: the
    /// key event to emit and the error to show.
    pub fn on_reading(&mut self, reading: PollReading) -> (outcome: Outcome)
        ensures
            outcome == old(self)@.outcome(reading),
            final(self)@ == old(self)@.after_reading(reading),
    {
        match reading {
            Ok(current) => {
                self.error_shown = false;
                let action = self.detector.feed(current);
                Outcome { action, report: None }
            },
            Err(code) => {
                let report: Option<u32> = if self.error_shown {
                    None
                } else {
                    Some(code)
                };
                self.error_shown = true;
                Outcome { action: Action::Nothing, report }
            },
        }
    }

    /// Takes in a recorded run of readings in order and returns the outcome
    /// of each.
    pub fn replay(&mut self, readings: &Vec<PollReading>) -> (outcomes: Vec<Outcome>)
        ensures
            outcomes@ == old(self)@.outcomes(readings@),
            final(self)@ == old(self)@.after_readings(readings@),
    {
        let mut outcomes: Vec<Outcome> = Vec::new();
        let mut i: usize = 0;
        while i < readings.len()
            invariant
                i <= readings.len(),
                outcomes@ == old(self)@.outcomes(readings@.take(i as int)),
                self@ == old(self)@.after_readings(readings@.take(i as int)),
            decreases readings.len() - i,
        {
            let outcome = self.on_reading(readings[i]);
            outcomes.push(outcome);
            proof {
                assert(readings@.take(i + 1).drop_last() == readings@.take(i as int));
                lemma_outcomes_step(old(self)@, readings@.take(i + 1));
            }
            i += 1;
        }
        proof {
            assert(readings@.take(i as int) == readings@);
        }
        outcomes
    }
}

/// The outcomes of a run are those of the run without its last reading,
/// followed by the outcome of the last reading in the state that the others
/// have left.
pub proof fn lemma_outcomes_step(state: PollState, readings: Seq<PollReading>)
    requires
        readings.len() > 0,
    ensures
        state.outcomes(readings) == state.outcomes(readings.drop_last()).push(
            state.after_readings(readings.drop_last()).outcome(readings.last()),
        ),
{
    let front = readings.drop_last();
    assert(readings.take(front.len() as int) == front);
    assert forall|i: int| 0 <= i < front.len() implies front.take(i) == readings.take(i) by {}
}

/// The outcomes of the first `upto` readings of a run are the first `upto`
/// outcomes of the run: what comes later changes nothing before it.
pub proof fn lemma_outcomes_of_prefix(state: PollState, readings: Seq<PollReading>, upto: int)
    requires
        0 <= upto <= readings.len(),
    ensures
        state.outcomes(readings.take(upto)) == state.outcomes(readings).take(upto),
{
    assert forall|i: int| 0 <= i < upto implies readings.take(upto).take(i) == readings.take(
        i,
    ) by {}
}

/// Readings leave the time of the last poll alone, and after them the report
/// flag says whether the last of them failed.
pub proof fn lemma_flag_follows_last_reading(state: PollState, readings: Seq<PollReading>)
    ensures
        state.after_readings(readings).last_poll == state.last_poll,
        state.after_readings(readings).error_shown == if readings.len() == 0 {
            state.error_shown
        } else {
            readings.last() is Err
        },
    decreases readings.len(),
{
    if readings.len() > 0 {
        lemma_flag_follows_last_reading(state, readings.drop_last());
    }
}

/// The button state remembered after a run of readings is that of its last
/// successful read: the read at `last_ok`, after which every read failed.
pub proof fn lemma_last_successful_read_is_remembered(
    state: PollState,
    readings: Seq<PollReading>,
    last_ok: int,
)
    requires
        0 <= last_ok < readings.len(),
        readings[last_ok] is Ok,
        forall|k: int| last_ok < k < readings.len() ==> readings[k] is Err,
    ensures
        state.after_readings(readings).previous == readings[last_ok]->Ok_0,
    decreases readings.len(),
{
    if last_ok < readings.len() - 1 {
        lemma_last_successful_read_is_remembered(state, readings.drop_last(), last_ok);
    }
}

/// Failed reads neither emit anything nor touch the remembered button state,
/// however many of them come in a row.
pub proof fn lemma_failures_hold_state(state: PollState, codes: Seq<u32>)
    ensures
        state.after_readings(failed(codes)).previous == state.previous,
        forall|i: int|
            0 <= i < codes.len() ==> (#[trigger] state.outcomes(failed(codes))[i]).action
                == Action::Nothing,
    decreases codes.len(),
{
    if codes.len() > 0 {
        lemma_failures_hold_state(state, codes.drop_last());
        assert(failed(codes).drop_last() == failed(codes.drop_last()));
    }
}

/// While every read succeeds, the scheduler emits what the edge detector
/// emits for the button states read, and remembers what it remembers.
pub proof fn lemma_successful_reads_go_to_detector(state: PollState, states: Seq<ButtonState>)
    ensures
        actions_of(state.outcomes(succeeded(states))) == actions_from(state.previous, states),
        state.after_readings(succeeded(states)).previous == state_after(state.previous, states),
{
    let readings = succeeded(states);
    assert forall|i: int| 0 <= i <= states.len() implies state.after_readings(
        #[trigger] readings.take(i),
    ).previous == state_after(state.previous, states.take(i)) by {
        if i > 0 {
            lemma_last_successful_read_is_remembered(state, readings.take(i), i - 1);
        }
    }
    assert(readings.take(states.len() as int) == readings);
    assert(states.take(states.len() as int) == states);
}

/// A successful reading that repeats the one before it emits nothing, in
/// whatever state the first of the two was taken, and also when failed reads
/// lie between the two.
pub proof fn lemma_repeated_reading_is_silent(
    state: PollState,
    current: ButtonState,
    codes: Seq<u32>,
)
    ensures
        state.after_reading(Ok(current)).outcome(Ok(current)).action == Action::Nothing,
        state.after_reading(Ok(current)).after_readings(failed(codes)).outcome(
            Ok(current),
        ).action == Action::Nothing,
{
    lemma_failures_hold_state(state.after_reading(Ok(current)), codes);
}

/// Over any run of readings, the key-downs exceed the key-ups by the level
/// of the button state remembered at the end less that remembered at the
/// start.
pub proof fn lemma_keys_held_follows_state(state: PollState, readings: Seq<PollReading>)
    ensures
        keys_held(actions_of(state.outcomes(readings))) == state.after_readings(
            readings,
        ).previous.level() - state.previous.level(),
    decreases readings.len(),
{
    if readings.len() > 0 {
        let front = readings.drop_last();
        lemma_keys_held_follows_state(state, front);
        lemma_outcomes_step(state, readings);
        assert(actions_of(state.outcomes(readings)).drop_last() == actions_of(
            state.outcomes(front),
        ));
    }
}

/// A scheduler that starts with the button released never has the key up
/// more often than down, nor down twice without an up between: at every
/// point of every run of readings, failed ones included, the key-downs so far
/// exceed the key-ups so far by 0 or by 1, and by 1 exactly while the
/// remembered button state is pressed.
pub proof fn lemma_key_is_down_at_most_once(
    state: PollState,
    readings: Seq<PollReading>,
    upto: int,
)
    requires
        state.previous == ButtonState::Released,
        0 <= upto <= readings.len(),
    ensures
        ({
            let held = keys_held(actions_of(state.outcomes(readings).take(upto)));
            &&& held == state.after_readings(readings.take(upto)).previous.level()
            &&& held == 0 || held == 1
        }),
{
    lemma_outcomes_of_prefix(state, readings, upto);
    lemma_keys_held_follows_state(state, readings.take(upto));
}

/// A failure is reported exactly where a run of failures begins, with the
/// code of the run's first read. The run that is under way when the readings
/// start counts as begun only if it has not been reported yet.
pub proof fn lemma_report_marks_run_start(state: PollState, readings: Seq<PollReading>, i: int)
    requires
        0 <= i < readings.len(),
    ensures
        state.outcomes(readings)[i].report == if starts_failure_run(readings, i) && !(i == 0
            && state.error_shown) {
            Some(readings[i]->Err_0)
        } else {
            None
        },
{
    lemma_flag_follows_last_reading(state, readings.take(i));
}

/// The number of failures reported over a run of readings is the number of
/// its runs of failures, less one if the readings begin inside a run that
/// has been reported already.
pub proof fn lemma_one_report_per_failure_run(state: PollState, readings: Seq<PollReading>)
    ensures
        ({
            let inside_shown_run = state.error_shown && readings.len() > 0 && readings[0] is Err;
            reports_in(state.outcomes(readings)) == failure_runs(readings) - if inside_shown_run {
                1int
            } else {
                0int
            }
        }),
    decreases readings.len(),
{
    if readings.len() > 0 {
        let front = readings.drop_last();
        lemma_one_report_per_failure_run(state, front);
        lemma_outcomes_step(state, readings);
        lemma_report_marks_run_start(state, readings, readings.len() - 1);
        assert(state.outcomes(readings).drop_last() == state.outcomes(front));
    }
}

/// Appending a run of failed reads adds one run of failures, unless the run
/// is empty or continues failures at the end of `readings`.
pub proof fn lemma_failure_runs_append(readings: Seq<PollReading>, codes: Seq<u32>)
    ensures
        ({
            let begins_run = codes.len() > 0 && (readings.len() == 0 || readings.last() is Ok);
            failure_runs(readings + failed(codes)) == failure_runs(readings) + if begins_run {
                1int
            } else {
                0int
            }
        }),
    decreases codes.len(),
{
    if codes.len() == 0 {
        assert(readings + failed(codes) == readings);
    } else {
        let shorter = codes.drop_last();
        lemma_failure_runs_append(readings, shorter);
        assert((readings + failed(codes)).drop_last() == readings + failed(shorter));
    }
}

/// Failed reads, then one successful read, then failed reads again: exactly
/// two failures are reported, however long the two runs are. The reports are
/// the first read of each run, with its code. The scheduler is taken in a
/// state in which no failure run is under way.
pub proof fn lemma_two_failure_runs_two_reports(
    state: PollState,
    before: Seq<u32>,
    current: ButtonState,
    after: Seq<u32>,
)
    requires
        !state.error_shown,
        before.len() >= 1,
        after.len() >= 1,
    ensures
        ({
            let readings = failed(before) + seq![Ok(current)] + failed(after);
            let outcomes = state.outcomes(readings);
            let second = before.len() as int + 1;
            &&& reports_in(outcomes) == 2
            &&& outcomes[0].report == Some(before[0])
            &&& outcomes[second].report == Some(after[0])
            &&& forall|i: int|
                0 <= i < outcomes.len() && i != 0 && i != second ==> (
                #[trigger] outcomes[i]).report is None
        }),
{
    let middle = failed(before).push(Ok(current));
    let readings = failed(before) + seq![Ok(current)] + failed(after);
    assert(readings == middle + failed(after));
    assert(Seq::<PollReading>::empty() + failed(before) == failed(before));
    lemma_failure_runs_append(Seq::empty(), before);
    assert(middle.drop_last() == failed(before));
    lemma_failure_runs_append(middle, after);
    lemma_one_report_per_failure_run(state, readings);
    assert forall|i: int| 0 <= i < readings.len() implies (#[trigger] state.outcomes(
        readings,
    )[i]).report == if i == 0 {
        Some(before[0])
    } else if i == before.len() + 1 {
        Some(after[0])
    } else {
        None
    } by {
        lemma_report_marks_run_start(state, readings, i);
    }
}

/// Polls keep their distance: once a poll cycle has begun at `polled_ms`, no
/// poll is due until the poll interval has passed, and one is due from then
/// on.
pub proof fn lemma_interval_is_kept(state: PollState, polled_ms: u64, now_ms: u64)
    requires
        state.step(polled_ms, false) == Step::Poll,
        polled_ms <= now_ms,
    ensures
        state.after_step(polled_ms, false).step(now_ms, false) == if now_ms - polled_ms
            < POLL_INTERVAL_MS {
            Step::Wait(IDLE_WAIT_MS)
        } else {
            Step::Poll
        },
{
}

/// What was read does not change the pace: a controller that fails is polled
/// at the same times as one that answers.
pub proof fn lemma_readings_do_not_change_the_pace(
    state: PollState,
    readings: Seq<PollReading>,
    now_ms: u64,
    cancel: bool,
)
    ensures
        state.after_readings(readings).step(now_ms, cancel) == state.step(now_ms, cancel),
{
    lemma_flag_follows_last_reading(state, readings);
}

} // verus!
