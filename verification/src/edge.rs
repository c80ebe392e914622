//! The edge detector: one remembered button state, one action per change.
//!
//! The detector turns a stream of button readings into key events. It emits
//! a key-down when the button goes from released to pressed, a key-up when it
//! goes back, and nothing while the reading repeats, so that the synthetic
//! key behaves like a key that is held rather than tapped again and again.

use vstd::prelude::*;
use crate::xinput::ButtonState;

verus! {

/// What the output sink is asked to do after one reading.
#[derive(Debug, Clone, Copy, PartialEq, Eq, Structural)]
pub enum Action {
    /// The reading repeats the remembered state: nothing is emitted.
    Nothing,
    /// The button went down: the key is pressed.
    EmitKeyDown,
    /// The button came up: the key is released.
    EmitKeyUp,
}

impl ButtonState {
    /// The state as a number of held buttons: 1 when pressed, else 0.
    pub open spec fn level(self) -> int {
        match self {
            ButtonState::Released => 0,
            ButtonState::Pressed => 1,
        }
    }
}

/// The rule table of the detector.
pub open spec fn spec_transition(previous: ButtonState, current: ButtonState) -> Action {
    match (previous, current) {
        (ButtonState::Released, ButtonState::Released) => Action::Nothing,
        (ButtonState::Released, ButtonState::Pressed) => Action::EmitKeyDown,
        (ButtonState::Pressed, ButtonState::Released) => Action::EmitKeyUp,
        (ButtonState::Pressed, ButtonState::Pressed) => Action::Nothing,
    }
}

/// The state that the detector remembers once it has seen `readings`, having
/// remembered `start` before: the last reading, if there is one.
pub open spec fn state_after(start: ButtonState, readings: Seq<ButtonState>) -> ButtonState {
    if readings.len() == 0 {
        start
    } else {
        readings.last()
    }
}

/// The actions of a detector that remembers `start` and is fed `readings` in
/// order: each reading is held against the one before it, the first against
/// `start`.
pub open spec fn actions_from(start: ButtonState, readings: Seq<ButtonState>) -> Seq<Action> {
    Seq::new(
        readings.len(),
        |i: int| spec_transition(state_after(start, readings.take(i)), readings[i]),
    )
}

/// How often `which` occurs in `actions`.
pub open spec fn count_of(actions: Seq<Action>, which: Action) -> nat
    decreases actions.len(),
{
    if actions.len() == 0 {
        0
    } else {
        count_of(actions.drop_last(), which) + if actions.last() == which {
            1nat
        } else {
            0nat
        }
    }
}

/// Key-downs minus key-ups in `actions`: how many keys are left held.
pub open spec fn keys_held(actions: Seq<Action>) -> int {
    count_of(actions, Action::EmitKeyDown) - count_of(actions, Action::EmitKeyUp)
}

/// The action for the step from `previous` to `current`.
pub fn transition(previous: ButtonState, current: ButtonState) -> (action: Action)
    ensures
        action == spec_transition(previous, current),
{
    match (previous, current) {
        (ButtonState::Released, ButtonState::Pressed) => Action::EmitKeyDown,
        (ButtonState::Pressed, ButtonState::Released) => Action::EmitKeyUp,
        _ => Action::Nothing,
    }
}

/// The detector's memory: the last button state it was fed.
#[derive(Debug, Clone, Copy)]
pub struct EdgeDetector {
    previous: ButtonState,
}

impl View for EdgeDetector {
    type V = ButtonState;

    closed spec fn view(&self) -> ButtonState {
        self.previous
    }
}

impl EdgeDetector {
    /// A detector that remembers a released button.
    pub fn new() -> (detector: Self)
        ensures
            detector@ == ButtonState::Released,
    {
        EdgeDetector { previous: ButtonState::Released }
    }

    /// The remembered state.
    pub fn previous(&self) -> (state: ButtonState)
        ensures
            state == self@,
    {
        self.previous
    }

    /// Feeds one reading: returns the action for the step from the remembered
    /// state to `current`, and remembers `current` whatever the action was.
    pub fn feed(&mut self, current: ButtonState) -> (action: Action)
        ensures
            action == spec_transition(old(self)@, current),
            final(self)@ == current,
    {
        let action = transition(self.previous, current);
        self.previous = current;
        action
    }

    /// Feeds a recorded run of readings in order and returns the action of
    /// each.
    pub fn feed_all(&mut self, readings: &Vec<ButtonState>) -> (actions: Vec<Action>)
        ensures
            actions@ == actions_from(old(self)@, readings@),
            final(self)@ == state_after(old(self)@, readings@),
    {
        let mut actions: Vec<Action> = Vec::new();
        let mut i: usize = 0;
        while i < readings.len()
            invariant
                i <= readings.len(),
                actions@ == actions_from(old(self)@, readings@.take(i as int)),
                self@ == state_after(old(self)@, readings@.take(i as int)),
            decreases readings.len() - i,
        {
            let action = self.feed(readings[i]);
            actions.push(action);
            proof {
                lemma_actions_step(old(self)@, readings@.take(i + 1));
            }
            i += 1;
        }
        actions
    }
}

/// The actions for a run are those for the run without its last reading,
/// followed by the action for the last step.
pub proof fn lemma_actions_step(start: ButtonState, readings: Seq<ButtonState>)
    requires
        readings.len() > 0,
    ensures
        actions_from(start, readings) == actions_from(start, readings.drop_last()).push(
            spec_transition(state_after(start, readings.drop_last()), readings.last()),
        ),
{
}

/// The detector acts exactly on the readings that differ from the state
/// before them: a key-down where a released button is read as pressed, a
/// key-up where a pressed button is read as released, and nothing where the
/// reading repeats the state.
pub proof fn lemma_one_action_per_change(start: ButtonState, readings: Seq<ButtonState>, i: int)
    requires
        0 <= i < readings.len(),
    ensures
        ({
            let before = state_after(start, readings.take(i));
            let action = actions_from(start, readings)[i];
            &&& action == Action::Nothing <==> readings[i] == before
            &&& action == Action::EmitKeyDown <==> before == ButtonState::Released && readings[i]
                == ButtonState::Pressed
            &&& action == Action::EmitKeyUp <==> before == ButtonState::Pressed && readings[i]
                == ButtonState::Released
        }),
{
}

/// A reading fed twice in a row gives no action the second time, whatever
/// the detector remembered before.
pub proof fn lemma_repeated_reading_is_silent(start: ButtonState, current: ButtonState)
    ensures
        actions_from(start, seq![current, current]) == seq![
            spec_transition(start, current),
            Action::Nothing,
        ],
{
}

/// Over any run of readings, the key-downs exceed the key-ups by the level
/// of the state at the end less the level of the state at the start.
pub proof fn lemma_keys_held_follows_state(start: ButtonState, readings: Seq<ButtonState>)
    ensures
        keys_held(actions_from(start, readings)) == state_after(start, readings).level()
            - start.level(),
    decreases readings.len(),
{
    if readings.len() > 0 {
        lemma_keys_held_follows_state(start, readings.drop_last());
        lemma_actions_step(start, readings);
        let front = actions_from(start, readings.drop_last());
        let last = spec_transition(state_after(start, readings.drop_last()), readings.last());
        assert(front.push(last).drop_last() == front);
    }
}

/// A detector that starts from a released button never has the key up more
/// often than down, nor down twice without an up between: at every point of
/// every run, the key-downs so far exceed the key-ups so far by 0 or by 1,
/// and by 1 exactly while the button is pressed.
pub proof fn lemma_key_is_down_at_most_once(readings: Seq<ButtonState>, upto: int)
    requires
        0 <= upto <= readings.len(),
    ensures
        ({
            let held = keys_held(actions_from(ButtonState::Released, readings).take(upto));
            &&& held == state_after(ButtonState::Released, readings.take(upto)).level()
            &&& held == 0 || held == 1
        }),
{
    let start = ButtonState::Released;
    assert(actions_from(start, readings).take(upto) == actions_from(start, readings.take(upto)));
    lemma_keys_held_follows_state(start, readings.take(upto));
}

} // verus!
