use xinput_keyboard::edge::{transition, Action, EdgeDetector};
use xinput_keyboard::xinput::ButtonState;

use xinput_keyboard::edge::Action::{EmitKeyDown, EmitKeyUp, Nothing};
use xinput_keyboard::xinput::ButtonState::{Pressed, Released};

fn keys_held(actions: &[Action]) -> i64 {
    let downs = actions.iter().filter(|a| **a == EmitKeyDown).count() as i64;
    let ups = actions.iter().filter(|a| **a == EmitKeyUp).count() as i64;
    downs - ups
}

#[test]
fn released_to_released_emits_nothing() {
    assert_eq!(transition(Released, Released), Nothing);
}

#[test]
fn released_to_pressed_emits_key_down() {
    assert_eq!(transition(Released, Pressed), EmitKeyDown);
}

#[test]
fn pressed_to_released_emits_key_up() {
    assert_eq!(transition(Pressed, Released), EmitKeyUp);
}

#[test]
fn pressed_to_pressed_emits_nothing() {
    assert_eq!(transition(Pressed, Pressed), Nothing);
}

#[test]
fn new_detector_remembers_released() {
    assert_eq!(EdgeDetector::new().previous(), Released);
}

#[test]
fn feed_remembers_the_reading_whatever_the_action() {
    let mut detector = EdgeDetector::new();
    assert_eq!(detector.feed(Released), Nothing);
    assert_eq!(detector.previous(), Released);
    assert_eq!(detector.feed(Pressed), EmitKeyDown);
    assert_eq!(detector.previous(), Pressed);
    assert_eq!(detector.feed(Pressed), Nothing);
    assert_eq!(detector.previous(), Pressed);
    assert_eq!(detector.feed(Released), EmitKeyUp);
    assert_eq!(detector.previous(), Released);
}

#[test]
fn same_reading_twice_acts_once() {
    for start in [Released, Pressed] {
        for current in [Released, Pressed] {
            let mut detector = EdgeDetector::new();
            detector.feed(start);
            let first = detector.feed(current);
            let second = detector.feed(current);
            assert_eq!(first, transition(start, current));
            assert_eq!(second, Nothing);
        }
    }
}

#[test]
fn held_button_gives_one_key_down() {
    let mut detector = EdgeDetector::new();
    let actions = detector.feed_all(&vec![Pressed; 50]);
    assert_eq!(actions[0], EmitKeyDown);
    assert!(actions[1..].iter().all(|a| *a == Nothing));
}

#[test]
fn scenario_press_hold_release() {
    let mut detector = EdgeDetector::new();
    let actions = detector.feed_all(&vec![Released, Released, Pressed, Pressed, Released]);
    assert_eq!(actions, vec![Nothing, Nothing, EmitKeyDown, Nothing, EmitKeyUp]);
    assert_eq!(detector.previous(), Released);
}

#[test]
fn scenario_pressed_at_first_reading() {
    let mut detector = EdgeDetector::new();
    let actions = detector.feed_all(&vec![Pressed, Released, Pressed]);
    assert_eq!(actions, vec![EmitKeyDown, EmitKeyUp, EmitKeyDown]);
    assert_eq!(detector.previous(), Pressed);
}

#[test]
fn feed_all_of_nothing_changes_nothing() {
    let mut detector = EdgeDetector::new();
    detector.feed(Pressed);
    let actions = detector.feed_all(&Vec::new());
    assert!(actions.is_empty());
    assert_eq!(detector.previous(), Pressed);
}

#[test]
fn feed_all_agrees_with_feeding_one_by_one() {
    let readings = vec![Pressed, Pressed, Released, Pressed, Released, Released, Pressed];
    let mut whole = EdgeDetector::new();
    let actions = whole.feed_all(&readings);
    let mut single = EdgeDetector::new();
    let stepwise: Vec<Action> = readings.iter().map(|r| single.feed(*r)).collect();
    assert_eq!(actions, stepwise);
    assert_eq!(whole.previous(), single.previous());
}

#[test]
fn key_downs_exceed_key_ups_by_zero_or_one_at_every_point() {
    // Every run of eight readings, from a released button.
    for bits in 0u32..256 {
        let readings: Vec<ButtonState> =
            (0..8).map(|k| if bits >> k & 1 == 1 { Pressed } else { Released }).collect();
        let mut detector = EdgeDetector::new();
        let actions = detector.feed_all(&readings);
        for upto in 0..=readings.len() {
            let held = keys_held(&actions[..upto]);
            let expected = if upto > 0 && readings[upto - 1] == Pressed { 1 } else { 0 };
            assert_eq!(held, expected);
        }
    }
}

#[test]
fn key_balance_from_a_pressed_start_follows_the_state() {
    let mut detector = EdgeDetector::new();
    detector.feed(Pressed);
    let actions = detector.feed_all(&vec![Pressed, Released, Released]);
    assert_eq!(actions, vec![Nothing, EmitKeyUp, Nothing]);
    assert_eq!(keys_held(&actions), -1);
}
