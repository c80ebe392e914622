//! The keyboard input records that stand for a key going down or up.
//!
//! Nothing here talks to the operating system: the functions build the record
//! that the caller hands to the input queue, and judge what the queue
//! answered.

use vstd::prelude::*;
use crate::edge::Action;

verus! {

/// One keyboard event as the input queue takes it: the kind of the record
/// and the fields of its keyboard part.
#[derive(Debug, Clone, Copy, PartialEq, Eq, Structural)]
pub struct KeyInput {
    /// Kind of the input record.
    pub kind: u32,
    /// Virtual-key code.
    pub vk: u16,
    /// Hardware scan code.
    pub scan: u16,
    /// Event flags.
    pub flags: u32,
    /// Time stamp; zero lets the system supply its own.
    pub time: u32,
    /// Extra value attached to the event.
    pub extra_info: usize,
}

/// The record kind of a keyboard event.
pub open spec fn keyboard_kind() -> u32 {
    1
}

/// The event flag that marks a key release.
pub open spec fn key_up_flag() -> u32 {
    2
}

/// Virtual-key code of the X key, the key that the button stands for.
pub const VK_X: u16 = 0x58;

/// How many events one send hands to the input queue.
pub const EVENTS_PER_SEND: u32 = 1;

/// The record for virtual key `vk` going up (`key_up`) or down: a keyboard
/// record that names the key by its virtual-key code alone, with no scan
/// code, no time stamp and no extra value, flagged as a release exactly when
/// the key goes up.
pub open spec fn key_event(vk: u16, key_up: bool) -> KeyInput {
    KeyInput {
        kind: keyboard_kind(),
        vk,
        scan: 0,
        flags: if key_up {
            key_up_flag()
        } else {
            0
        },
        time: 0,
        extra_info: 0,
    }
}

/// The record to send for `action` on virtual key `vk`, if the action asks
/// for one.
pub open spec fn spec_input_for(action: Action, vk: u16) -> Option<KeyInput> {
    match action {
        Action::Nothing => None,
        Action::EmitKeyDown => Some(key_event(vk, false)),
        Action::EmitKeyUp => Some(key_event(vk, true)),
    }
}

/// Reads `windows_sys`'s constant `INPUT_KEYBOARD`, the value of
/// `INPUT::type` for a keyboard event. Trusted: the constant is `1u32`.
#[verifier::external_body]
fn input_keyboard() -> (kind: u32)
    ensures
        kind == keyboard_kind(),
{
    windows_sys::Win32::UI::Input::KeyboardAndMouse::INPUT_KEYBOARD
}

/// Reads `windows_sys`'s constant `KEYEVENTF_KEYUP`, the flag in
/// `KEYBDINPUT::dwFlags` that marks a release. Trusted: the constant is
/// `2u32`.
#[verifier::external_body]
fn keyeventf_keyup() -> (flag: u32)
    ensures
        flag == key_up_flag(),
{
    windows_sys::Win32::UI::Input::KeyboardAndMouse::KEYEVENTF_KEYUP
}

/// Builds the record for virtual key `vk` going up (`key_up`) or down.
pub fn send_key_event(vk: u16, key_up: bool) -> (input: KeyInput)
    ensures
        input == key_event(vk, key_up),
{
    let flags: u32 = if key_up {
        keyeventf_keyup()
    } else {
        0
    };
    KeyInput { kind: input_keyboard(), vk, scan: 0, flags, time: 0, extra_info: 0 }
}

/// Builds the record that presses virtual key `vk`.
pub fn send_key_down(vk: u16) -> (input: KeyInput)
    ensures
        input == key_event(vk, false),
{
    send_key_event(vk, false)
}

/// Builds the record that releases virtual key `vk`.
pub fn send_key_up(vk: u16) -> (input: KeyInput)
    ensures
        input == key_event(vk, true),
{
    send_key_event(vk, true)
}

/// Chooses the record to send for `action` on virtual key `vk`: a press for a
/// key-down, a release for a key-up, and none where nothing is to be emitted.
pub fn input_for(action: Action, vk: u16) -> (input: Option<KeyInput>)
    ensures
        input == spec_input_for(action, vk),
{
    match action {
        Action::Nothing => None,
        Action::EmitKeyDown => Some(send_key_down(vk)),
        Action::EmitKeyUp => Some(send_key_up(vk)),
    }
}

/// Judges the answer of the input queue to one send: `inserted` is the number
/// of events it took. The send failed unless it took all of them.
pub fn delivery_failed(inserted: u32) -> (failed: bool)
    ensures
        failed == (inserted != EVENTS_PER_SEND),
{
    inserted != EVENTS_PER_SEND
}

} // verus!
