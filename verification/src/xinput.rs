//! Decoding of the controller's report into the logical state of the B button.

use vstd::prelude::*;

verus! {

/// Debounced logical state of one digital button.
#[derive(Debug, Clone, Copy, PartialEq, Eq, Structural)]
pub enum ButtonState {
    /// The button is up.
    Released,
    /// The button is held down.
    Pressed,
}

/// The controller slot that is polled: the first one.
pub const USER_INDEX: u32 = 0;

/// The bit of the gamepad's button word that stands for the B button.
pub open spec fn b_button_mask() -> u16 {
    0x2000
}

/// The status with which a controller query reports success.
pub open spec fn status_ok() -> u32 {
    0
}

/// The state of the B button in a button word: pressed exactly when the
/// B bit is set, whatever the other bits are.
pub open spec fn button_of(buttons: u16) -> ButtonState {
    if buttons & b_button_mask() != 0 {
        ButtonState::Pressed
    } else {
        ButtonState::Released
    }
}

/// What one poll of the controller amounts to: the status is returned as the
/// error unless it signals success, and only then is the button word decoded.
pub open spec fn reading_of(status: u32, buttons: u16) -> Result<ButtonState, u32> {
    if status != status_ok() {
        Err(status)
    } else {
        Ok(button_of(buttons))
    }
}

/// Reads `windows_sys`'s constant `XINPUT_GAMEPAD_B`, the flag of the B button
/// in `XINPUT_GAMEPAD::wButtons`. Trusted: the constant is `8192u16`.
#[verifier::external_body]
fn gamepad_b_flag() -> (flag: u16)
    ensures
        flag == b_button_mask(),
{
    windows_sys::Win32::UI::Input::XboxController::XINPUT_GAMEPAD_B
}

/// Interprets the result of one controller query: `status` is what the query
/// returned and `buttons` the button word it filled in.
///
/// A non-zero status is handed back as the error and the button word is then
/// ignored; on success the B bit alone decides between pressed and released.
pub fn read_b_button(status: u32, buttons: u16) -> (reading: Result<ButtonState, u32>)
    ensures
        reading == reading_of(status, buttons),
{
    if status != 0 {
        return Err(status);
    }
    let pressed: bool = (buttons & gamepad_b_flag()) != 0;
    Ok(if pressed {
        ButtonState::Pressed
    } else {
        ButtonState::Released
    })
}

/// Only the B bit counts: button words that agree in it decode alike, the
/// word with that bit alone is a pressed button and the empty word a released
/// one.
pub proof fn lemma_only_the_b_bit_counts(buttons: u16, other: u16)
    ensures
        (buttons ^ other) & b_button_mask() == 0 ==> button_of(buttons) == button_of(other),
        button_of(b_button_mask()) == ButtonState::Pressed,
        button_of(0) == ButtonState::Released,
{
    assert((buttons ^ other) & 0x2000 == 0 ==> (buttons & 0x2000 != 0) == (other & 0x2000 != 0))
        by (bit_vector);
    assert(0x2000u16 & 0x2000 != 0) by (bit_vector);
    assert(0u16 & 0x2000 == 0) by (bit_vector);
}

} // verus!
