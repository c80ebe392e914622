use xinput_keyboard::xinput::read_b_button;
use xinput_keyboard::xinput::ButtonState::{Pressed, Released};

#[test]
fn b_bit_set_reads_as_pressed() {
    assert_eq!(read_b_button(0, 0x2000), Ok(Pressed));
}

#[test]
fn no_button_reads_as_released() {
    assert_eq!(read_b_button(0, 0x0000), Ok(Released));
}

#[test]
fn other_buttons_do_not_count() {
    // A, X and Y lie next to B in the button word.
    assert_eq!(read_b_button(0, 0x1000), Ok(Released));
    assert_eq!(read_b_button(0, 0x4000), Ok(Released));
    assert_eq!(read_b_button(0, 0x8000), Ok(Released));
    assert_eq!(read_b_button(0, 0xDFFF), Ok(Released));
}

#[test]
fn b_among_other_buttons_reads_as_pressed() {
    assert_eq!(read_b_button(0, 0xFFFF), Ok(Pressed));
    assert_eq!(read_b_button(0, 0x3001), Ok(Pressed));
}

#[test]
fn every_button_word_is_decoded_by_the_b_bit() {
    for buttons in 0u16..=u16::MAX {
        let expected = if buttons & 0x2000 != 0 { Pressed } else { Released };
        assert_eq!(read_b_button(0, buttons), Ok(expected));
    }
}

#[test]
fn failed_query_hands_back_its_status() {
    assert_eq!(read_b_button(1167, 0), Err(1167));
    assert_eq!(read_b_button(1, 0), Err(1));
    assert_eq!(read_b_button(u32::MAX, 0), Err(u32::MAX));
}

#[test]
fn failed_query_ignores_the_button_word() {
    assert_eq!(read_b_button(1167, 0x2000), Err(1167));
    assert_eq!(read_b_button(1167, 0xFFFF), Err(1167));
}
