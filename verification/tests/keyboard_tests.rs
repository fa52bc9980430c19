use rkernel::graphics::{Color16, DrawOp, Screen};
use rkernel::keyboard::{handle_scancode, scancode_to_input, Input, BACKSPACE};

#[test]
fn scancodes_map_to_us_layout() {
    assert_eq!(scancode_to_input(0x01), Some(Input::Key(0x1B)));
    assert_eq!(scancode_to_input(0x02), Some(Input::Key(b'1')));
    assert_eq!(scancode_to_input(0x0B), Some(Input::Key(b'0')));
    assert_eq!(scancode_to_input(0x0D), Some(Input::Key(b'=')));
    assert_eq!(scancode_to_input(0x0F), Some(Input::Key(b'\t')));
    assert_eq!(scancode_to_input(0x10), Some(Input::Key(b'q')));
    assert_eq!(scancode_to_input(0x1B), Some(Input::Key(b']')));
    assert_eq!(scancode_to_input(0x1C), Some(Input::Enter));
    assert_eq!(scancode_to_input(0x1E), Some(Input::Key(b'a')));
    assert_eq!(scancode_to_input(0x28), Some(Input::Key(b'\'')));
    assert_eq!(scancode_to_input(0x2C), Some(Input::Key(b'z')));
    assert_eq!(scancode_to_input(0x35), Some(Input::Key(b'/')));
    assert_eq!(scancode_to_input(0x39), Some(Input::Key(b' ')));
}

#[test]
fn unmapped_scancodes_give_nothing() {
    for code in [0x00u8, 0x0E, 0x1D, 0x29, 0x2A, 0x2B, 0x36, 0x38, 0x3A, 0x81, 0xFF] {
        assert_eq!(scancode_to_input(code), None);
    }
}

fn font() -> Vec<u8> {
    vec![0xFFu8; 16 * 128]
}

#[test]
fn key_types_and_backspace_erases() {
    let mut s = Screen::new(font());
    s.take_ops();
    handle_scancode(&mut s, 0x1E);
    assert_eq!(s.command()[16], b'a');
    assert_eq!(s.command_x(), 24);
    assert_eq!(s.take_ops().len(), 128);
    handle_scancode(&mut s, BACKSPACE);
    assert_eq!(s.command_x(), 16);
    let ops = s.take_ops();
    assert_eq!(ops[0], DrawOp::Pixel { x: 16, y: 464, color: Color16::Black });
}

#[test]
fn enter_echoes_and_clears_command() {
    let mut s = Screen::new(font());
    handle_scancode(&mut s, 0x26); // l
    handle_scancode(&mut s, 0x1F); // s
    s.take_ops();
    handle_scancode(&mut s, 0x1C);
    assert_eq!(s.command_x(), 8);
    assert!(s.command().iter().all(|&b| b == 0));
    let ops = s.take_ops();
    // "ls" echoed in white at the top-left, then the line erased: 2 glyphs, 4 erasures
    assert_eq!(ops.len(), 2 * 128 + 4 * 128);
    assert_eq!(ops[0], DrawOp::Pixel { x: 0, y: 0, color: Color16::White });
    assert_eq!(ops[128], DrawOp::Pixel { x: 8, y: 0, color: Color16::White });
}

#[test]
fn ignored_scancode_changes_nothing() {
    let mut s = Screen::new(font());
    s.take_ops();
    handle_scancode(&mut s, 0x3A);
    handle_scancode(&mut s, 0x9E);
    assert!(s.take_ops().is_empty());
    assert_eq!(s.command_x(), 16);
}
