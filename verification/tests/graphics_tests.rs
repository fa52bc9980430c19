use rkernel::graphics::{Color16, CommandWriter, DrawOp, Screen, StageWriter, COMMAND_Y};

/// A font of 128 glyphs: '~' lights the two outer columns of its first row, 'A' lights the
/// leftmost column of every row, every other glyph is blank.
fn test_font() -> Vec<u8> {
    let mut font = vec![0u8; 16 * 128];
    font[16 * 126] = 0b1000_0001;
    for row in 0..16 {
        font[16 * 65 + row] = 0b1000_0000;
    }
    font
}

fn px(x: usize, y: usize, color: Color16) -> DrawOp {
    DrawOp::Pixel { x, y, color }
}

#[test]
fn new_screen_switches_mode_clears_and_draws_prompt() {
    let mut s = Screen::new(test_font());
    let ops = s.take_ops();
    assert_eq!(
        ops,
        vec![
            DrawOp::SetMode,
            DrawOp::Clear(Color16::Black),
            px(0, COMMAND_Y, Color16::Pink),
            px(7, COMMAND_Y, Color16::Pink),
        ]
    );
    assert_eq!(s.command_x(), 16);
    assert!(s.command().iter().all(|&b| b == 0));
    assert!(s.take_ops().is_empty());
}

#[test]
fn draw_character_lights_set_bits_only() {
    let mut s = Screen::new(test_font());
    s.take_ops();
    s.draw_character(100, 200, 'A', Color16::Yellow);
    let ops = s.take_ops();
    let expected: Vec<DrawOp> = (0..16).map(|row| px(100, 200 + row, Color16::Yellow)).collect();
    assert_eq!(ops, expected);
}

#[test]
fn draw_character_without_glyph_draws_nothing() {
    let mut s = Screen::new(test_font());
    s.take_ops();
    s.draw_character(0, 0, '\u{263A}', Color16::White);
    assert!(s.take_ops().is_empty());
    let mut empty = Screen::new(Vec::new());
    assert_eq!(empty.take_ops(), vec![DrawOp::SetMode, DrawOp::Clear(Color16::Black)]);
}

#[test]
fn write_advances_and_handles_newline_and_zero() {
    let mut s = Screen::new(test_font());
    s.take_ops();
    s.write(b"A\0A\nA", Color16::White);
    let ops = s.take_ops();
    // first glyph at (0,0), second at (8,0), third at the start of the next row (0,16)
    assert_eq!(ops.len(), 48);
    assert_eq!(ops[0], px(0, 0, Color16::White));
    assert_eq!(ops[16], px(8, 0, Color16::White));
    assert_eq!(ops[32], px(0, 16, Color16::White));
    assert_eq!(ops[47], px(0, 31, Color16::White));
}

#[test]
fn write_wraps_at_right_edge() {
    let mut s = Screen::new(test_font());
    s.take_ops();
    let line = vec![b'A'; 81];
    s.write(&line, Color16::White);
    let ops = s.take_ops();
    assert_eq!(ops.len(), 81 * 16);
    assert_eq!(ops[79 * 16], px(632, 0, Color16::White));
    assert_eq!(ops[80 * 16], px(0, 16, Color16::White));
}

#[test]
fn write_resets_screen_above_command_line() {
    let mut s = Screen::new(test_font());
    s.write_byte(b'x');
    s.take_ops();
    let newlines = vec![b'\n'; 28];
    s.write(&newlines, Color16::White);
    assert!(s.take_ops().is_empty());
    s.write(b"A", Color16::Green);
    let ops = s.take_ops();
    assert_eq!(ops[0], DrawOp::SetMode);
    assert_eq!(ops[1], DrawOp::Clear(Color16::Black));
    assert_eq!(ops[2], px(0, COMMAND_Y, Color16::Pink));
    assert_eq!(ops[4], px(0, 0, Color16::Green));
    // the reset also emptied the command line
    assert_eq!(s.command_x(), 16);
    assert_eq!(s.command()[16], 0);
}

#[test]
fn write_byte_types_on_command_line() {
    let mut s = Screen::new(test_font());
    s.take_ops();
    s.write_byte(b'A');
    assert_eq!(s.command()[16], b'A');
    assert_eq!(s.command_x(), 24);
    let ops = s.take_ops();
    assert_eq!(ops.len(), 16);
    assert_eq!(ops[0], px(16, COMMAND_Y, Color16::White));
}

#[test]
fn pop_erases_last_cell() {
    let mut s = Screen::new(test_font());
    s.write_byte(b'A');
    s.take_ops();
    s.pop();
    assert_eq!(s.command_x(), 16);
    let ops = s.take_ops();
    assert_eq!(ops.len(), 128);
    assert_eq!(ops[0], px(16, COMMAND_Y, Color16::Black));
    assert_eq!(ops[7], px(23, COMMAND_Y, Color16::Black));
    assert_eq!(ops[127], px(23, COMMAND_Y + 15, Color16::Black));
    // the typed byte stays in the buffer until the line is cleared
    assert_eq!(s.command()[16], b'A');
}

#[test]
fn pop_stops_at_first_column() {
    let mut s = Screen::new(test_font());
    s.pop();
    s.pop();
    s.pop();
    assert_eq!(s.command_x(), 8);
}

#[test]
fn clear_command_empties_line() {
    let mut s = Screen::new(test_font());
    s.write_byte(b'l');
    s.write_byte(b's');
    s.take_ops();
    s.clear_command();
    assert_eq!(s.command_x(), 8);
    assert!(s.command().iter().all(|&b| b == 0));
    // cursor at 32: erases at 24, 16, 8, then once more at 8
    let ops = s.take_ops();
    assert_eq!(ops.len(), 4 * 128);
    assert_eq!(ops[0], px(24, COMMAND_Y, Color16::Black));
    assert_eq!(ops[128], px(16, COMMAND_Y, Color16::Black));
    assert_eq!(ops[256], px(8, COMMAND_Y, Color16::Black));
    assert_eq!(ops[384], px(8, COMMAND_Y, Color16::Black));
}

#[test]
fn mouse_pointer_draws_and_restores() {
    let mut s = Screen::new(test_font());
    s.take_ops();
    s.restore_pointer();
    assert!(s.take_ops().is_empty());
    s.set_mouse(10, 20, 0x1);
    assert!(s.take_ops().is_empty());
    s.restore_pointer();
    assert!(s.take_ops().is_empty());
    s.set_mouse(10, 20, 0);
    assert_eq!(s.take_ops(), vec![px(10, 20, Color16::LightRed)]);
    s.restore_pointer();
    assert_eq!(s.take_ops(), vec![px(10, 20, Color16::Black)]);
}

#[test]
fn pointer_probe_finds_byte_and_bit() {
    assert_eq!(Screen::pointer_probe(13, 2), (1 + 160, 0x04));
    assert_eq!(Screen::pointer_probe(0, 0), (0, 0x80));
    assert_eq!(Screen::pointer_probe(639, 479), (79 + 479 * 80, 0x01));
}

#[test]
fn command_writer_moves() {
    let mut w = CommandWriter::init();
    assert_eq!((w.x, w.y), (16, 464));
    w.inc();
    assert_eq!(w.x, 24);
    w.x = 640;
    w.inc();
    assert_eq!(w.x, 8);
    w.dec();
    assert_eq!(w.x, 8);
    w.x = 100;
    w.dec();
    assert_eq!(w.x, 92);
}

#[test]
fn command_writer_inc_dec_cancel() {
    for x in (8..=632).step_by(8) {
        let mut w = CommandWriter { x, y: 464 };
        w.inc();
        w.dec();
        assert_eq!(w.x, x);
    }
}

#[test]
fn stage_writer_moves() {
    let mut w = StageWriter::init();
    assert_eq!((w.x, w.y), (0, 0));
    w.inc();
    assert_eq!((w.x, w.y), (8, 0));
    w.x = 632;
    w.inc();
    assert_eq!((w.x, w.y), (0, 16));
    w.dec();
    assert_eq!((w.x, w.y), (0, 0));
    w.dec();
    assert_eq!((w.x, w.y), (0, 1));
    w.x = 32;
    w.dec();
    assert_eq!((w.x, w.y), (16, 1));
}

#[test]
fn writing_in_two_parts_equals_writing_whole() {
    let mut a = Screen::new(test_font());
    let mut b = Screen::new(test_font());
    a.write(b"AA\nA", Color16::Cyan);
    a.write(b"A\n~A", Color16::Cyan);
    b.write(b"AA\nAA\n~A", Color16::Cyan);
    assert_eq!(a.take_ops(), b.take_ops());
}

#[test]
fn writing_only_zero_bytes_changes_nothing() {
    let mut s = Screen::new(test_font());
    s.take_ops();
    s.write(&[0u8; 40], Color16::Red);
    assert!(s.take_ops().is_empty());
    s.write(b"A", Color16::Red);
    assert_eq!(s.take_ops()[0], px(0, 0, Color16::Red));
}

#[test]
fn text_writes_leave_command_line_alone() {
    let mut s = Screen::new(test_font());
    s.write_byte(b'x');
    s.write_byte(b'y');
    s.write(b"AAAA\nAA", Color16::White);
    assert_eq!(s.command_x(), 32);
    assert_eq!(s.command()[16], b'x');
    assert_eq!(s.command()[24], b'y');
}
