use vstd::prelude::*;
use crate::graphics::{Color16, DrawOp, Screen, ScreenState, COMMAND_LEN, COMMAND_Y};

verus! {

/// What a key press means to the console.
#[derive(Clone, Copy, Debug, PartialEq, Eq, Structural)]
pub enum Input {
    /// A genuine character key.
    Key(u8),
    Enter,
    Esc,
}

/// Characters of set-1 scancodes 0x01 to 0x0D: escape, the digit row, `-` and `=`.
pub open spec fn digit_row() -> Seq<u8> {
    seq![0x1Bu8, 0x31, 0x32, 0x33, 0x34, 0x35, 0x36, 0x37, 0x38, 0x39, 0x30, 0x2D, 0x3D]
}

/// Characters of scancodes 0x0F to 0x1B: tab, `qwertyuiop`, `[` and `]`.
pub open spec fn top_row() -> Seq<u8> {
    seq![0x09u8, 0x71, 0x77, 0x65, 0x72, 0x74, 0x79, 0x75, 0x69, 0x6F, 0x70, 0x5B, 0x5D]
}

/// Characters of scancodes 0x1E to 0x28: `asdfghjkl`, `;` and `'`.
pub open spec fn home_row() -> Seq<u8> {
    seq![0x61u8, 0x73, 0x64, 0x66, 0x67, 0x68, 0x6A, 0x6B, 0x6C, 0x3B, 0x27]
}

/// Characters of scancodes 0x2C to 0x35: `zxcvbnm`, `,`, `.` and `/`.
pub open spec fn bottom_row() -> Seq<u8> {
    seq![0x7Au8, 0x78, 0x63, 0x76, 0x62, 0x6E, 0x6D, 0x2C, 0x2E, 0x2F]
}

/// The meaning of a make code of scancode set 1 on a US layout, if it has one.
pub open spec fn input_of(scancode: u8) -> Option<Input> {
    let i = scancode as int;
    if 0x01 <= i <= 0x0D {
        Some(Input::Key(digit_row()[i - 0x01]))
    } else if 0x0F <= i <= 0x1B {
        Some(Input::Key(top_row()[i - 0x0F]))
    } else if i == 0x1C {
        Some(Input::Enter)
    } else if 0x1E <= i <= 0x28 {
        Some(Input::Key(home_row()[i - 0x1E]))
    } else if 0x2C <= i <= 0x35 {
        Some(Input::Key(bottom_row()[i - 0x2C]))
    } else if i == 0x39 {
        Some(Input::Key(0x20))
    } else {
        None
    }
}

/// Translates a scancode into the key it stands for.
pub fn scancode_to_input(scancode: u8) -> (r: Option<Input>)
    ensures
        r == input_of(scancode),
{
    let idx = scancode as usize;
    if 0x01 <= scancode && scancode <= 0x0D {
        let row: [u8; 13] = [0x1B, 0x31, 0x32, 0x33, 0x34, 0x35, 0x36, 0x37, 0x38, 0x39, 0x30, 0x2D, 0x3D];
        assert(row@ =~= digit_row());
        Some(Input::Key(row[idx - 0x01]))
    } else if 0x0F <= scancode && scancode <= 0x1B {
        let row: [u8; 13] = [0x09, 0x71, 0x77, 0x65, 0x72, 0x74, 0x79, 0x75, 0x69, 0x6F, 0x70, 0x5B, 0x5D];
        assert(row@ =~= top_row());
        Some(Input::Key(row[idx - 0x0F]))
    } else if scancode == 0x1C {
        Some(Input::Enter)
    } else if 0x1E <= scancode && scancode <= 0x28 {
        let row: [u8; 11] = [0x61, 0x73, 0x64, 0x66, 0x67, 0x68, 0x6A, 0x6B, 0x6C, 0x3B, 0x27];
        assert(row@ =~= home_row());
        Some(Input::Key(row[idx - 0x1E]))
    } else if 0x2C <= scancode && scancode <= 0x35 {
        let row: [u8; 10] = [0x7A, 0x78, 0x63, 0x76, 0x62, 0x6E, 0x6D, 0x2C, 0x2E, 0x2F];
        assert(row@ =~= bottom_row());
        Some(Input::Key(row[idx - 0x2C]))
    } else if scancode == 0x39 {
        Some(Input::Key(0x20))
    } else {
        None
    }
}

/// Scancode of the backspace key.
pub const BACKSPACE: u8 = 0x0E;

/// What a scancode does to the console: backspace erases, Enter echoes the command buffer
/// to the text area in white and clears the command line, a character key types its
/// character, anything else is ignored.
pub open spec fn key_effect(s: ScreenState, c: u8) -> ScreenState {
    if c == BACKSPACE {
        s.popped()
    } else {
        match input_of(c) {
            Some(Input::Enter) => s.written(s.command, Color16::White).cleared(),
            Some(Input::Key(ch)) => s.typed(ch),
            _ => s,
        }
    }
}

/// Whether a scancode types a character on the command line.
pub open spec fn types_character(c: u8) -> bool {
    c != BACKSPACE && input_of(c) matches Some(Input::Key(_))
}

/// Acts on one scancode read from the keyboard's data port. A character key needs the
/// command-line cursor inside the command buffer.
pub fn handle_scancode(screen: &mut Screen, c: u8)
    requires
        old(screen)@.wf(),
        types_character(c) ==> old(screen)@.cmd_x < COMMAND_LEN,
    ensures
        final(screen)@ == key_effect(old(screen)@, c),
        final(screen)@.wf(),
{
    if c == BACKSPACE {
        screen.pop();
    } else if let Some(input) = scancode_to_input(c) {
        match input {
            Input::Enter => {
                let cmd = screen.command();
                screen.write(&cmd, Color16::White);
                screen.clear_command();
            },
            Input::Key(ch) => screen.write_byte(ch),
            _ => (),
        }
    }
}

/// The US layout, key by key: each make code of set 1 and the character it types.
pub proof fn lemma_us_layout()
    ensures
        input_of(0x01) == Some(Input::Key(0x1Bu8)),
        input_of(0x02) == Some(Input::Key('1' as u8)),
        input_of(0x03) == Some(Input::Key('2' as u8)),
        input_of(0x04) == Some(Input::Key('3' as u8)),
        input_of(0x05) == Some(Input::Key('4' as u8)),
        input_of(0x06) == Some(Input::Key('5' as u8)),
        input_of(0x07) == Some(Input::Key('6' as u8)),
        input_of(0x08) == Some(Input::Key('7' as u8)),
        input_of(0x09) == Some(Input::Key('8' as u8)),
        input_of(0x0A) == Some(Input::Key('9' as u8)),
        input_of(0x0B) == Some(Input::Key('0' as u8)),
        input_of(0x0C) == Some(Input::Key('-' as u8)),
        input_of(0x0D) == Some(Input::Key('=' as u8)),
        input_of(0x0F) == Some(Input::Key('\t' as u8)),
        input_of(0x10) == Some(Input::Key('q' as u8)),
        input_of(0x11) == Some(Input::Key('w' as u8)),
        input_of(0x12) == Some(Input::Key('e' as u8)),
        input_of(0x13) == Some(Input::Key('r' as u8)),
        input_of(0x14) == Some(Input::Key('t' as u8)),
        input_of(0x15) == Some(Input::Key('y' as u8)),
        input_of(0x16) == Some(Input::Key('u' as u8)),
        input_of(0x17) == Some(Input::Key('i' as u8)),
        input_of(0x18) == Some(Input::Key('o' as u8)),
        input_of(0x19) == Some(Input::Key('p' as u8)),
        input_of(0x1A) == Some(Input::Key('[' as u8)),
        input_of(0x1B) == Some(Input::Key(']' as u8)),
        input_of(0x1E) == Some(Input::Key('a' as u8)),
        input_of(0x1F) == Some(Input::Key('s' as u8)),
        input_of(0x20) == Some(Input::Key('d' as u8)),
        input_of(0x21) == Some(Input::Key('f' as u8)),
        input_of(0x22) == Some(Input::Key('g' as u8)),
        input_of(0x23) == Some(Input::Key('h' as u8)),
        input_of(0x24) == Some(Input::Key('j' as u8)),
        input_of(0x25) == Some(Input::Key('k' as u8)),
        input_of(0x26) == Some(Input::Key('l' as u8)),
        input_of(0x27) == Some(Input::Key(';' as u8)),
        input_of(0x28) == Some(Input::Key('\'' as u8)),
        input_of(0x2C) == Some(Input::Key('z' as u8)),
        input_of(0x2D) == Some(Input::Key('x' as u8)),
        input_of(0x2E) == Some(Input::Key('c' as u8)),
        input_of(0x2F) == Some(Input::Key('v' as u8)),
        input_of(0x30) == Some(Input::Key('b' as u8)),
        input_of(0x31) == Some(Input::Key('n' as u8)),
        input_of(0x32) == Some(Input::Key('m' as u8)),
        input_of(0x33) == Some(Input::Key(',' as u8)),
        input_of(0x34) == Some(Input::Key('.' as u8)),
        input_of(0x35) == Some(Input::Key('/' as u8)),
        input_of(0x1C) == Some(Input::Enter),
        input_of(0x39) == Some(Input::Key(' ' as u8)),
{
    assert(digit_row() =~= seq![0x1Bu8, 0x31, 0x32, 0x33, 0x34, 0x35, 0x36, 0x37, 0x38, 0x39, 0x30, 0x2D, 0x3D]);
}

/// Scancodes outside the four character rows, Enter and the space bar mean nothing.
pub proof fn lemma_unmapped_scancodes(c: u8)
    requires
        c == 0 || c == 0x0E || c == 0x1D || (0x29 <= c <= 0x2B) || (0x36 <= c <= 0x38) || c >= 0x3A,
    ensures
        input_of(c).is_none(),
{
}

/// Every character key types its character: it is stored at the command cursor, every other
/// byte of the command buffer is kept, and the cursor moves one glyph right (back to the first
/// column past the right edge). The space bar types a space.
pub proof fn lemma_character_key_types(s: ScreenState, c: u8, ch: u8)
    requires
        s.wf(),
        s.cmd_x < COMMAND_LEN,
        input_of(c) == Some(Input::Key(ch)),
    ensures
        key_effect(s, c) == s.typed(ch),
        key_effect(s, c).command[s.cmd_x] == ch,
        forall|i: int| 0 <= i < COMMAND_LEN && i != s.cmd_x ==> #[trigger] key_effect(s, c).command[i] == s.command[i],
        key_effect(s, c).command.len() == COMMAND_LEN,
        key_effect(s, c).cmd_x == if s.cmd_x + 8 > 640 { 8 } else { s.cmd_x + 8 },
        key_effect(s, c).stage_x == s.stage_x && key_effect(s, c).stage_y == s.stage_y,
        c == 0x39 ==> key_effect(s, c).command[s.cmd_x] == ' ' as u8 && key_effect(s, c).cmd_x == s.cmd_x + 8,
{
    assert(c != BACKSPACE);
}

/// Backspace moves the command cursor one glyph left (never left of the first column),
/// paints the cell it lands on black, and keeps the command buffer.
pub proof fn lemma_backspace_erases(s: ScreenState)
    requires
        s.wf(),
    ensures
        key_effect(s, BACKSPACE).cmd_x == if s.cmd_x > 8 { s.cmd_x - 8 } else { 8 },
        key_effect(s, BACKSPACE).command == s.command,
        key_effect(s, BACKSPACE).ops.len() == s.ops.len() + 128,
        key_effect(s, BACKSPACE).ops[s.ops.len() as int] == (DrawOp::Pixel {
            x: key_effect(s, BACKSPACE).cmd_x as usize,
            y: COMMAND_Y,
            color: Color16::Black,
        }),
{
    crate::graphics::lemma_block_rows(key_effect(s, BACKSPACE).cmd_x, s.cmd_y, Color16::Black, 16);
}

/// Enter echoes the command and always leaves an empty command line with the cursor at its
/// first column.
pub proof fn lemma_enter_clears_command(s: ScreenState)
    requires
        s.wf(),
    ensures
        key_effect(s, 0x1C).cmd_x == 8,
        key_effect(s, 0x1C).command == crate::graphics::empty_command(),
        key_effect(s, 0x1C).wf(),
{
    crate::graphics::lemma_written_wf(s, s.command, Color16::White);
    crate::graphics::lemma_cleared_is_empty(s.written(s.command, Color16::White));
}

} // verus!
