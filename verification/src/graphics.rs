use vstd::prelude::*;

verus! {

/// Top pixel row of the command line, one glyph row above the bottom edge.
pub const COMMAND_Y: usize = 464;

/// Number of bytes of the command buffer.
pub const COMMAND_LEN: usize = 310;

/// The sixteen colours of the VGA palette, in palette order.
#[derive(Clone, Copy, Debug, PartialEq, Eq, Structural)]
pub enum Color16 {
    Black,
    Blue,
    Green,
    Cyan,
    Red,
    Magenta,
    Brown,
    LightGrey,
    DarkGrey,
    LightBlue,
    LightGreen,
    LightCyan,
    LightRed,
    Pink,
    Yellow,
    White,
}

/// One operation on the graphics hardware, in the order in which the screen asks for it.
#[derive(Clone, Copy, Debug, PartialEq, Eq, Structural)]
pub enum DrawOp {
    /// Switch the adapter into the 640x480 sixteen-colour mode (and load its palette).
    SetMode,
    /// Fill the whole frame buffer with one colour.
    Clear(Color16),
    /// Set one pixel.
    Pixel { x: usize, y: usize, color: Color16 },
}

/// Whether column `col` (0 is the leftmost) of a glyph row is lit: the most
/// significant bit of the row byte is the leftmost pixel.
pub open spec fn pixel_on(bits: u8, col: usize) -> bool {
    (bits >> ((7 - col) as usize)) & 1u8 == 1u8
}

/// The pixels of the first `n` columns of one glyph row, left to right.
pub open spec fn row_ops(bits: u8, x: int, y: int, color: Color16, n: nat) -> Seq<DrawOp>
    decreases n,
{
    if n == 0 {
        Seq::empty()
    } else {
        let prev = row_ops(bits, x, y, color, (n - 1) as nat);
        if pixel_on(bits, (n - 1) as usize) {
            prev.push(DrawOp::Pixel { x: (x + n - 1) as usize, y: y as usize, color })
        } else {
            prev
        }
    }
}

/// The pixels of the first `n` rows of the glyph whose rows start at `font[base]`, top to bottom.
pub open spec fn glyph_rows(font: Seq<u8>, base: int, x: int, y: int, color: Color16, n: nat) -> Seq<DrawOp>
    decreases n,
{
    if n == 0 {
        Seq::empty()
    } else {
        glyph_rows(font, base, x, y, color, (n - 1) as nat)
            + row_ops(font[base + n - 1], x, y + n - 1, color, 8)
    }
}

/// Whether the font holds all sixteen rows of the glyph of character code `code`.
pub open spec fn has_glyph(font: Seq<u8>, code: int) -> bool {
    16 * code + 16 <= font.len()
}

/// The pixels that drawing character `code` with its top-left corner at `(x, y)` sets:
/// nothing where the font has no glyph for it.
pub open spec fn glyph_ops(font: Seq<u8>, x: int, y: int, code: int, color: Color16) -> Seq<DrawOp> {
    if has_glyph(font, code) {
        glyph_rows(font, 16 * code, x, y, color, 16)
    } else {
        Seq::empty()
    }
}

/// Every lit pixel of the glyph of `code` at `(x, y)` has coordinates that fit in a `usize`.
pub open spec fn glyph_fits(font: Seq<u8>, x: int, y: int, code: int) -> bool {
    has_glyph(font, code) ==> forall|row: int, col: usize|
        #![trigger pixel_on(font[16 * code + row], col)]
        0 <= row < 16 && col < 8 && pixel_on(font[16 * code + row], col)
            ==> x + col <= usize::MAX && y + row <= usize::MAX
}

/// The pixels of the first `n` rows of an 8-pixel-wide block, each row filled left to right.
pub open spec fn block_rows(x: int, y: int, color: Color16, n: nat) -> Seq<DrawOp>
    decreases n,
{
    if n == 0 {
        Seq::empty()
    } else {
        block_rows(x, y, color, (n - 1) as nat) + Seq::new(
            8,
            |col: int| DrawOp::Pixel { x: (x + col) as usize, y: (y + n - 1) as usize, color },
        )
    }
}

/// Next column of the command line after a character: one glyph to the right, back to the
/// first column once past the right edge.
pub open spec fn cmd_inc(x: int) -> int {
    if x + 8 > 640 {
        8
    } else {
        x + 8
    }
}

/// Column of the command line after erasing a character: one glyph to the left, never left
/// of the first column.
pub open spec fn cmd_dec(x: int) -> int {
    if x <= 8 {
        8
    } else {
        x - 8
    }
}

/// Position of the text area after a character: one glyph to the right, or the start of the
/// next text row when the right edge is reached.
pub open spec fn stage_inc(x: int, y: int) -> (int, int) {
    if x + 8 >= 640 {
        (0, y + 16)
    } else {
        (x + 8, y)
    }
}

/// Position of the text area after stepping back, as the stage writer computes it.
pub open spec fn stage_dec(x: int, y: int) -> (int, int) {
    if x == 0 {
        if y < 1 {
            (0, 1)
        } else {
            (0, y - 16)
        }
    } else {
        (x - 16, y)
    }
}

/// Cursor of the command line at the bottom of the screen.
pub struct CommandWriter {
    pub x: usize,
    pub y: usize,
}

impl CommandWriter {
    /// The cursor at the start of an empty command line, right of the prompt.
    pub fn init() -> (w: Self)
        ensures
            w.x == 16,
            w.y == COMMAND_Y,
    {
        Self { x: 16, y: COMMAND_Y }
    }

    /// Advances the cursor by one character.
    pub fn inc(&mut self)
        requires
            old(self).x + 8 <= usize::MAX,
        ensures
            final(self).x == cmd_inc(old(self).x as int),
            final(self).y == old(self).y,
    {
        self.x = self.x + 8;
        if self.x > 640 {
            self.x = 8;
        }
    }

    /// Moves the cursor back by one character.
    pub fn dec(&mut self)
        ensures
            final(self).x == cmd_dec(old(self).x as int),
            final(self).y == old(self).y,
    {
        if self.x <= 8 {
            self.x = 8;
        } else {
            self.x = self.x - 8;
        }
    }
}

/// Cursor of the scrolling text area at the top of the screen.
pub struct StageWriter {
    pub x: usize,
    pub y: usize,
}

impl StageWriter {
    /// The cursor at the top-left corner.
    pub fn init() -> (w: Self)
        ensures
            w.x == 0,
            w.y == 0,
    {
        Self { x: 0, y: 0 }
    }

    /// Advances the cursor by one character, wrapping to the next row at the right edge.
    pub fn inc(&mut self)
        requires
            old(self).x + 8 <= usize::MAX,
            old(self).x + 8 >= 640 ==> old(self).y + 16 <= usize::MAX,
        ensures
            (final(self).x as int, final(self).y as int) == stage_inc(
                old(self).x as int,
                old(self).y as int,
            ),
    {
        self.x = self.x + 8;
        if self.x >= 640 {
            self.x = 0;
            self.y = self.y + 16;
        }
    }

    /// Steps the cursor back.
    pub fn dec(&mut self)
        requires
            old(self).x == 0 && old(self).y >= 1 ==> old(self).y >= 16,
            old(self).x != 0 ==> old(self).x >= 16,
        ensures
            (final(self).x as int, final(self).y as int) == stage_dec(
                old(self).x as int,
                old(self).y as int,
            ),
    {
        if self.x == 0 {
            self.x = 0;
            if self.y < 1 {
                self.y = 1;
            } else {
                self.y = self.y - 16;
            }
        } else {
            self.x = self.x - 16;
        }
    }
}


/// A pixel position.
pub struct Point {
    pub x: usize,
    pub y: usize,
}

/// The mouse pointer: where it was last drawn, and the colour to put back there.
pub struct MousePointer {
    pub loc: Point,
    pub preserved: Option<Color16>,
}

impl Default for MousePointer {
    fn default() -> (p: Self)
        ensures
            p.loc.x == 0,
            p.loc.y == 0,
            p.preserved.is_none(),
    {
        Self { loc: Point { x: 0, y: 0 }, preserved: None }
    }
}

/// What a `Screen` holds, as mathematical values.
pub struct ScreenState {
    pub cmd_x: int,
    pub cmd_y: int,
    pub stage_x: int,
    pub stage_y: int,
    pub command: Seq<u8>,
    pub pointer_x: int,
    pub pointer_y: int,
    pub preserved: Option<Color16>,
    pub font: Seq<u8>,
    /// Hardware operations asked for and not yet taken by the driver.
    pub ops: Seq<DrawOp>,
}

/// A command buffer with every byte zero.
pub open spec fn empty_command() -> Seq<u8> {
    Seq::new(COMMAND_LEN as nat, |i: int| 0u8)
}

impl ScreenState {
    pub open spec fn with_ops(self, ops: Seq<DrawOp>) -> ScreenState {
        ScreenState { ops, ..self }
    }

    /// The cursors stay where the screen's own moves can take them.
    pub open spec fn wf(self) -> bool {
        &&& self.cmd_y == COMMAND_Y
        &&& 8 <= self.cmd_x <= 640
        &&& self.cmd_x % 8 == 0
        &&& 0 <= self.stage_x < 640
        &&& self.stage_x % 8 == 0
        &&& 0 <= self.stage_y <= 448
        &&& self.stage_y % 16 == 0
        &&& self.command.len() == COMMAND_LEN
    }

    /// The screen after a mode switch: cleared to black, empty command line with its `~`
    /// prompt, text cursor at the top-left, no pointer; the font is kept and the operations
    /// are appended to those already asked for.
    pub open spec fn reset(self) -> ScreenState {
        ScreenState {
            cmd_x: 16,
            cmd_y: COMMAND_Y as int,
            stage_x: 0,
            stage_y: 0,
            command: empty_command(),
            pointer_x: 0,
            pointer_y: 0,
            preserved: None,
            font: self.font,
            ops: self.ops + seq![DrawOp::SetMode, DrawOp::Clear(Color16::Black)] + glyph_ops(
                self.font,
                0,
                COMMAND_Y as int,
                '~' as int,
                Color16::Pink,
            ),
        }
    }

    /// Effect of writing one byte to the text area.
    pub open spec fn put(self, ch: u8, fg: Color16) -> ScreenState {
        if ch == 0 {
            self
        } else {
            let s = if self.stage_y >= COMMAND_Y - 16 {
                self.reset()
            } else {
                self
            };
            if ch == 10 {
                ScreenState { stage_x: 0, stage_y: s.stage_y + 16, ..s }
            } else {
                let (nx, ny) = stage_inc(s.stage_x, s.stage_y);
                ScreenState {
                    stage_x: nx,
                    stage_y: ny,
                    ops: s.ops + glyph_ops(s.font, s.stage_x, s.stage_y, ch as int, fg),
                    ..s
                }
            }
        }
    }

    /// Effect of writing a byte string to the text area.
    pub open spec fn written(self, buf: Seq<u8>, fg: Color16) -> ScreenState
        decreases buf.len(),
    {
        if buf.len() == 0 {
            self
        } else {
            self.written(buf.drop_last(), fg).put(buf.last(), fg)
        }
    }

    /// Effect of typing one byte on the command line.
    pub open spec fn typed(self, ch: u8) -> ScreenState {
        ScreenState {
            cmd_x: cmd_inc(self.cmd_x),
            command: self.command.update(self.cmd_x, ch),
            ops: self.ops + glyph_ops(self.font, self.cmd_x, self.cmd_y, ch as int, Color16::White),
            ..self
        }
    }

    /// Effect of erasing the last character of the command line.
    pub open spec fn popped(self) -> ScreenState {
        let x = cmd_dec(self.cmd_x);
        ScreenState {
            cmd_x: x,
            ops: self.ops + block_rows(x, self.cmd_y, Color16::Black, 16),
            ..self
        }
    }

    /// Effect of `n` erasures.
    pub open spec fn popped_n(self, n: nat) -> ScreenState
        decreases n,
    {
        if n == 0 {
            self
        } else {
            self.popped_n((n - 1) as nat).popped()
        }
    }

    /// Effect of clearing the command line: erase back to the first column, once more, and
    /// zero the command buffer.
    pub open spec fn cleared(self) -> ScreenState {
        ScreenState {
            command: empty_command(),
            ..self.popped_n(((self.cmd_x - 8) / 8 + 1) as nat)
        }
    }
}

/// The 640x480 graphics console: a scrolling text area, a command line at the bottom and a
/// mouse pointer. It draws by appending hardware operations to a queue that the driver
/// takes with `take_ops` and carries out in order.
pub struct Screen {
    cmd: CommandWriter,
    pub curr_command: [u8; 310],
    stage: StageWriter,
    pointer: MousePointer,
    font: Vec<u8>,
    ops: Vec<DrawOp>,
}

impl View for Screen {
    type V = ScreenState;

    closed spec fn view(&self) -> ScreenState {
        ScreenState {
            cmd_x: self.cmd.x as int,
            cmd_y: self.cmd.y as int,
            stage_x: self.stage.x as int,
            stage_y: self.stage.y as int,
            command: self.curr_command@,
            pointer_x: self.pointer.loc.x as int,
            pointer_y: self.pointer.loc.y as int,
            preserved: self.pointer.preserved,
            font: self.font@,
            ops: self.ops@,
        }
    }
}

proof fn lemma_small_glyph_fits(font: Seq<u8>, x: int, y: int, code: int)
    requires
        0 <= x <= 640,
        0 <= y <= 480,
    ensures
        glyph_fits(font, x, y, code),
{
}

impl Screen {
    /// A screen drawing with the given bitmap font (sixteen bytes per character code):
    /// its operations switch the mode, clear to black and draw the `~` prompt.
    pub fn new(font: Vec<u8>) -> (s: Self)
        ensures
            s@ == (ScreenState {
                cmd_x: 0,
                cmd_y: 0,
                stage_x: 0,
                stage_y: 0,
                command: empty_command(),
                pointer_x: 0,
                pointer_y: 0,
                preserved: None,
                font: font@,
                ops: Seq::empty(),
            }).reset(),
            s@.wf(),
    {
        let mut screen = Screen {
            cmd: CommandWriter::init(),
            curr_command: [0u8; 310],
            stage: StageWriter::init(),
            pointer: MousePointer::default(),
            font,
            ops: Vec::new(),
        };
        screen.reset();
        screen
    }

    fn reset(&mut self)
        ensures
            final(self)@ == old(self)@.reset(),
    {
        self.cmd = CommandWriter::init();
        self.stage = StageWriter::init();
        self.pointer = MousePointer::default();
        self.curr_command = [0u8; 310];
        let ghost s0 = old(self)@;
        self.ops.push(DrawOp::SetMode);
        self.ops.push(DrawOp::Clear(Color16::Black));
        assert(self.ops@ =~= s0.ops + seq![DrawOp::SetMode, DrawOp::Clear(Color16::Black)]);
        proof {
            lemma_small_glyph_fits(self@.font, 0, COMMAND_Y as int, '~' as int);
        }
        self.draw_character(0, COMMAND_Y, '~', Color16::Pink);
        assert(self.curr_command@ =~= empty_command());
    }

    /// Draws the glyph of `ch` with its top-left corner at `(x, y)`; a character without a
    /// glyph in the font draws nothing.
    pub fn draw_character(&mut self, x: usize, y: usize, ch: char, color: Color16)
        requires
            glyph_fits(old(self)@.font, x as int, y as int, ch as int),
        ensures
            final(self)@ == old(self)@.with_ops(
                old(self)@.ops + glyph_ops(old(self)@.font, x as int, y as int, ch as int, color),
            ),
    {
        let ghost s0 = self@;
        let font_i: usize = 16 * (ch as usize);
        if font_i + 16 <= self.font.len() {
            let mut row: usize = 0;
            while row < 16
                invariant
                    s0 == old(self)@,
                    row <= 16,
                    font_i == 16 * (ch as int),
                    font_i + 16 <= self.font@.len(),
                    glyph_fits(s0.font, x as int, y as int, ch as int),
                    self@ == s0.with_ops(
                        s0.ops + glyph_rows(s0.font, font_i as int, x as int, y as int, color, row as nat),
                    ),
                decreases 16 - row,
            {
                let row_data = self.font[font_i + row];
                let ghost before = self.ops@;
                let mut col: usize = 0;
                while col < 8
                    invariant
                        s0 == old(self)@,
                        row < 16,
                        col <= 8,
                        font_i == 16 * (ch as int),
                        font_i + 16 <= self.font@.len(),
                        row_data == s0.font[font_i + row],
                        before == s0.ops + glyph_rows(s0.font, font_i as int, x as int, y as int, color, row as nat),
                        glyph_fits(s0.font, x as int, y as int, ch as int),
                        self@ == s0.with_ops(
                            before + row_ops(row_data, x as int, (y + row) as int, color, col as nat),
                        ),
                    decreases 8 - col,
                {
                    if (row_data >> (7 - col)) & 1 == 1 {
                        assert(pixel_on(s0.font[16 * (ch as int) + row], col));
                        self.ops.push(DrawOp::Pixel { x: x + col, y: y + row, color });
                    }
                    col = col + 1;
                }
                row = row + 1;
                assert(glyph_rows(s0.font, font_i as int, x as int, y as int, color, row as nat)
                    == glyph_rows(s0.font, font_i as int, x as int, y as int, color, (row - 1) as nat)
                        + row_ops(row_data, x as int, (y + row - 1) as int, color, 8));
                assert(s0.ops + glyph_rows(s0.font, font_i as int, x as int, y as int, color, row as nat)
                    =~= before + row_ops(row_data, x as int, (y + row - 1) as int, color, 8));
            }
        }
    }

    /// Writes a byte string to the text area in colour `fg`. Zero bytes are skipped; a
    /// newline moves to the start of the next text row; any other byte draws its glyph and
    /// advances the cursor. Before each non-zero byte, a cursor that has reached the row
    /// above the command line resets the whole screen.
    pub fn write(&mut self, buf: &[u8], fg: Color16)
        requires
            old(self)@.wf(),
        ensures
            final(self)@ == old(self)@.written(buf@, fg),
            final(self)@.wf(),
    {
        let ghost s0 = self@;
        let mut i: usize = 0;
        while i < buf.len()
            invariant
                s0 == old(self)@,
                i <= buf@.len(),
                self@ == s0.written(buf@.take(i as int), fg),
                self@.wf(),
            decreases buf@.len() - i,
        {
            let ch = buf[i];
            let ghost before = self@;
            if ch != 0 {
                if self.stage.y >= COMMAND_Y - 16 {
                    self.reset();
                }
                if ch == 10u8 {
                    self.stage.x = 0;
                    self.stage.y = self.stage.y + 16;
                } else {
                    let x = self.stage.x;
                    let y = self.stage.y;
                    proof {
                        lemma_small_glyph_fits(self@.font, x as int, y as int, ch as int);
                    }
                    self.draw_character(x, y, ch as char, fg);
                    self.stage.inc();
                }
            }
            assert(self@ == before.put(ch, fg));
            assert(buf@.take(i + 1).drop_last() =~= buf@.take(i as int));
            i = i + 1;
        }
        assert(buf@.take(i as int) =~= buf@);
    }

    /// Types one byte on the command line: draws it in white at the cursor, stores it in
    /// the command buffer at the cursor's column and advances the cursor.
    pub fn write_byte(&mut self, ch: u8)
        requires
            old(self)@.wf(),
            old(self)@.cmd_x < COMMAND_LEN,
        ensures
            final(self)@ == old(self)@.typed(ch),
            final(self)@.wf(),
    {
        let x = self.cmd.x;
        let y = self.cmd.y;
        proof {
            lemma_small_glyph_fits(self@.font, x as int, y as int, ch as int);
        }
        self.draw_character(x, y, ch as char, Color16::White);
        self.curr_command[x] = ch;
        self.cmd.inc();
    }

    /// Erases the last character of the command line: moves the cursor back and paints its
    /// 8x16 cell black.
    pub fn pop(&mut self)
        requires
            old(self)@.wf(),
        ensures
            final(self)@ == old(self)@.popped(),
            final(self)@.wf(),
    {
        let ghost s0 = self@;
        self.cmd.dec();
        let x = self.cmd.x;
        let y = self.cmd.y;
        let ghost s1 = self@;
        let mut row: usize = 0;
        while row < 16
            invariant
                row <= 16,
                x == s1.cmd_x,
                y == s1.cmd_y,
                s1.wf(),
                self@ == s1.with_ops(s1.ops + block_rows(x as int, y as int, Color16::Black, row as nat)),
            decreases 16 - row,
        {
            let ghost before = self.ops@;
            let mut col: usize = 0;
            while col < 8
                invariant
                    row < 16,
                    col <= 8,
                    x == s1.cmd_x,
                    y == s1.cmd_y,
                    s1.wf(),
                    before == s1.ops + block_rows(x as int, y as int, Color16::Black, row as nat),
                    self@ == s1.with_ops(
                        before + Seq::new(
                            col as nat,
                            |c: int| DrawOp::Pixel { x: (x + c) as usize, y: (y + row) as usize, color: Color16::Black },
                        ),
                    ),
                decreases 8 - col,
            {
                self.ops.push(DrawOp::Pixel { x: x + col, y: y + row, color: Color16::Black });
                col = col + 1;
                assert(self.ops@ =~= before + Seq::new(
                    col as nat,
                    |c: int| DrawOp::Pixel { x: (x + c) as usize, y: (y + row) as usize, color: Color16::Black },
                ));
            }
            row = row + 1;
            assert(s1.ops + block_rows(x as int, y as int, Color16::Black, row as nat) =~= before
                + Seq::new(
                8,
                |c: int| DrawOp::Pixel { x: (x + c) as usize, y: (y + row - 1) as usize, color: Color16::Black },
            ));
        }
    }

    /// Empties the command line: erases characters until the cursor is at the first column,
    /// erases once more, and zeroes the command buffer.
    pub fn clear_command(&mut self)
        requires
            old(self)@.wf(),
        ensures
            final(self)@ == old(self)@.cleared(),
            final(self)@.wf(),
            final(self)@.cmd_x == 8,
            final(self)@.command == empty_command(),
    {
        let ghost s0 = self@;
        let ghost mut k: nat = 0;
        while self.cmd.x != 8
            invariant
                s0 == old(self)@,
                s0.wf(),
                self@.wf(),
                self@ == s0.popped_n(k),
                self@.cmd_x == s0.cmd_x - 8 * k,
            decreases self.cmd.x,
        {
            self.pop();
            proof {
                k = k + 1;
            }
        }
        assert(k == (s0.cmd_x - 8) / 8);
        self.pop();
        self.curr_command = [0u8; 310];
        assert(self.curr_command@ =~= empty_command());
    }

    /// Where the pixel under the pointer lies in the planar frame buffer: the byte offset
    /// (eight pixels per byte, 80 bytes per row) and the bit mask of its column in that byte.
    pub fn pointer_probe(x: usize, y: usize) -> (r: (usize, u8))
        requires
            y * 80 + x / 8 <= usize::MAX,
        ensures
            r.0 == x / 8 + y * 80,
            r.1 == (0x80u8 >> ((x % 8) as u8)),
    {
        let offset = x / 8 + y * (640 / 8);
        let k: u8 = (x & 0x07) as u8;
        assert(x & 0x07 == x % 8) by (bit_vector);
        let pixel_mask: u8 = 0x80u8 >> k;
        (offset, pixel_mask)
    }

    /// Moves the pointer to `(x, y)` given the frame buffer's reading there: on a lit pixel
    /// nothing changes; on a black one the pointer remembers black and draws itself in light red.
    pub fn set_mouse(&mut self, x: usize, y: usize, pixel: u8)
        ensures
            pixel != 0 ==> final(self)@ == old(self)@,
            pixel == 0 ==> final(self)@ == (ScreenState {
                pointer_x: x as int,
                pointer_y: y as int,
                preserved: Some(Color16::Black),
                ops: old(self)@.ops.push(DrawOp::Pixel { x, y, color: Color16::LightRed }),
                ..old(self)@
            }),
    {
        if pixel != 0x0 {
            return;
        }
        self.pointer.loc.x = x;
        self.pointer.loc.y = y;
        self.pointer.preserved = Some(Color16::Black);
        self.ops.push(DrawOp::Pixel { x, y, color: Color16::LightRed });
    }

    /// Puts back the colour under the pointer, if the pointer has been drawn.
    pub fn restore_pointer(&mut self)
        ensures
            final(self)@ == (match old(self)@.preserved {
                Some(c) => old(self)@.with_ops(
                    old(self)@.ops.push(DrawOp::Pixel {
                        x: old(self)@.pointer_x as usize,
                        y: old(self)@.pointer_y as usize,
                        color: c,
                    }),
                ),
                None => old(self)@,
            }),
    {
        if let Some(character) = self.pointer.preserved {
            self.ops.push(DrawOp::Pixel { x: self.pointer.loc.x, y: self.pointer.loc.y, color: character });
        }
    }

    /// Hands the queued hardware operations to the driver, oldest first, and empties the queue.
    pub fn take_ops(&mut self) -> (ops: Vec<DrawOp>)
        ensures
            ops@ == old(self)@.ops,
            final(self)@ == old(self)@.with_ops(Seq::empty()),
    {
        let mut ops: Vec<DrawOp> = Vec::new();
        std::mem::swap(&mut ops, &mut self.ops);
        ops
    }

    /// A copy of the command buffer.
    pub fn command(&self) -> (c: [u8; 310])
        ensures
            c@ == self@.command,
    {
        self.curr_command
    }

    /// Column of the command-line cursor.
    pub fn command_x(&self) -> (x: usize)
        ensures
            x == self@.cmd_x,
    {
        self.cmd.x
    }
}


/// Erasing a character right after typing one puts the command-line cursor back where it
/// was, as long as typing did not wrap it around the right edge.
pub proof fn lemma_erase_undoes_type(s: ScreenState, ch: u8)
    requires
        s.wf(),
        s.cmd_x < COMMAND_LEN,
    ensures
        s.typed(ch).popped().cmd_x == s.cmd_x,
        s.typed(ch).popped().command == s.command.update(s.cmd_x, ch),
{
}

/// Stepping the command-line cursor forward and back (or back and forward) is the identity
/// away from the two edges.
pub proof fn lemma_cmd_cursor_inverse(x: int)
    ensures
        8 <= x <= 632 ==> cmd_dec(cmd_inc(x)) == x,
        16 <= x <= 640 ==> cmd_inc(cmd_dec(x)) == x,
{
}

/// Writing two byte strings one after the other draws and moves exactly as writing their
/// concatenation.
pub proof fn lemma_write_concat(s: ScreenState, a: Seq<u8>, b: Seq<u8>, fg: Color16)
    ensures
        s.written(a + b, fg) == s.written(a, fg).written(b, fg),
    decreases b.len(),
{
    if b.len() == 0 {
        assert(a + b =~= a);
    } else {
        lemma_write_concat(s, a, b.drop_last(), fg);
        assert((a + b).drop_last() =~= a + b.drop_last());
        assert((a + b).last() == b.last());
    }
}

/// A glyph row lights column `col` exactly when bit `7 - col` of its byte is set: the most
/// significant bit is the leftmost pixel and the least significant the rightmost.
pub proof fn lemma_pixel_on_bits(bits: u8)
    ensures
        pixel_on(bits, 0) == (bits & 0x80 != 0),
        pixel_on(bits, 1) == (bits & 0x40 != 0),
        pixel_on(bits, 2) == (bits & 0x20 != 0),
        pixel_on(bits, 3) == (bits & 0x10 != 0),
        pixel_on(bits, 4) == (bits & 0x08 != 0),
        pixel_on(bits, 5) == (bits & 0x04 != 0),
        pixel_on(bits, 6) == (bits & 0x02 != 0),
        pixel_on(bits, 7) == (bits & 0x01 != 0),
{
    assert({
        &&& ((bits >> 7usize) & 1u8 == 1u8) == (bits & 0x80 != 0)
        &&& ((bits >> 6usize) & 1u8 == 1u8) == (bits & 0x40 != 0)
        &&& ((bits >> 5usize) & 1u8 == 1u8) == (bits & 0x20 != 0)
        &&& ((bits >> 4usize) & 1u8 == 1u8) == (bits & 0x10 != 0)
        &&& ((bits >> 3usize) & 1u8 == 1u8) == (bits & 0x08 != 0)
        &&& ((bits >> 2usize) & 1u8 == 1u8) == (bits & 0x04 != 0)
        &&& ((bits >> 1usize) & 1u8 == 1u8) == (bits & 0x02 != 0)
        &&& ((bits >> 0usize) & 1u8 == 1u8) == (bits & 0x01 != 0)
    }) by (bit_vector);
}

/// An erased cell is painted row by row, each row left to right: 16 rows of 8 pixels, the
/// first at the cell's top-left corner.
pub proof fn lemma_block_rows(x: int, y: int, color: Color16, n: nat)
    ensures
        block_rows(x, y, color, n).len() == 8 * n,
        n > 0 ==> block_rows(x, y, color, n)[0] == (DrawOp::Pixel { x: x as usize, y: y as usize, color }),
        forall|r: int, c: int| 0 <= r < n && 0 <= c < 8 ==> #[trigger] block_rows(x, y, color, n)[8 * r + c]
            == (DrawOp::Pixel { x: (x + c) as usize, y: (y + r) as usize, color }),
    decreases n,
{
    if n > 0 {
        let m = (n - 1) as nat;
        lemma_block_rows(x, y, color, m);
        let b = block_rows(x, y, color, n);
        assert forall|r: int, c: int| 0 <= r < n && 0 <= c < 8 implies #[trigger] b[8 * r + c]
            == (DrawOp::Pixel { x: (x + c) as usize, y: (y + r) as usize, color }) by {
            if r < m {
                assert(b[8 * r + c] == block_rows(x, y, color, m)[8 * r + c]);
            }
        }
        if m > 0 {
            assert(b[0] == block_rows(x, y, color, m)[0]);
            assert(block_rows(x, y, color, m)[8 * 0int + 0int] == (DrawOp::Pixel { x: (x + 0) as usize, y: (y + 0) as usize, color }));
        }
    }
}

/// Writing keeps the cursors where the screen's own moves can take them.
pub proof fn lemma_written_wf(s: ScreenState, buf: Seq<u8>, fg: Color16)
    requires
        s.wf(),
    ensures
        s.written(buf, fg).wf(),
    decreases buf.len(),
{
    if buf.len() > 0 {
        lemma_written_wf(s, buf.drop_last(), fg);
    }
}

/// Whether `t` has the command line, command buffer, pointer and font of `s`.
pub open spec fn same_console(s: ScreenState, t: ScreenState) -> bool {
    &&& t.cmd_x == s.cmd_x
    &&& t.cmd_y == s.cmd_y
    &&& t.command == s.command
    &&& t.pointer_x == s.pointer_x
    &&& t.pointer_y == s.pointer_y
    &&& t.preserved == s.preserved
    &&& t.font == s.font
}

/// Writing to the text area never touches the command line, the command buffer or the
/// pointer, unless it resets the screen, in which case they are those of a fresh screen:
/// after a write they are either unchanged or reset, and the font is always kept.
pub proof fn lemma_write_keeps_console(s: ScreenState, buf: Seq<u8>, fg: Color16)
    ensures
        same_console(s, s.written(buf, fg)) || same_console(s.reset(), s.written(buf, fg)),
        s.written(buf, fg).font == s.font,
    decreases buf.len(),
{
    if buf.len() > 0 {
        lemma_write_keeps_console(s, buf.drop_last(), fg);
    }
}

proof fn lemma_popped_n(s: ScreenState, n: nat)
    requires
        s.wf(),
    ensures
        s.popped_n(n).wf(),
        s.popped_n(n).cmd_x == if s.cmd_x - 8 * n >= 8 {
            s.cmd_x - 8 * n
        } else {
            8
        },
    decreases n,
{
    if n > 0 {
        lemma_popped_n(s, (n - 1) as nat);
    }
}

/// Clearing the command line always leaves it empty with the cursor at the first column.
pub proof fn lemma_cleared_is_empty(s: ScreenState)
    requires
        s.wf(),
    ensures
        s.cleared().wf(),
        s.cleared().cmd_x == 8,
        s.cleared().command == empty_command(),
{
    lemma_popped_n(s, ((s.cmd_x - 8) / 8 + 1) as nat);
}

/// Zero bytes are skipped: writing only zero bytes changes nothing.
pub proof fn lemma_zero_bytes_skipped(s: ScreenState, buf: Seq<u8>, fg: Color16)
    requires
        forall|i: int| 0 <= i < buf.len() ==> buf[i] == 0,
    ensures
        s.written(buf, fg) == s,
    decreases buf.len(),
{
    if buf.len() > 0 {
        lemma_zero_bytes_skipped(s, buf.drop_last(), fg);
    }
}

} // verus!
