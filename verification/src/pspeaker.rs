use vstd::prelude::*;
use crate::port::{pw, PortWrite};

verus! {

/// Input clock of the programmable interval timer, in hertz.
pub const PIT_FREQUENCY: u32 = 1193180;

/// Mode/command port of the timer.
pub const PIT_COMMAND: u16 = 0x43;

/// Data port of timer channel 2, which drives the speaker.
pub const PIT_CHANNEL2: u16 = 0x42;

/// Keyboard-controller port B, whose two low bits gate the speaker.
pub const SPEAKER_PORT: u16 = 0x61;

/// The timer writes that tune channel 2 to `freq` hertz: square-wave mode, then the reload
/// value's low and high byte.
pub open spec fn tone_writes(freq: u32) -> Seq<PortWrite> {
    let reload = PIT_FREQUENCY as int / freq as int;
    seq![
        pw(PIT_COMMAND, 0xb6),
        pw(PIT_CHANNEL2, (reload % 0x100) as u8),
        pw(PIT_CHANNEL2, ((reload / 0x100) % 0x100) as u8),
    ]
}

/// Computes the timer writes of a beep at `freq` hertz.
pub fn beep(freq: u32) -> (ws: Vec<PortWrite>)
    requires
        freq != 0,
    ensures
        ws@ == tone_writes(freq),
{
    let reload: u32 = PIT_FREQUENCY / freq;
    let lo = reload as u8;
    let hi = (reload >> 8u32) as u8;
    assert(reload as u8 == reload % 0x100) by (bit_vector);
    assert((reload >> 8u32) as u8 == (reload / 0x100) % 0x100) by (bit_vector);
    let mut ws: Vec<PortWrite> = Vec::new();
    ws.push(PortWrite::new(PIT_COMMAND, 0xb6));
    ws.push(PortWrite::new(PIT_CHANNEL2, lo));
    ws.push(PortWrite::new(PIT_CHANNEL2, hi));
    assert(ws@ =~= tone_writes(freq));
    ws
}

/// The value to write to port B to connect the speaker, given its current value: none when
/// both gate bits are already set.
pub fn speaker_on(status: u8) -> (r: Option<u8>)
    ensures
        r == if status & 3 == 3 {
            None
        } else {
            Some(status | 3)
        },
{
    assert((status != status | 3) == (status & 3 != 3)) by (bit_vector);
    if status != status | 3 {
        Some(status | 3)
    } else {
        None
    }
}

/// The value to write to port B to disconnect the speaker: both gate bits cleared.
pub fn speaker_off(status: u8) -> (r: u8)
    ensures
        r == status & 0xFC,
{
    status & 0xFC
}

/// A beep sets channel 2 to square-wave mode (0xB6: channel 2, low then high byte, mode 3)
/// and loads the divisor that makes `freq` hertz from the 1193180 Hz timer clock, low byte
/// first: the two bytes give back `1193180 / freq` (which fits in 16 bits from 19 Hz up).
pub proof fn lemma_tone_divisor(freq: u32)
    requires
        freq != 0,
    ensures
        tone_writes(freq).len() == 3,
        tone_writes(freq)[0] == pw(0x43, 0xB6),
        tone_writes(freq)[1].port == 0x42 && tone_writes(freq)[2].port == 0x42,
        tone_writes(freq)[1].value as int + 0x100 * tone_writes(freq)[2].value as int == (1193180int / freq as int)
            % 0x1_0000,
{
    let r = 1193180int / freq as int;
    assert(r >= 0) by (nonlinear_arith)
        requires
            freq > 0,
            r == 1193180int / freq as int,
    ;
}

/// Connecting the speaker sets both gate bits and keeps the others; disconnecting clears them
/// and keeps the others.
pub proof fn lemma_speaker_gate_bits(status: u8)
    ensures
        (status | 3) & 3 == 3,
        (status | 3) & 0xFC == status & 0xFC,
        (status & 0xFC) & 3 == 0,
        (status & 0xFC) | (status & 3) == status,
{
    assert((status | 3) & 3 == 3) by (bit_vector);
    assert((status | 3) & 0xFC == status & 0xFC) by (bit_vector);
    assert((status & 0xFC) & 3 == 0) by (bit_vector);
    assert((status & 0xFC) | (status & 3) == status) by (bit_vector);
}

} // verus!
