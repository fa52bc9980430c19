use vstd::prelude::*;
use crate::port::{pw, PortWrite};

verus! {

/// Reset port of the DSP.
pub const SB_RESET: u16 = 0x226;

/// Read-data port of the DSP.
pub const SB_READ: u16 = 0x22A;

/// Read-buffer status port of the DSP.
pub const SB_READ_STATUS: u16 = 0x22E;

/// Write port of the DSP (its status on read).
pub const SB_WRITE: u16 = 0x22C;

/// Mixer index and data ports.
pub const MIXER_PORT: u16 = 0x224;
pub const MIXER_DATA_PORT: u16 = 0x225;

/// Port whose read acknowledges a 16-bit DSP interrupt.
pub const SB_INTERRUPT_ACK: u16 = 0x22F;

/// DSP command that reports the version.
pub const GET_VERSION: u8 = 0xE1;

/// DSP command that sets the output sample rate.
pub const SET_OUTPUT_RATE: u8 = 0x41;

/// DSP command that ends 16-bit auto-initialised transfer mode.
pub const EXIT_AUTO_DMA_16: u8 = 0xD5;

/// Output sample rate in hertz.
pub const SAMPLE_RATE: u16 = 22050;

/// Size in bytes of the sound buffer played at start-up.
pub const BUFFER_LEN: u32 = 882;

/// Byte the DSP answers a successful reset with.
pub const RESET_ACK: u8 = 0xAA;

/// The write that asks the DSP for its version; the answer, major then minor byte, is then
/// read twice from `SB_READ`.
pub fn version_request() -> (w: PortWrite)
    ensures
        w == pw(SB_WRITE, GET_VERSION),
{
    PortWrite::new(SB_WRITE, GET_VERSION)
}

/// DSP bytes that set the output sample rate: the command, then the rate's high and low bytes.
pub open spec fn sample_rate_bytes_of(freq: u16) -> Seq<u8> {
    seq![SET_OUTPUT_RATE, (freq as int / 0x100) as u8, (freq as int % 0x100) as u8]
}

/// The DSP bytes that `set_sample_rate(freq)` sends.
pub fn set_sample_rate(freq: u16) -> (bs: Vec<u8>)
    ensures
        bs@ == sample_rate_bytes_of(freq),
{
    let hi = ((freq >> 8u16) & 0xFFu16) as u8;
    let lo = (freq & 0xFFu16) as u8;
    assert(((freq >> 8u16) & 0xFFu16) as u8 == freq / 0x100) by (bit_vector);
    assert((freq & 0xFFu16) as u8 == freq % 0x100) by (bit_vector);
    let mut bs: Vec<u8> = Vec::new();
    bs.push(SET_OUTPUT_RATE);
    bs.push(hi);
    bs.push(lo);
    assert(bs@ =~= sample_rate_bytes_of(freq));
    bs
}

/// The sample count sent with the play command: half of a buffer of 22050 * (40 / 1000)
/// bytes, in integer arithmetic, less one.
pub open spec fn sample_count() -> int {
    (SAMPLE_RATE as int * (40int / 1000int)) / 2 - 1
}

/// The DSP bytes sent after the version is read: the sample rate, the 16-bit
/// single-cycle output command 0xB0 with mode 0x10, the low and high byte of the sample count
/// (in two's complement), speaker on (0xD1) and continue (0xD6).
pub open spec fn init_bytes() -> Seq<u8> {
    sample_rate_bytes_of(SAMPLE_RATE) + seq![
        0xB0u8,
        0x10,
        (sample_count() % 0x100) as u8,
        ((sample_count() / 0x100) % 0x100) as u8,
        0xD1,
        0xD6,
    ]
}

/// Computes the DSP bytes of start-up.
pub fn init_commands() -> (bs: Vec<u8>)
    ensures
        bs@ == init_bytes(),
{
    let mut bs = set_sample_rate(SAMPLE_RATE);
    bs.push(0xb0);
    let format: u8 = 0x10u8 | 0x00u8;
    assert((0x10u8 | 0x00u8) == 0x10u8) by (bit_vector);
    bs.push(format);
    let buffer_size: i32 = 22050 * (40 / 1000);
    let samples: i32 = (buffer_size / 2) - 1;
    assert(samples == -1);
    assert(sample_count() == -1);
    let lo: u8 = (#[verifier::truncate] (((samples >> 0i32) & 0xFF) as u8));
    let hi: u8 = (#[verifier::truncate] (((samples >> 8i32) & 0xFF) as u8));
    assert(lo == 0xFF && hi == 0xFF) by (bit_vector)
        requires
            samples == -1i32,
            lo == ((samples >> 0i32) & 0xFF) as u8,
            hi == ((samples >> 8i32) & 0xFF) as u8,
    ;
    assert((sample_count() % 0x100) as u8 == 0xFF);
    assert(((sample_count() / 0x100) % 0x100) as u8 == 0xFF);
    bs.push(lo);
    bs.push(hi);
    bs.push(0xd1);
    bs.push(0xd6);
    assert(bs@ =~= init_bytes());
    bs
}

/// The mixer writes of start-up: select the interrupt setup register and choose IRQ 5.
pub fn mixer_commands() -> (ws: Vec<PortWrite>)
    ensures
        ws@ == seq![pw(MIXER_PORT, 0x80), pw(MIXER_DATA_PORT, 0b10)],
{
    let mut ws: Vec<PortWrite> = Vec::new();
    ws.push(PortWrite::new(MIXER_PORT, 0x80));
    ws.push(PortWrite::new(MIXER_DATA_PORT, 0b10));
    assert(ws@ =~= seq![pw(MIXER_PORT, 0x80), pw(MIXER_DATA_PORT, 0b10)]);
    ws
}

/// The writes to the 16-bit DMA controller that play `len` bytes from physical address
/// `buf` on channel 5: mask the channel, reset the flip-flop, set mode 0x48 (single,
/// memory to device) with the channel, the word offset `(buf / 2) % 65536` low byte first,
/// the count `len - 1` low byte first, the page register, then unmask the channel.
pub open spec fn transfer_writes(buf: usize, len: u32) -> Seq<PortWrite> {
    let offset = (buf as int / 2) % 0x1_0000;
    let count = len as int - 1;
    seq![
        pw(0xD4, 5),
        pw(0xD8, 1),
        pw(0xD6, 0x59),
        pw(0xC4, (offset % 0x100) as u8),
        pw(0xC4, (offset / 0x100) as u8),
        pw(0xC6, (count % 0x100) as u8),
        pw(0xC6, ((count / 0x100) % 0x100) as u8),
        pw(0x8B, ((buf as int / 0x1_0000) % 0x100) as u8),
        pw(0xD4, 1),
    ]
}

/// Computes the DMA writes of a transfer of `len` bytes from address `buf`.
pub fn transfer(buf: usize, len: u32) -> (ws: Vec<PortWrite>)
    requires
        len >= 1,
    ensures
        ws@ == transfer_writes(buf, len),
{
    let mode: u8 = 0x48;
    let channel: u8 = 5;
    let mut ws: Vec<PortWrite> = Vec::new();
    ws.push(PortWrite::new(0xd4, 4 + (channel % 4)));
    ws.push(PortWrite::new(0xd8, 1));
    ws.push(PortWrite::new(0xd6, (channel % 4) | mode | (1u8 << 4u8)));
    assert(((5u8 % 4) | 0x48u8 | (1u8 << 4u8)) == 0x59u8) by (bit_vector);
    let offset: u16 = ((buf / 2) % 65536) as u16;
    let o0 = ((offset >> 0u16) & 0xFFu16) as u8;
    let o1 = ((offset >> 8u16) & 0xFFu16) as u8;
    assert(((offset >> 0u16) & 0xFFu16) as u8 == offset % 0x100) by (bit_vector);
    assert(((offset >> 8u16) & 0xFFu16) as u8 == offset / 0x100) by (bit_vector);
    ws.push(PortWrite::new(0xc4, o0));
    ws.push(PortWrite::new(0xc4, o1));
    let count: u32 = len - 1;
    let c0 = (count & 0xFFu32) as u8;
    let c1 = ((count >> 8u32) & 0xFFu32) as u8;
    assert((count & 0xFFu32) as u8 == count % 0x100) by (bit_vector);
    assert(((count >> 8u32) & 0xFFu32) as u8 == (count / 0x100) % 0x100) by (bit_vector);
    ws.push(PortWrite::new(0xc6, c0));
    ws.push(PortWrite::new(0xc6, c1));
    let page = (buf >> 16usize) as u8;
    assert((buf >> 16usize) as u8 == (buf / 0x1_0000) % 0x100) by (bit_vector);
    ws.push(PortWrite::new(0x8b, page));
    ws.push(PortWrite::new(0xd4, channel % 4));
    assert(ws@ =~= transfer_writes(buf, len));
    ws
}

/// The reset writes: 1 then 0 to the port the driver resets through (its read port).
pub fn reset_commands() -> (ws: Vec<PortWrite>)
    ensures
        ws@ == seq![pw(SB_READ, 1), pw(SB_READ, 0)],
{
    let mut ws: Vec<PortWrite> = Vec::new();
    ws.push(PortWrite::new(SB_READ, 1));
    ws.push(PortWrite::new(SB_READ, 0));
    assert(ws@ =~= seq![pw(SB_READ, 1), pw(SB_READ, 0)]);
    ws
}

/// Whether the byte read after a reset shows the DSP present.
pub fn reset_succeeded(answer: u8) -> (r: bool)
    ensures
        r == (answer == RESET_ACK),
{
    answer == RESET_ACK
}

/// Whether the DSP still refuses a written byte: bit 7 of its write status is set.
pub fn write_busy(status: u8) -> (r: bool)
    ensures
        r == (status >= 0x80),
{
    assert((status & 0x80 != 0) == (status >= 0x80)) by (bit_vector);
    status & 0x80 != 0
}

/// Whether the DSP has no data for reading yet: bit 7 of its read status is clear.
pub fn read_pending(status: u8) -> (r: bool)
    ensures
        r == (status < 0x80),
{
    assert((status & 0x80 == 0) == (status < 0x80)) by (bit_vector);
    status & 0x80 == 0
}

/// The page register and the word offset together address the buffer: the page is bits 16
/// to 23 of the address, the word offset bits 1 to 16, and the page's bits 1 to 7 with the
/// offset give back the address modulo 2^24 with its low bit cleared. The channel is 5 (masked with 4 | 1, unmasked with 1), and the
/// mode byte is single transfer, memory to device (0x48), with channel bits 1.
pub proof fn lemma_transfer_addresses_buffer(buf: usize, len: u32)
    requires
        len >= 1,
    ensures
        transfer_writes(buf, len).len() == 9,
        transfer_writes(buf, len)[7].port == 0x8B,
        transfer_writes(buf, len)[7].value as int == (buf as int / 0x1_0000) % 0x100,
        (transfer_writes(buf, len)[7].value as int / 2) * 0x2_0000 + 2 * (transfer_writes(buf, len)[3].value as int
            + 0x100 * transfer_writes(buf, len)[4].value as int) == buf as int % 0x100_0000 - buf as int % 2,
        transfer_writes(buf, len)[3].port == 0xC4 && transfer_writes(buf, len)[4].port == 0xC4,
        transfer_writes(buf, len)[0] == pw(0xD4, 5),
        transfer_writes(buf, len)[8] == pw(0xD4, 1),
        transfer_writes(buf, len)[2] == pw(0xD6, 0x48u8 | 0x10u8 | 1u8),
{
    let b = buf as int;
    let o = (b / 2) % 0x1_0000;
    assert((o % 0x100) + 0x100 * (o / 0x100) == o);
    assert((((buf / 0x1_0000) % 0x100) / 2) * 0x2_0000 + 2 * ((buf / 2) % 0x1_0000) == buf % 0x100_0000 - buf % 2)
        by (bit_vector);
    assert((0x48u8 | 0x10u8 | 1u8) == 0x59u8) by (bit_vector);
}

/// The rate bytes spell out the sample rate, high byte first, after the rate command 0x41.
pub proof fn lemma_sample_rate_bytes(freq: u16)
    ensures
        sample_rate_bytes_of(freq).len() == 3,
        sample_rate_bytes_of(freq)[0] == 0x41,
        sample_rate_bytes_of(freq)[1] as int * 0x100 + sample_rate_bytes_of(freq)[2] as int == freq,
{
}

/// The count bytes of a transfer spell out `len - 1` modulo 65536, low byte first.
pub proof fn lemma_transfer_count(buf: usize, len: u32)
    requires
        len >= 1,
    ensures
        transfer_writes(buf, len)[5].value as int + 0x100 * transfer_writes(buf, len)[6].value as int
            == (len as int - 1) % 0x1_0000,
{
}

} // verus!
