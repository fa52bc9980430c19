use vstd::prelude::*;
use vstd::arithmetic::power2::{pow2, lemma2_to64};
use bit_field::BitField;
use crate::port::{pw, PortWrite};

verus! {

/// Data port of the primary ATA bus.
pub const DATA_PORT: u16 = 0x1F0;

/// Sector-count register.
pub const SECTOR_COUNT_PORT: u16 = 0x1F2;

/// Low, middle and high bytes of the block address.
pub const LBA_LOW_PORT: u16 = 0x1F3;
pub const LBA_MID_PORT: u16 = 0x1F4;
pub const LBA_HIGH_PORT: u16 = 0x1F5;

/// Drive/head register.
pub const DRIVE_PORT: u16 = 0x1F6;

/// Command register on write, status register on read.
pub const COMMAND_PORT: u16 = 0x1F7;

/// READ SECTORS command.
pub const READ_SECTORS: u8 = 0x20;

/// IDENTIFY DEVICE command.
pub const IDENTIFY: u8 = 0xEC;

/// Sixteen-bit words per sector.
pub const SECTOR_WORDS: usize = 256;

/// Bits `start` to `end - 1` of `value`, shifted down to bit 0.
pub open spec fn bits_of(value: int, start: nat, end: nat) -> int {
    (value / pow2(start) as int) % pow2((end - start) as nat) as int
}

/// Bits `start..end` of a 16-bit word, as the bit-field crate's `BitField::get_bits`
/// computes them. Its source asserts `start < 16`, `end <= 16` and `start <= end`, and
/// returns the bits of the range shifted down to bit 0.
#[verifier::external_body]
fn u16_get_bits(value: u16, start: usize, end: usize) -> (r: u16)
    requires
        start < 16,
        end <= 16,
        start <= end,
    ensures
        r as int == bits_of(value as int, start as nat, end as nat),
{
    value.get_bits(start..end)
}

/// Bit `bit` of a byte, as the bit-field crate's `BitField::get_bit` computes it. Its source
/// asserts `bit < 8` and tests `value & (1 << bit) != 0`.
#[verifier::external_body]
fn u8_get_bit(value: u8, bit: usize) -> (r: bool)
    requires
        bit < 8,
    ensures
        r == (bits_of(value as int, bit as nat, (bit + 1) as nat) == 1),
{
    value.get_bit(bit)
}

proof fn lemma_word_halves(data: u16)
    ensures
        bits_of(data as int, 0, 8) == data % 0x100,
        bits_of(data as int, 8, 16) == data / 0x100,
        data / 0x100 < 0x100,
{
    lemma2_to64();
    assert(data as int / 0x100 < 0x100) by (nonlinear_arith)
        requires
            data < 0x1_0000,
    ;
    let q = data as int / 0x100;
    assert(pow2((16 - 8) as nat) == 0x100);
    assert(bits_of(data as int, 8, 16) == q % 0x100);
    assert(q % 0x100 == q);
}

/// The drive/head byte that selects drive `drive` for IDENTIFY: 0xA0 with the drive number
/// in bits 4 and up (shifted out bits are lost).
pub fn drive_select(drive: u8) -> (r: u8)
    ensures
        r == (0xA0u8 | (((drive % 16) * 16) as u8)),
{
    let r = 0xA0u8 | (drive << 4u8);
    assert((0xA0u8 | (drive << 4u8)) == (0xA0u8 | (((drive % 16) * 16) as u8))) by (bit_vector);
    r
}

/// The select byte has bits 7 and 5 set (0xA0, the fixed bits of the drive/head register),
/// and bit 4 holds the drive number's lowest bit: 0xA0 for the master, 0xB0 for the slave.
pub proof fn lemma_drive_select_bits(drive: u8)
    ensures
        (0xA0u8 | (((drive % 16) * 16) as u8)) & 0xA0u8 == 0xA0u8,
        ((0xA0u8 | (((drive % 16) * 16) as u8)) & 0x10u8 != 0) == (drive % 2 == 1),
        (0xA0u8 | (((0u8 % 16) * 16) as u8)) == 0xA0u8,
        (0xA0u8 | (((1u8 % 16) * 16) as u8)) == 0xB0u8,
{
    assert({
        &&& (0xA0u8 | (((drive % 16) * 16) as u8)) & 0xA0u8 == 0xA0u8
        &&& ((0xA0u8 | (((drive % 16) * 16) as u8)) & 0x10u8 != 0) == (drive % 2 == 1)
        &&& (0xA0u8 | (((0u8 % 16) * 16) as u8)) == 0xA0u8
        &&& (0xA0u8 | (((1u8 % 16) * 16) as u8)) == 0xB0u8
    }) by (bit_vector);
}

/// The register writes that start reading `sector` sectors from block address `lba`:
/// LBA mode with bits 24 to 27 of the address in the drive/head register, the count, the
/// three low address bytes, then the READ SECTORS command.
pub open spec fn read_writes(lba: u32, sector: u8) -> Seq<PortWrite> {
    seq![
        pw(DRIVE_PORT, (0xE0 + (lba as int / 0x100_0000) % 16) as u8),
        pw(SECTOR_COUNT_PORT, sector),
        pw(LBA_LOW_PORT, (lba as int % 0x100) as u8),
        pw(LBA_MID_PORT, ((lba as int / 0x100) % 0x100) as u8),
        pw(LBA_HIGH_PORT, ((lba as int / 0x1_0000) % 0x100) as u8),
        pw(COMMAND_PORT, READ_SECTORS),
    ]
}

/// The writes that issue a read of `sector` sectors at `lba`.
pub fn read_commands(lba: u32, sector: u8) -> (ws: Vec<PortWrite>)
    ensures
        ws@ == read_writes(lba, sector),
{
    let head: u8 = 0xE0u8 | ((lba >> 24u32) & 0xFu32) as u8;
    assert((0xE0u8 | ((lba >> 24u32) & 0xFu32) as u8) as int == 0xE0 + (lba / 0x100_0000) % 16)
        by (bit_vector);
    let b0: u8 = lba as u8;
    let b1: u8 = (lba >> 8u32) as u8;
    let b2: u8 = (lba >> 16u32) as u8;
    assert(lba as u8 == lba % 0x100) by (bit_vector);
    assert((lba >> 8u32) as u8 == (lba / 0x100) % 0x100) by (bit_vector);
    assert((lba >> 16u32) as u8 == (lba / 0x1_0000) % 0x100) by (bit_vector);
    let mut ws: Vec<PortWrite> = Vec::new();
    ws.push(PortWrite::new(DRIVE_PORT, head));
    ws.push(PortWrite::new(SECTOR_COUNT_PORT, sector));
    ws.push(PortWrite::new(LBA_LOW_PORT, b0));
    ws.push(PortWrite::new(LBA_MID_PORT, b1));
    ws.push(PortWrite::new(LBA_HIGH_PORT, b2));
    ws.push(PortWrite::new(COMMAND_PORT, READ_SECTORS));
    assert(ws@ =~= read_writes(lba, sector));
    ws
}

/// Stores one sector, read as 256 words from the data port, into the first 512 bytes of
/// `buf`, low byte first.
pub fn store_sector(buf: &mut [u8], words: &[u16])
    requires
        old(buf)@.len() >= 2 * SECTOR_WORDS,
        words@.len() == SECTOR_WORDS,
    ensures
        final(buf)@.len() == old(buf)@.len(),
        forall|j: int| 0 <= j < SECTOR_WORDS ==> {
            &&& #[trigger] final(buf)@[2 * j] == words@[j] % 0x100
            &&& final(buf)@[2 * j + 1] == words@[j] / 0x100
        },
        forall|k: int| 2 * SECTOR_WORDS <= k < old(buf)@.len() ==> #[trigger] final(buf)@[k] == old(buf)@[k],
{
    proof {
        lemma2_to64();
    }
    let mut j: usize = 0;
    while j < SECTOR_WORDS
        invariant
            j <= SECTOR_WORDS,
            words@.len() == SECTOR_WORDS,
            buf@.len() == old(buf)@.len(),
            buf@.len() >= 2 * SECTOR_WORDS,
            pow2(0) == 1 && pow2(8) == 0x100,
            forall|i: int| 0 <= i < j ==> {
                &&& #[trigger] buf@[2 * i] == words@[i] % 0x100
                &&& buf@[2 * i + 1] == words@[i] / 0x100
            },
            forall|k: int| 2 * SECTOR_WORDS <= k < old(buf)@.len() ==> #[trigger] buf@[k] == old(buf)@[k],
        decreases SECTOR_WORDS - j,
    {
        let data = words[j];
        let lo = u16_get_bits(data, 0, 8);
        let hi = u16_get_bits(data, 8, 16);
        proof {
            lemma_word_halves(data);
        }
        buf[j * 2] = lo as u8;
        buf[j * 2 + 1] = hi as u8;
        proof {
            assert(2 * j + 1 == j * 2 + 1);
        }
        j = j + 1;
    }
}

/// Whether the status byte has bit 6 set, at which the IDENTIFY data is read.
pub fn identify_ready(status: u8) -> (r: bool)
    ensures
        r == (status as int / 64 % 2 == 1),
{
    proof {
        lemma2_to64();
    }
    u8_get_bit(status, 6)
}

/// How many times the status is polled for IDENTIFY data before giving up.
pub const IDENTIFY_POLLS: u16 = 256;

/// The writes that start IDENTIFY on drive `drive`: select it, then send the command.
pub fn identify_commands(drive: u8) -> (ws: Vec<PortWrite>)
    ensures
        ws@ == seq![pw(DRIVE_PORT, (0xA0u8 | (((drive % 16) * 16) as u8))), pw(COMMAND_PORT, IDENTIFY)],
{
    let mut ws: Vec<PortWrite> = Vec::new();
    ws.push(PortWrite::new(DRIVE_PORT, drive_select(drive)));
    ws.push(PortWrite::new(COMMAND_PORT, IDENTIFY));
    assert(ws@ =~= seq![pw(DRIVE_PORT, (0xA0u8 | (((drive % 16) * 16) as u8))), pw(COMMAND_PORT, IDENTIFY)]);
    ws
}

/// Where the probe of a drive after IDENTIFY stands.
#[derive(Clone, Copy, Debug, PartialEq, Eq, Structural)]
pub enum IdentifyPhase {
    /// Next: the status register, zero when no drive answers.
    Status,
    /// Next: the low address register.
    LbaLow,
    /// Next: the middle address register (read only when the low one is not zero).
    LbaMid,
    /// Next: the status register again, after this many polls without data.
    Poll(u16),
    /// The probe is over.
    Done,
}

/// The register that a probe in phase `p` reads next, if any.
pub open spec fn identify_port(p: IdentifyPhase) -> Option<u16> {
    match p {
        IdentifyPhase::Status => Some(COMMAND_PORT),
        IdentifyPhase::LbaLow => Some(LBA_LOW_PORT),
        IdentifyPhase::LbaMid => Some(LBA_MID_PORT),
        IdentifyPhase::Poll(_) => Some(COMMAND_PORT),
        IdentifyPhase::Done => None,
    }
}

/// The phase after reading `reading` in phase `p`: no drive when the status is zero; on to
/// polling when the low or else the middle address register is zero, and done otherwise;
/// while polling, done once bit 6 of the status is set or the polls run out.
pub open spec fn identify_next(p: IdentifyPhase, reading: u8) -> IdentifyPhase {
    match p {
        IdentifyPhase::Status => if reading != 0 {
            IdentifyPhase::LbaLow
        } else {
            IdentifyPhase::Done
        },
        IdentifyPhase::LbaLow => if reading == 0 {
            IdentifyPhase::Poll(0)
        } else {
            IdentifyPhase::LbaMid
        },
        IdentifyPhase::LbaMid => if reading == 0 {
            IdentifyPhase::Poll(0)
        } else {
            IdentifyPhase::Done
        },
        IdentifyPhase::Poll(k) => if reading as int / 64 % 2 == 1 || k + 1 >= IDENTIFY_POLLS {
            IdentifyPhase::Done
        } else {
            IdentifyPhase::Poll((k + 1) as u16)
        },
        IdentifyPhase::Done => IdentifyPhase::Done,
    }
}

/// Whether reading `reading` in phase `p` means the IDENTIFY data is ready to be read.
pub open spec fn identify_reads_data(p: IdentifyPhase, reading: u8) -> bool {
    p is Poll && reading as int / 64 % 2 == 1
}

/// Register reads left at most before the probe is over.
pub open spec fn identify_budget(p: IdentifyPhase) -> int {
    match p {
        IdentifyPhase::Status => IDENTIFY_POLLS + 3,
        IdentifyPhase::LbaLow => IDENTIFY_POLLS + 2,
        IdentifyPhase::LbaMid => IDENTIFY_POLLS + 1,
        IdentifyPhase::Poll(k) => IDENTIFY_POLLS - k,
        IdentifyPhase::Done => 0,
    }
}

/// The probe of a drive after the IDENTIFY command has been sent: it names the register to
/// read next and decides from each reading.
pub struct IdentifyProbe {
    phase: IdentifyPhase,
}

impl IdentifyProbe {
    pub closed spec fn phase(&self) -> IdentifyPhase {
        self.phase
    }

    /// A probe that starts with the status register.
    pub fn new() -> (p: Self)
        ensures
            p.phase() == IdentifyPhase::Status,
    {
        IdentifyProbe { phase: IdentifyPhase::Status }
    }

    /// The register to read next, or `None` once the probe is over.
    pub fn port(&self) -> (r: Option<u16>)
        ensures
            r == identify_port(self.phase()),
    {
        match self.phase {
            IdentifyPhase::Status => Some(COMMAND_PORT),
            IdentifyPhase::LbaLow => Some(LBA_LOW_PORT),
            IdentifyPhase::LbaMid => Some(LBA_MID_PORT),
            IdentifyPhase::Poll(_) => Some(COMMAND_PORT),
            IdentifyPhase::Done => None,
        }
    }

    /// Takes the value read from `port()`; returns whether the IDENTIFY data is now to be read.
    pub fn step(&mut self, reading: u8) -> (read_data: bool)
        requires
            old(self).phase() matches IdentifyPhase::Poll(k) ==> k < IDENTIFY_POLLS,
        ensures
            final(self).phase() == identify_next(old(self).phase(), reading),
            read_data == identify_reads_data(old(self).phase(), reading),
            final(self).phase() matches IdentifyPhase::Poll(k) ==> k < IDENTIFY_POLLS,
            old(self).phase() != IdentifyPhase::Done ==> 0 <= identify_budget(final(self).phase())
                < identify_budget(old(self).phase()),
    {
        match self.phase {
            IdentifyPhase::Status => {
                self.phase = if reading != 0 { IdentifyPhase::LbaLow } else { IdentifyPhase::Done };
                false
            },
            IdentifyPhase::LbaLow => {
                self.phase = if reading == 0 { IdentifyPhase::Poll(0) } else { IdentifyPhase::LbaMid };
                false
            },
            IdentifyPhase::LbaMid => {
                self.phase = if reading == 0 { IdentifyPhase::Poll(0) } else { IdentifyPhase::Done };
                false
            },
            IdentifyPhase::Poll(k) => {
                let ready = identify_ready(reading);
                if ready || k + 1 >= IDENTIFY_POLLS {
                    self.phase = IdentifyPhase::Done;
                } else {
                    self.phase = IdentifyPhase::Poll(k + 1);
                }
                ready
            },
            IdentifyPhase::Done => false,
        }
    }
}

/// How the probe reacts to each reading: a zero status means no drive and any other status
/// goes on to the low address register; a zero low register goes to polling and any other
/// value to the middle register; a zero middle register goes to polling and any other value
/// ends the probe (no ATA drive); a poll with bit 6 (0x40) set reads the data and ends the
/// probe, any other poll polls again until the 256th.
pub proof fn lemma_identify_probe_steps(r: u8, k: u16)
    requires
        k < IDENTIFY_POLLS,
    ensures
        r != 0 ==> identify_next(IdentifyPhase::Status, r) == IdentifyPhase::LbaLow,
        identify_next(IdentifyPhase::Status, 0) == IdentifyPhase::Done,
        r != 0 ==> identify_next(IdentifyPhase::LbaLow, r) == IdentifyPhase::LbaMid,
        identify_next(IdentifyPhase::LbaLow, 0) == IdentifyPhase::Poll(0),
        r != 0 ==> identify_next(IdentifyPhase::LbaMid, r) == IdentifyPhase::Done,
        identify_next(IdentifyPhase::LbaMid, 0) == IdentifyPhase::Poll(0),
        identify_reads_data(IdentifyPhase::Poll(k), r) == (r & 0x40u8 != 0),
        r & 0x40u8 != 0 ==> identify_next(IdentifyPhase::Poll(k), r) == IdentifyPhase::Done,
        r & 0x40u8 == 0 && k + 1 < 256 ==> identify_next(IdentifyPhase::Poll(k), r) == IdentifyPhase::Poll((k + 1) as u16),
        identify_next(IdentifyPhase::Poll(255), r) == IdentifyPhase::Done,
        !identify_reads_data(IdentifyPhase::Status, r),
        !identify_reads_data(IdentifyPhase::LbaLow, r),
        !identify_reads_data(IdentifyPhase::LbaMid, r),
        identify_port(IdentifyPhase::Status) == Some(0x1F7u16),
        identify_port(IdentifyPhase::LbaLow) == Some(0x1F3u16),
        identify_port(IdentifyPhase::LbaMid) == Some(0x1F4u16),
        identify_port(IdentifyPhase::Poll(k)) == Some(0x1F7u16),
{
    assert((r & 0x40u8 != 0) == (r as int / 64 % 2 == 1)) by (bit_vector);
}

/// The address registers written before READ SECTORS hold the low 28 bits of the block
/// address (the head register's low nibble carries bits 24 to 27, its high nibble is LBA
/// mode 0xE), and the count register the sector count.
pub proof fn lemma_read_writes_address(lba: u32, sector: u8)
    ensures
        read_writes(lba, sector).len() == 6,
        read_writes(lba, sector)[5] == pw(0x1F7, 0x20),
        read_writes(lba, sector)[1] == pw(0x1F2, sector),
        read_writes(lba, sector)[0].value as int / 16 == 0xE,
        read_writes(lba, sector)[2].value as int + 0x100 * read_writes(lba, sector)[3].value as int
            + 0x1_0000 * read_writes(lba, sector)[4].value as int + 0x100_0000 * (
        read_writes(lba, sector)[0].value as int % 16) == lba as int % 0x1000_0000,
{
    assert((lba % 0x100) + 0x100 * ((lba / 0x100) % 0x100) + 0x1_0000 * ((lba / 0x1_0000) % 0x100)
        + 0x100_0000 * ((lba / 0x100_0000) % 16) == lba % 0x1000_0000) by (bit_vector);
}

/// Whether a character is one that `str::trim` removes, for characters made from one byte.
pub open spec fn is_space(b: u8) -> bool {
    (0x09 <= b <= 0x0D) || b == 0x20 || b == 0x85 || b == 0xA0
}

/// The model name field of IDENTIFY data: words 27 to 46, each high byte first.
pub open spec fn model_field(words: Seq<u16>) -> Seq<u8> {
    Seq::new(40, |i: int| if i % 2 == 0 {
        (words[27 + i / 2] / 0x100) as u8
    } else {
        (words[27 + i / 2] % 0x100) as u8
    })
}

/// Whether `s[lo..hi]` is `s` with its leading and trailing spaces removed.
pub open spec fn trims_to(s: Seq<u8>, lo: int, hi: int) -> bool {
    &&& 0 <= lo <= hi <= s.len()
    &&& forall|i: int| 0 <= i < lo ==> is_space(#[trigger] s[i])
    &&& forall|i: int| hi <= i < s.len() ==> is_space(#[trigger] s[i])
    &&& lo < hi ==> !is_space(s[lo]) && !is_space(s[hi - 1])
}

/// The model name of the drive from its IDENTIFY data, without surrounding spaces.
pub fn identify_model(words: &[u16]) -> (model: Vec<u8>)
    requires
        words@.len() >= 47,
    ensures
        exists|lo: int, hi: int|
            trims_to(model_field(words@), lo, hi) && model@ == model_field(words@).subrange(lo, hi),
{
    proof {
        lemma2_to64();
    }
    let ghost field = model_field(words@);
    let mut raw: Vec<u8> = Vec::new();
    let mut w: usize = 27;
    while w < 47
        invariant
            27 <= w <= 47,
            words@.len() >= 47,
            field == model_field(words@),
            raw@ == field.subrange(0, 2 * (w - 27)),
            pow2(0) == 1 && pow2(8) == 0x100,
        decreases 47 - w,
    {
        let hi = u16_get_bits(words[w], 8, 16);
        let lo = u16_get_bits(words[w], 0, 8);
        proof {
            lemma_word_halves(words[w as int]);
        }
        raw.push(hi as u8);
        raw.push(lo as u8);
        assert(raw@ =~= field.subrange(0, 2 * (w + 1 - 27)));
        w = w + 1;
    }
    let mut start: usize = 0;
    while start < 40 && is_space_byte(raw[start])
        invariant
            start <= 40,
            raw@ == field,
            field.len() == 40,
            forall|i: int| 0 <= i < start ==> is_space(#[trigger] field[i]),
        decreases 40 - start,
    {
        start = start + 1;
    }
    let mut end: usize = 40;
    while end > start && is_space_byte(raw[end - 1])
        invariant
            start <= end <= 40,
            raw@ == field,
            field.len() == 40,
            start < 40 ==> !is_space(field[start as int]),
            forall|i: int| 0 <= i < start ==> is_space(#[trigger] field[i]),
            forall|i: int| end <= i < 40 ==> is_space(#[trigger] field[i]),
        decreases end,
    {
        end = end - 1;
    }
    let mut model: Vec<u8> = Vec::new();
    let mut k: usize = start;
    while k < end
        invariant
            start <= k <= end <= 40,
            raw@ == field,
            field.len() == 40,
            model@ == field.subrange(start as int, k as int),
        decreases end - k,
    {
        model.push(raw[k]);
        assert(model@ =~= field.subrange(start as int, k + 1));
        k = k + 1;
    }
    assert(trims_to(field, start as int, end as int));
    model
}

/// Whether `b` is a space in the sense of `is_space`.
pub fn is_space_byte(b: u8) -> (r: bool)
    ensures
        r == is_space(b),
{
    (0x09 <= b && b <= 0x0D) || b == 0x20 || b == 0x85 || b == 0xA0
}

/// The sector count that IDENTIFY reports in words 60 (low half) and 61 (high half).
pub open spec fn identify_sectors(words: Seq<u16>) -> int {
    words[61] as int * 0x1_0000 + words[60] as int
}

/// The drive's capacity in bytes: its sector count times 512.
pub fn identify_capacity(words: &[u16]) -> (bytes: u32)
    requires
        words@.len() >= 62,
        identify_sectors(words@) * 512 <= u32::MAX,
    ensures
        bytes == identify_sectors(words@) * 512,
{
    let high = words[61] as u32;
    let low = words[60] as u32;
    let sectors: u32 = (high << 16u32) | low;
    assert(((high << 16u32) | low) == high * 0x1_0000 + low) by (bit_vector)
        requires
            high <= 0xFFFF,
            low <= 0xFFFF,
    ;
    sectors * 512
}

/// Whether the controller is still busy, by the test that the wait before a transfer makes.
pub fn still_busy(status: u8) -> (r: bool)
    ensures
        r == (status & 0x80 == 0),
{
    status & 0x80 == 0
}

/// Whether the controller is not yet ready for data, by the test that the wait before a
/// transfer makes.
pub fn data_pending(status: u8) -> (r: bool)
    ensures
        r == (status & 0x40 != 0),
{
    status & 0x40 != 0
}

/// Reassembling the two stored bytes of a word gives the word back.
pub proof fn lemma_stored_bytes_rebuild_word(word: u16, lo: u8, hi: u8)
    requires
        lo == word % 0x100,
        hi == word / 0x100,
    ensures
        hi as int * 0x100 + lo as int == word,
{
}

} // verus!
