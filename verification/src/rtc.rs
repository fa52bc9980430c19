use vstd::prelude::*;

verus! {

/// Index port of the CMOS real-time clock.
pub const ADDRESS_PORT: u16 = 0x70;

/// Data port of the CMOS real-time clock.
pub const DATA_PORT: u16 = 0x71;

/// Clock registers, by index.
pub const SECONDS: u8 = 0x00;
pub const MINUTES: u8 = 0x02;
pub const HOURS: u8 = 0x04;
pub const DAY: u8 = 0x07;
pub const MONTH: u8 = 0x08;
pub const YEAR: u8 = 0x09;
pub const STATUS_A: u8 = 0x0A;
pub const STATUS_B: u8 = 0x0B;

/// The value of a two-digit binary-coded-decimal byte: the high nibble counts tens,
/// the low nibble counts ones.
pub open spec fn bcd_value(bcd: u8) -> int {
    (bcd as int / 16) * 10 + (bcd as int % 16)
}

/// Decodes a BCD byte as read from the real-time clock.
pub fn bcd_to_binary(bcd: u8) -> (r: u8)
    ensures
        r == bcd_value(bcd),
{
    assert(bcd & 0xf == bcd % 16) by (bit_vector);
    (bcd / 16) * 10 + (bcd & 0xf)
}

/// The test that the wait for the clock makes on status register A: it keeps waiting
/// while bit 7 is clear.
pub fn is_updating(status_a: u8) -> (r: bool)
    ensures
        r == (status_a < 0x80),
{
    assert((status_a & 0x80 == 0) == (status_a < 0x80)) by (bit_vector);
    status_a & 0x80 == 0
}

/// The raw clock registers, as read.
#[derive(Clone, Copy, Debug, PartialEq, Eq, Structural)]
pub struct RtcRegisters {
    pub seconds: u8,
    pub minutes: u8,
    pub hours: u8,
    pub day: u8,
    pub month: u8,
    pub year: u8,
}

/// Date and time decoded from the clock.
#[derive(Clone, Copy, Debug, PartialEq, Eq, Structural)]
pub struct RtcTime {
    pub year: isize,
    pub month: u8,
    pub day: u8,
    pub hour: u8,
    pub minute: u8,
    pub second: u8,
}

/// The hour as the clock driver reads it: a register with bit 7 clear counts as an
/// afternoon hour and gets 12 added; one with bit 7 set is decoded as it stands.
pub open spec fn hour_value(h: u8) -> int {
    if h < 0x80 {
        bcd_value(h) + 12
    } else {
        bcd_value(h)
    }
}

/// Decodes the clock registers: every field from BCD, the hour as `hour_value` says, and the
/// year counted from 2000.
pub fn time(regs: RtcRegisters) -> (t: RtcTime)
    ensures
        t.second == bcd_value(regs.seconds),
        t.minute == bcd_value(regs.minutes),
        t.hour == hour_value(regs.hours),
        t.day == bcd_value(regs.day),
        t.month == bcd_value(regs.month),
        t.year == 2000 + bcd_value(regs.year),
{
    let s = bcd_to_binary(regs.seconds);
    let m = bcd_to_binary(regs.minutes);
    let mut h = regs.hours;
    let is_pm = h & 0x80 == 0;
    assert((h & 0x80 == 0) == (h < 0x80)) by (bit_vector);
    if is_pm {
        assert(h < 0x80 ==> h & 0x7f == h) by (bit_vector);
        h = h & 0x7f;
    }
    h = bcd_to_binary(h);
    if is_pm {
        h = h + 12;
    }
    let d = bcd_to_binary(regs.day);
    let month = bcd_to_binary(regs.month);
    let year = bcd_to_binary(regs.year);
    let year: isize = 2000 + year as isize;
    RtcTime { year, month, day: d, hour: h, minute: m, second: s }
}

/// Every number below 100 written in BCD decodes back to itself.
pub proof fn lemma_bcd_round_trip(n: u8)
    requires
        n < 100,
    ensures
        bcd_value(((n / 10) * 16 + n % 10) as u8) == n,
{
}

/// The BCD byte of a number below 100: tens in the high nibble, ones in the low one.
pub open spec fn bcd_of(n: u8) -> u8 {
    ((n / 10) * 16 + n % 10) as u8
}

proof fn lemma_bcd_of(n: u8)
    requires
        n < 100,
    ensures
        bcd_value(bcd_of(n)) == n,
        n < 80 ==> bcd_of(n) < 0x80,
{
    lemma_bcd_round_trip(n);
}

/// Registers that hold two-digit BCD numbers decode to those numbers: seconds, minutes, day,
/// month and year as written, the year counted from 2000, and an hour register with bit 7
/// clear read as 12 hours later.
pub proof fn lemma_time_decodes(regs: RtcRegisters, s: u8, m: u8, h: u8, d: u8, mo: u8, y: u8)
    requires
        s < 100 && m < 100 && h < 80 && d < 100 && mo < 100 && y < 100,
        regs == (RtcRegisters {
            seconds: bcd_of(s),
            minutes: bcd_of(m),
            hours: bcd_of(h),
            day: bcd_of(d),
            month: bcd_of(mo),
            year: bcd_of(y),
        }),
    ensures
        bcd_value(regs.seconds) == s,
        bcd_value(regs.minutes) == m,
        hour_value(regs.hours) == h + 12,
        bcd_value(regs.day) == d,
        bcd_value(regs.month) == mo,
        2000 + bcd_value(regs.year) == 2000 + y,
{
    lemma_bcd_of(s);
    lemma_bcd_of(m);
    lemma_bcd_of(h);
    lemma_bcd_of(d);
    lemma_bcd_of(mo);
    lemma_bcd_of(y);
}

} // verus!
