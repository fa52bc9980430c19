use vstd::prelude::*;
use crate::port::{pw, PortWrite};

verus! {

/// A 16550-compatible serial port, named by the I/O port of its data register.
pub struct SerialPort(u16);

/// The writes that set up the port at `base` for 115200 bps: interrupts off, divisor latch
/// on, divisor 1, latch off with 8N1, FIFO cleared and enabled, modem control set, and the
/// received-data interrupt on.
pub open spec fn init_writes(base: u16) -> Seq<PortWrite> {
    seq![
        pw((base + 1) as u16, 0x00),
        pw((base + 3) as u16, 0x80),
        pw(base, 0x01),
        pw((base + 1) as u16, 0x00),
        pw((base + 3) as u16, 0x03),
        pw((base + 2) as u16, 0xC7),
        pw((base + 4) as u16, 0x0B),
        pw((base + 1) as u16, 0x01),
    ]
}

impl SerialPort {
    pub closed spec fn base(&self) -> u16 {
        self.0
    }

    /// The port whose registers start at `port`.
    pub fn new(port: u16) -> (s: Self)
        requires
            port + 4 <= u16::MAX,
        ensures
            s.base() == port,
    {
        SerialPort(port)
    }

    /// The writes that initialise the port.
    pub fn init_commands(&self) -> (ws: Vec<PortWrite>)
        requires
            self.base() + 4 <= u16::MAX,
        ensures
            ws@ == init_writes(self.base()),
    {
        let port = self.0;
        let mut ws: Vec<PortWrite> = Vec::new();
        ws.push(PortWrite::new(port + 1, 0x00));
        ws.push(PortWrite::new(port + 3, 0x80));
        ws.push(PortWrite::new(port, 0x01));
        ws.push(PortWrite::new(port + 1, 0x00));
        ws.push(PortWrite::new(port + 3, 0x03));
        ws.push(PortWrite::new(port + 2, 0xC7));
        ws.push(PortWrite::new(port + 4, 0x0B));
        ws.push(PortWrite::new(port + 1, 0x01));
        assert(ws@ =~= init_writes(port));
        ws
    }

    /// The data register.
    pub fn data_port(&self) -> (p: u16)
        ensures
            p == self.base(),
    {
        self.0
    }

    /// The line status register.
    pub fn line_status_port(&self) -> (p: u16)
        requires
            self.base() + 5 <= u16::MAX,
        ensures
            p == self.base() + 5,
    {
        self.0 + 5
    }
}

/// Whether the transmitter holding register is empty (line status bit 5), so a byte may be
/// written.
pub fn can_transmit(line_status: u8) -> (r: bool)
    ensures
        r == (line_status as int / 32 % 2 == 1),
{
    assert((line_status & 0x20 != 0) == (line_status / 32 % 2 == 1)) by (bit_vector);
    line_status & 0x20 != 0
}

/// Whether a received byte is waiting (line status bit 0).
pub fn has_data(line_status: u8) -> (r: bool)
    ensures
        r == (line_status % 2 == 1),
{
    assert((line_status & 1 != 0) == (line_status % 2 == 1)) by (bit_vector);
    line_status & 1 != 0
}

/// The set-up, register by register: interrupts off first; while the divisor latch is on
/// (line control 0x80) the divisor is set to 1, low byte 1 and high byte 0, that is
/// 115200 bps; then 8 data bits, no parity, one stop bit (0x03) with the latch off; the FIFO
/// enabled and cleared with a 14-byte threshold (0xC7); DTR, RTS and OUT2 (0x0B); and last
/// the received-data interrupt (0x01).
pub proof fn lemma_init_registers(base: u16)
    requires
        base + 4 <= u16::MAX,
    ensures
        init_writes(base).len() == 8,
        init_writes(base)[0] == pw((base + 1) as u16, 0),
        init_writes(base)[1] == pw((base + 3) as u16, 0x80),
        init_writes(base)[2].port == base && init_writes(base)[3].port == base + 1,
        init_writes(base)[2].value as int + 0x100 * init_writes(base)[3].value as int == 1,
        init_writes(base)[4] == pw((base + 3) as u16, 0x03),
        init_writes(base)[5] == pw((base + 2) as u16, 0xC7),
        init_writes(base)[6] == pw((base + 4) as u16, 0x0B),
        init_writes(base)[7] == pw((base + 1) as u16, 0x01),
{
}

} // verus!
