use vstd::prelude::*;
use crate::port::{pw, PortWrite};

verus! {

/// Command byte that ends an interrupt.
pub const END_OF_INTERRUPT: u8 = 0x20;

/// Port of the delay write that gives the controllers time between commands.
pub const WAIT_PORT: u16 = 0x80;

/// One 8259 programmable interrupt controller, serving eight vectors from `offset` on.
pub struct Pic {
    offset: u8,
    cmd_port: u16,
    data_port: u16,
}

/// Whether a controller whose vectors start at `offset` serves vector `id`.
pub open spec fn serves(offset: u8, id: u8) -> bool {
    offset <= id && id < offset + 8
}

impl Pic {
    pub fn new(offset: u8, cmd_port: u16, data_port: u16) -> (p: Self)
        ensures
            p.offset() == offset,
            p.cmd_port() == cmd_port,
            p.data_port() == data_port,
    {
        Self { offset, cmd_port, data_port }
    }

    pub closed spec fn offset(&self) -> u8 {
        self.offset
    }

    pub closed spec fn cmd_port(&self) -> u16 {
        self.cmd_port
    }

    pub closed spec fn data_port(&self) -> u16 {
        self.data_port
    }

    /// Whether this controller serves interrupt vector `id`.
    pub fn handle(&self, id: u8) -> (r: bool)
        requires
            self.offset() <= id ==> self.offset() + 8 <= u8::MAX,
        ensures
            r == serves(self.offset(), id),
    {
        self.offset <= id && id < self.offset + 8
    }

    /// The write that ends an interrupt on this controller.
    pub fn end(&self) -> (w: PortWrite)
        ensures
            w == pw(self.cmd_port(), END_OF_INTERRUPT),
    {
        PortWrite::new(self.cmd_port, END_OF_INTERRUPT)
    }

    /// The port to read this controller's interrupt mask from.
    pub fn read_port(&self) -> (p: u16)
        ensures
            p == self.data_port(),
    {
        self.data_port
    }
}

/// A master controller and the slave chained to its line 2.
pub struct Chained(Pic, Pic);

/// The writes of `Chained::init`: the initialisation words to both controllers, each followed
/// by a delay write, then the saved masks put back.
pub open spec fn init_writes(master: Pic, slave: Pic, mask0: u8, mask1: u8) -> Seq<PortWrite> {
    seq![
        pw(master.cmd_port(), 0x11), pw(WAIT_PORT, 0),
        pw(slave.cmd_port(), 0x11), pw(WAIT_PORT, 0),
        pw(master.data_port(), master.offset()), pw(WAIT_PORT, 0),
        pw(slave.data_port(), slave.offset()), pw(WAIT_PORT, 0),
        pw(master.data_port(), 4), pw(WAIT_PORT, 0),
        pw(slave.data_port(), 2), pw(WAIT_PORT, 0),
        pw(master.data_port(), 0x01), pw(WAIT_PORT, 0),
        pw(slave.data_port(), 0x01), pw(WAIT_PORT, 0),
        pw(master.data_port(), mask0),
        pw(slave.data_port(), mask1),
    ]
}

impl Chained {
    /// The standard pair: master at ports 0x20/0x21 with vectors from `o1`, slave at
    /// 0xA0/0xA1 with vectors from `o2`.
    pub fn new(o1: u8, o2: u8) -> (c: Self)
        ensures
            c.master().offset() == o1,
            c.master().cmd_port() == 0x20,
            c.master().data_port() == 0x21,
            c.slave().offset() == o2,
            c.slave().cmd_port() == 0xA0,
            c.slave().data_port() == 0xA1,
    {
        Self(Pic::new(o1, 0x20, 0x21), Pic::new(o2, 0xA0, 0xA1))
    }

    pub closed spec fn master(&self) -> Pic {
        self.0
    }

    pub closed spec fn slave(&self) -> Pic {
        self.1
    }

    /// Ports of the two interrupt masks that `init` saves before and restores after.
    pub fn mask_ports(&self) -> (r: (u16, u16))
        ensures
            r == (self.master().data_port(), self.slave().data_port()),
    {
        (self.0.read_port(), self.1.read_port())
    }

    /// The writes that initialise both controllers, given the masks read before.
    pub fn init(&self, mask0: u8, mask1: u8) -> (ws: Vec<PortWrite>)
        ensures
            ws@ == init_writes(self.master(), self.slave(), mask0, mask1),
    {
        let wait = PortWrite::new(WAIT_PORT, 0);
        let mut ws: Vec<PortWrite> = Vec::new();
        ws.push(PortWrite::new(self.0.cmd_port, 0x11));
        ws.push(wait);
        ws.push(PortWrite::new(self.1.cmd_port, 0x11));
        ws.push(wait);
        ws.push(PortWrite::new(self.0.data_port, self.0.offset));
        ws.push(wait);
        ws.push(PortWrite::new(self.1.data_port, self.1.offset));
        ws.push(wait);
        ws.push(PortWrite::new(self.0.data_port, 4));
        ws.push(wait);
        ws.push(PortWrite::new(self.1.data_port, 2));
        ws.push(wait);
        ws.push(PortWrite::new(self.0.data_port, 0x01));
        ws.push(wait);
        ws.push(PortWrite::new(self.1.data_port, 0x01));
        ws.push(wait);
        ws.push(PortWrite::new(self.0.data_port, mask0));
        ws.push(PortWrite::new(self.1.data_port, mask1));
        assert(ws@ =~= init_writes(self.master(), self.slave(), mask0, mask1));
        ws
    }

    /// Whether either controller serves interrupt vector `id`.
    pub fn handle(&self, id: u8) -> (r: bool)
        requires
            self.master().offset() <= id ==> self.master().offset() + 8 <= u8::MAX,
            !serves(self.master().offset(), id) && self.slave().offset() <= id
                ==> self.slave().offset() + 8 <= u8::MAX,
        ensures
            r == (serves(self.master().offset(), id) || serves(self.slave().offset(), id)),
    {
        self.0.handle(id) || self.1.handle(id)
    }

    /// The writes that end interrupt `id`: the slave's first when it serves `id`, then the
    /// master's; none for a vector that neither serves.
    pub fn end(&self, id: u8) -> (ws: Vec<PortWrite>)
        requires
            self.master().offset() <= id ==> self.master().offset() + 8 <= u8::MAX,
            self.slave().offset() <= id ==> self.slave().offset() + 8 <= u8::MAX,
        ensures
            ws@ == if serves(self.slave().offset(), id) {
                seq![pw(self.slave().cmd_port(), END_OF_INTERRUPT), pw(self.master().cmd_port(), END_OF_INTERRUPT)]
            } else if serves(self.master().offset(), id) {
                seq![pw(self.master().cmd_port(), END_OF_INTERRUPT)]
            } else {
                Seq::empty()
            },
    {
        let mut ws: Vec<PortWrite> = Vec::new();
        if self.handle(id) {
            if self.1.handle(id) {
                ws.push(self.1.end());
            }
            ws.push(self.0.end());
        }
        assert(ws@ =~= if serves(self.slave().offset(), id) {
                seq![pw(self.slave().cmd_port(), END_OF_INTERRUPT), pw(self.master().cmd_port(), END_OF_INTERRUPT)]
            } else if serves(self.master().offset(), id) {
                seq![pw(self.master().cmd_port(), END_OF_INTERRUPT)]
            } else {
                Seq::empty()
            });
        ws
    }
}

/// Initialisation sends ICW1 (0x11) to both command ports, then to the data ports each
/// controller's vector offset, the cascade wiring (slave on master line 2, slave identity 2)
/// and 8086 mode (0x01), a delay write after each word; it ends by putting back exactly the
/// masks read before, master then slave.
pub proof fn lemma_init_restores_masks(master: Pic, slave: Pic, mask0: u8, mask1: u8)
    ensures
        init_writes(master, slave, mask0, mask1).len() == 18,
        init_writes(master, slave, mask0, mask1)[16] == (PortWrite { port: master.data_port(), value: mask0 }),
        init_writes(master, slave, mask0, mask1)[17] == (PortWrite { port: slave.data_port(), value: mask1 }),
        init_writes(master, slave, mask0, mask1)[0] == (PortWrite { port: master.cmd_port(), value: 0x11 }),
        init_writes(master, slave, mask0, mask1)[2] == (PortWrite { port: slave.cmd_port(), value: 0x11 }),
        init_writes(master, slave, mask0, mask1)[4] == (PortWrite { port: master.data_port(), value: master.offset() }),
        init_writes(master, slave, mask0, mask1)[6] == (PortWrite { port: slave.data_port(), value: slave.offset() }),
        init_writes(master, slave, mask0, mask1)[8] == (PortWrite { port: master.data_port(), value: 4 }),
        init_writes(master, slave, mask0, mask1)[10] == (PortWrite { port: slave.data_port(), value: 2 }),
        init_writes(master, slave, mask0, mask1)[12] == (PortWrite { port: master.data_port(), value: 1 }),
        init_writes(master, slave, mask0, mask1)[14] == (PortWrite { port: slave.data_port(), value: 1 }),
        forall|i: int| 0 <= i < 8 ==> #[trigger] init_writes(master, slave, mask0, mask1)[2 * i + 1]
            == (PortWrite { port: 0x80, value: 0 }),
{
    let ws = init_writes(master, slave, mask0, mask1);
    assert forall|i: int| 0 <= i < 8 implies #[trigger] ws[2 * i + 1] == (PortWrite { port: 0x80, value: 0 }) by {
        assert(0 <= i < 8);
    }
}

/// Ending an interrupt on the standard pair: vectors 32 to 39 are acknowledged on the master
/// (port 0x20) only, vectors 40 to 47 on the slave (port 0xA0) and then the master, and no
/// other vector is acknowledged at all; the acknowledgement byte is always 0x20.
pub proof fn lemma_end_standard_pair(c: Chained, id: u8)
    requires
        c.master().offset() == 32,
        c.master().cmd_port() == 0x20,
        c.slave().offset() == 40,
        c.slave().cmd_port() == 0xA0,
    ensures
        32 <= id < 40 ==> !serves(c.slave().offset(), id) && serves(c.master().offset(), id),
        40 <= id < 48 ==> serves(c.slave().offset(), id),
        (id < 32 || id >= 48) ==> !serves(c.slave().offset(), id) && !serves(c.master().offset(), id),
        END_OF_INTERRUPT == 0x20,
{
}

} // verus!
