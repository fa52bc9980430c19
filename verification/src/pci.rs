use vstd::prelude::*;

verus! {

/// Port that takes a configuration-space address.
pub const ADDRESS_PORT: u16 = 0xCF8;

/// Port that then yields the addressed configuration dword.
pub const DATA_PORT: u16 = 0xCFC;

/// Vendor id that an empty slot or function reads as.
pub const NO_DEVICE: u32 = 0xFFFF_FFFF;

/// Slots probed on bus 0: `0..SLOTS`.
pub const SLOTS: u8 = 31;

/// Functions probed in a populated slot: `0..FUNCTIONS`.
pub const FUNCTIONS: u8 = 7;

/// The configuration address of register `offset` of `bus:slot.function`: the enable bit,
/// the bus from bit 16, the slot from bit 11, the function from bit 8, and the register
/// offset rounded down to a dword.
pub open spec fn config_address_of(bus: u8, slot: u8, function: u8, offset: u8) -> u32 {
    0x8000_0000u32 | ((bus as u32) << 16u32) | ((slot as u32) << 11u32) | ((function as u32) << 8u32)
        | ((offset & 0xFCu8) as u32)
}

/// Builds the address written to `ADDRESS_PORT` before reading a configuration register.
pub fn config_address(bus: u8, slot: u8, function: u8, offset: u8) -> (a: u32)
    ensures
        a == config_address_of(bus, slot, function, offset),
{
    0x8000_0000u32 | (bus as u32) << 16u32 | (slot as u32) << 11u32 | (function as u32) << 8u32
        | (offset & 0b1111_1100u8) as u32
}

/// For a slot below 32 and a function below 8 the fields do not overlap: the address reads
/// back the enable bit, bus, slot, function and dword-aligned offset.
pub proof fn lemma_config_address_fields(bus: u8, slot: u8, function: u8, offset: u8)
    requires
        slot < 32,
        function < 8,
    ensures
        config_address_of(bus, slot, function, offset) >> 31u32 == 1,
        (config_address_of(bus, slot, function, offset) >> 16u32) & 0xFFu32 == bus as u32,
        (config_address_of(bus, slot, function, offset) >> 11u32) & 0x1Fu32 == slot as u32,
        (config_address_of(bus, slot, function, offset) >> 8u32) & 0x7u32 == function as u32,
        config_address_of(bus, slot, function, offset) & 0xFFu32 == (offset & 0xFCu8) as u32,
{
    let b = bus as u32;
    let s = slot as u32;
    let f = function as u32;
    let o = (offset & 0xFCu8) as u32;
    assert(o <= 0xFF && (o & 3) == 0) by (bit_vector)
        requires
            o == (offset & 0xFCu8) as u32,
    ;
    assert({
        let a = 0x8000_0000u32 | (b << 16u32) | (s << 11u32) | (f << 8u32) | o;
        &&& a >> 31u32 == 1
        &&& (a >> 16u32) & 0xFFu32 == b
        &&& (a >> 11u32) & 0x1Fu32 == s
        &&& (a >> 8u32) & 0x7u32 == f
        &&& a & 0xFFu32 == o
    }) by (bit_vector)
        requires
            b <= 0xFF,
            s < 32,
            f < 8,
            o <= 0xFF,
    ;
}

/// Register offsets of the identifying fields, in the order vendor id, device id, subclass,
/// class, header type.
pub fn register_offsets() -> (r: [u8; 5])
    ensures
        r@ == seq![0x0u8, 0x2, 0xa, 0xb, 0xe],
{
    let r: [u8; 5] = [0x0, 0x2, 0xa, 0xb, 0xe];
    assert(r@ =~= seq![0x0u8, 0x2, 0xa, 0xb, 0xe]);
    r
}

/// The identifying registers of one PCI function.
pub struct PciDevice {
    vendor_id: u32,
    device_id: u32,
    subclass: u32,
    class: u32,
    header_type: u32,
}

impl PciDevice {
    pub closed spec fn fields(&self) -> Seq<u32> {
        seq![self.vendor_id, self.device_id, self.subclass, self.class, self.header_type]
    }

    /// The device whose registers at `register_offsets()` read `regs`, in that order.
    pub fn new(regs: [u32; 5]) -> (d: Self)
        ensures
            d.fields() == regs@,
    {
        let d = PciDevice {
            vendor_id: regs[0],
            device_id: regs[1],
            subclass: regs[2],
            class: regs[3],
            header_type: regs[4],
        };
        assert(d.fields() =~= regs@);
        d
    }

    pub fn vendor_id(&self) -> (v: u32)
        ensures
            v == self.fields()[0],
    {
        self.vendor_id
    }

    pub fn device_id(&self) -> (v: u32)
        ensures
            v == self.fields()[1],
    {
        self.device_id
    }

    /// Whether a device answers: an absent one reads all ones.
    pub fn is_present(&self) -> (r: bool)
        ensures
            r == (self.fields()[0] != NO_DEVICE),
    {
        self.vendor_id != NO_DEVICE
    }
}

/// The scan of bus 0: each slot's function 0 is probed; a slot that answers has its
/// functions `0..FUNCTIONS` probed one by one and each one that answers reported.
pub struct PciScan {
    slot: u8,
    function: u8,
    in_slot: bool,
}

/// Where a scan stands: the slot, the function, and whether the slot's functions are being
/// probed.
pub struct ScanState {
    pub slot: int,
    pub function: int,
    pub in_slot: bool,
}

/// The scan after the probe of its current target, given whether a device answered.
pub open spec fn scan_step(s: ScanState, present: bool) -> ScanState {
    if !s.in_slot {
        if present {
            ScanState { slot: s.slot, function: 0, in_slot: true }
        } else {
            ScanState { slot: s.slot + 1, function: 0, in_slot: false }
        }
    } else if s.function + 1 >= FUNCTIONS {
        ScanState { slot: s.slot + 1, function: 0, in_slot: false }
    } else {
        ScanState { slot: s.slot, function: s.function + 1, in_slot: true }
    }
}

/// Probes left before the scan ends, at most.
pub open spec fn scan_budget(s: ScanState) -> int {
    (SLOTS - s.slot) * (FUNCTIONS + 1) - if s.in_slot {
        1 + s.function
    } else {
        0
    }
}

impl PciScan {
    pub closed spec fn state(&self) -> ScanState {
        ScanState { slot: self.slot as int, function: self.function as int, in_slot: self.in_slot }
    }

    /// A scan at slot 0.
    pub fn new() -> (s: Self)
        ensures
            s.state() == (ScanState { slot: 0, function: 0, in_slot: false }),
    {
        PciScan { slot: 0, function: 0, in_slot: false }
    }

    /// The slot and function to probe next, or `None` once every slot is done.
    pub fn target(&self) -> (t: Option<(u8, u8)>)
        ensures
            t == if self.state().slot >= SLOTS {
                None
            } else {
                Some(
                    (
                        self.state().slot as u8,
                        if self.state().in_slot {
                            self.state().function as u8
                        } else {
                            0u8
                        },
                    ),
                )
            },
    {
        if self.slot >= SLOTS {
            None
        } else if self.in_slot {
            Some((self.slot, self.function))
        } else {
            Some((self.slot, 0))
        }
    }

    /// Takes the result of probing the current target; returns whether it is a function to
    /// report.
    pub fn step(&mut self, present: bool) -> (report: bool)
        requires
            old(self).state().slot < SLOTS,
            old(self).state().function < FUNCTIONS,
        ensures
            final(self).state() == scan_step(old(self).state(), present),
            report == (old(self).state().in_slot && present),
            final(self).state().function < FUNCTIONS,
            0 <= scan_budget(final(self).state()) < scan_budget(old(self).state()),
    {
        if !self.in_slot {
            if present {
                self.in_slot = true;
                self.function = 0;
            } else {
                self.slot = self.slot + 1;
                self.function = 0;
            }
            false
        } else {
            let report = present;
            if self.function + 1 >= FUNCTIONS {
                self.slot = self.slot + 1;
                self.function = 0;
                self.in_slot = false;
            } else {
                self.function = self.function + 1;
            }
            report
        }
    }
}

} // verus!
