use vstd::prelude::*;

verus! {

/// One byte to send to an I/O port.
#[derive(Clone, Copy, Debug, PartialEq, Eq, Structural)]
pub struct PortWrite {
    pub port: u16,
    pub value: u8,
}

/// The write of `value` to `port`, as a value.
pub open spec fn pw(port: u16, value: u8) -> PortWrite {
    PortWrite { port, value }
}

impl PortWrite {
    pub fn new(port: u16, value: u8) -> (w: Self)
        ensures
            w == pw(port, value),
    {
        PortWrite { port, value }
    }
}

} // verus!
