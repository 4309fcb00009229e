//! Writes to I/O ports, described as values for the caller to perform in
//! order.
use vstd::prelude::*;

verus! {

/// One byte written to an I/O port.
#[derive(Clone, Copy, Debug, PartialEq, Eq, Structural)]
pub struct PortWrite {
    pub port: i32,
    pub data: i32,
}

/// The write of `data` to `port`.
pub open spec fn port_write(port: i32, data: i32) -> PortWrite {
    PortWrite { port, data }
}

impl PortWrite {
    /// The write of `data` to `port`.
    pub fn new(port: i32, data: i32) -> (r: Self)
        ensures
            r == port_write(port, data),
    {
        PortWrite { port, data }
    }
}

} // verus!
