//! Plain value types shared by the driver's components.
use vstd::prelude::*;

verus! {

/// Path MTU of a queue pair.
#[derive(Debug, Clone, Copy, PartialEq, Eq, Structural)]
pub enum Pmtu {
    Mtu256,
    Mtu512,
    Mtu1024,
    Mtu2048,
    Mtu4096,
}

/// The number of bytes of a path MTU.
pub open spec fn pmtu_bytes(p: Pmtu) -> u32 {
    match p {
        Pmtu::Mtu256 => 256,
        Pmtu::Mtu512 => 512,
        Pmtu::Mtu1024 => 1024,
        Pmtu::Mtu2048 => 2048,
        Pmtu::Mtu4096 => 4096,
    }
}

impl Pmtu {
    /// The number of bytes of this path MTU.
    pub fn to_u32(&self) -> (r: u32)
        ensures
            r == pmtu_bytes(*self),
            256 <= r <= 4096,
    {
        match self {
            Pmtu::Mtu256 => 256,
            Pmtu::Mtu512 => 512,
            Pmtu::Mtu1024 => 1024,
            Pmtu::Mtu2048 => 2048,
            Pmtu::Mtu4096 => 4096,
        }
    }
}

/// Queue pair transport types.
#[derive(Debug, Clone, Copy, PartialEq, Eq, Structural)]
pub enum QpType {
    Rc,
    Uc,
    Ud,
    RawPacket,
    XrcSend,
    XrcRecv,
}

/// The largest value of a 24-bit sequence number, plus one.
pub const PSN_MODULUS: u32 = 0x100_0000;

} // verus!
