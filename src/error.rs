//! Errors of the driver core.
use vstd::prelude::*;

use crate::packet::PacketError;

verus! {

/// A resource whose allocator can run dry.
#[derive(Debug, Clone, Copy, PartialEq, Eq, Structural)]
pub enum Resource {
    /// A slot of the memory-region table.
    Mr,
    /// A run of page-table entries.
    MrPageTable,
}

/// Which address failed an alignment check.
#[derive(Debug, Clone, Copy, PartialEq, Eq, Structural)]
pub enum AddressKind {
    Va,
    Pa,
}

/// A control operation that the device can refuse.
#[derive(Debug, Clone, Copy, PartialEq, Eq, Structural)]
pub enum CtrlOpKind {
    UpdatePageTable,
    RegisterMrTable,
    DeregisterMrTable,
}

/// Errors of the driver core.
#[derive(Debug, Clone, Copy, PartialEq, Eq, Structural)]
pub enum Error {
    /// The allocator of a resource is empty.
    ResourceNoAvailable(Resource),
    /// The protection domain is unknown.
    InvalidPd(u32),
    /// No memory region stands in this table slot.
    InvalidMr(u32),
    /// An address is not aligned to the page size.
    AddressNotAlign(AddressKind, u64),
    /// The page size is not a power of two of at least 2 MiB.
    InvalidPageSize(u32),
    /// The region does not fit the address space.
    NotSupport,
    /// The device answered a control operation with a failure.
    DeviceReturnFailed(CtrlOpKind),
    /// An operation context was torn down before its result was set.
    SetCtxResultFailed,
    /// A lock was poisoned by a panicking thread.
    LockPoisoned,
    /// The packet codec failed.
    Packet(PacketError),
}

} // verus!
