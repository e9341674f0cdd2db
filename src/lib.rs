//! Core of a user-space RDMA driver, each part stated and proved with Verus:
//!
//! - `scheduler`: round-robin scheduling of work descriptors across queue
//!   pairs; `descriptor`: the descriptors and the splitting of a write into
//!   MTU-sized packets.
//! - `pgt` and `mr`: the page-table free-block allocator, the memory-region
//!   table and its keys, and the two-phase registration with the device.
//! - `packet`, `message` and `codec`: the RDMA-over-UDP headers and the
//!   conversion between messages and packet bytes; `icrc` and `frame`: the
//!   invariant CRC and whole IPv4/UDP frames.
//! - `ctrl`: control responses matched to the operations that wait for them;
//!   `responder`: the receive side of the reliable transport.
use vstd::prelude::*;

pub mod codec;
pub mod ctrl;
pub mod descriptor;
pub mod error;
pub mod frame;
pub mod icrc;
pub mod message;
pub mod mr;
pub mod packet;
pub mod pgt;
pub mod responder;
pub mod scheduler;
pub mod types;
pub mod utils;

verus! {

/// Size of a huge page, the unit of memory registration (2 MiB).
pub const PAGE_SIZE: usize = 0x20_0000;

/// Number of entries of the shared page table.
pub const MR_PGT_SIZE: usize = 0x2_0000;

/// Number of slots of the memory-region table.
pub const MR_TABLE_SIZE: usize = 64;

/// Number of upper key bits that hold the memory-region table index.
pub const MR_KEY_IDX_BIT_CNT: u32 = 8;

} // verus!
