//! The receive side of the reliable transport: per queue pair, which request
//! is expected next, and what to do with each one that arrives.
use vstd::prelude::*;

use crate::types::PSN_MODULUS;

verus! {

/// Half of the sequence-number space: the sliding window that tells a
/// duplicate from a request that is ahead.
pub const PSN_HALF_WINDOW: u32 = 0x80_0000;

/// How far `psn` is ahead of `expected`, modulo `2^24`.
pub open spec fn psn_distance(expected: u32, psn: u32) -> int {
    ((psn as int - expected as int) % (PSN_MODULUS as int) + PSN_MODULUS as int) % (PSN_MODULUS as int)
}

/// What the responder does with a request.
#[derive(Debug, Clone, Copy, PartialEq, Eq, Structural)]
pub enum ResponderAction {
    /// The expected request: apply it; acknowledge with this MSN when asked to.
    Process { ack: Option<u32> },
    /// A request seen before: do not apply it; acknowledge again with this MSN.
    Duplicate { ack_msn: u32 },
    /// A request ahead of the expected one: drop it and send a NAK for `expected_psn`.
    OutOfOrder { expected_psn: u32 },
}

/// Per queue pair: the next expected PSN and the MSN of the last completed message.
#[derive(Debug, Clone, Copy, PartialEq, Eq, Structural)]
pub struct ResponderState {
    pub expected_psn: u32,
    pub msn: u32,
}

impl ResponderState {
    /// Both sequence numbers fit in 24 bits.
    pub open spec fn wf(&self) -> bool {
        self.expected_psn < PSN_MODULUS && self.msn < PSN_MODULUS
    }

    /// A queue pair that expects `psn` first and has completed no message.
    pub fn new(psn: u32) -> (r: ResponderState)
        ensures
            r.wf(),
            r.expected_psn == psn % PSN_MODULUS,
            r.msn == 0,
    {
        ResponderState { expected_psn: psn % PSN_MODULUS, msn: 0 }
    }

    /// How far `psn` is ahead of the expected PSN, modulo `2^24`.
    pub fn distance(&self, psn: u32) -> (r: u32)
        requires
            self.wf(),
            psn < PSN_MODULUS,
        ensures
            r == psn_distance(self.expected_psn, psn),
            r < PSN_MODULUS,
    {
        if psn >= self.expected_psn {
            psn - self.expected_psn
        } else {
            PSN_MODULUS - (self.expected_psn - psn)
        }
    }

    /// Handles a request with sequence number `psn`. The expected one is
    /// applied: the expected PSN advances, the MSN advances when the request
    /// ends a message, and an acknowledgement goes out when it ends a message
    /// or asks for one. A request up to half the window behind is a
    /// duplicate; one ahead is out of order.
    pub fn on_request(&mut self, psn: u32, ends_message: bool, ack_req: bool) -> (r: ResponderAction)
        requires
            old(self).wf(),
            psn < PSN_MODULUS,
        ensures
            final(self).wf(),
            ({
                let d = psn_distance(old(self).expected_psn, psn);
                let msn1 = if ends_message {
                    (old(self).msn + 1) % (PSN_MODULUS as int)
                } else {
                    old(self).msn as int
                };
                &&& d == 0 ==> final(self).expected_psn == (old(self).expected_psn + 1) % (PSN_MODULUS as int)
                    && final(self).msn == msn1 && r == ResponderAction::Process {
                    ack: if ends_message || ack_req {
                        Some(msn1 as u32)
                    } else {
                        None
                    },
                }
                &&& d >= PSN_HALF_WINDOW ==> *final(self) == *old(self) && r == ResponderAction::Duplicate {
                    ack_msn: old(self).msn,
                }
                &&& 0 < d < PSN_HALF_WINDOW ==> *final(self) == *old(self) && r == ResponderAction::OutOfOrder {
                    expected_psn: old(self).expected_psn,
                }
            }),
    {
        let d = self.distance(psn);
        if d == 0 {
            self.expected_psn = (self.expected_psn + 1) % PSN_MODULUS;
            if ends_message {
                self.msn = (self.msn + 1) % PSN_MODULUS;
            }
            let ack_msn = if ends_message || ack_req {
                Some(self.msn)
            } else {
                None
            };
            ResponderAction::Process { ack: ack_msn }
        } else if d >= PSN_HALF_WINDOW {
            ResponderAction::Duplicate { ack_msn: self.msn }
        } else {
            ResponderAction::OutOfOrder { expected_psn: self.expected_psn }
        }
    }
}

} // verus!
