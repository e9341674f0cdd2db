//! Work descriptors handed to the card, and the splitting of a logical write
//! into MTU-sized packets.
use vstd::prelude::*;

use crate::packet::ToHostWorkRbDescOpcode;
use crate::types::{pmtu_bytes, Pmtu, QpType, PSN_MODULUS};
use crate::utils::{calculate_packet_cnt, first_packet_max_length_spec, get_first_packet_max_length, packet_count_spec};

verus! {

/// A scatter/gather element: local address, length and key.
#[derive(Debug, Clone, Copy, PartialEq, Eq, Structural)]
pub struct ToCardCtrlRbDescSge {
    pub addr: u64,
    pub len: u32,
    pub key: u32,
}

/// Fields that every work descriptor carries.
#[derive(Debug, Clone, Copy, PartialEq, Eq, Structural)]
pub struct ToCardWorkRbDescCommon {
    pub total_len: u32,
    pub raddr: u64,
    pub rkey: u32,
    /// Destination IPv4 address, most significant octet first.
    pub dqp_ip: u32,
    pub dqpn: u32,
    /// Destination MAC address in the low 48 bits.
    pub mac_addr: u64,
    pub pmtu: Pmtu,
    /// Memory access flags.
    pub flags: u8,
    pub qp_type: QpType,
    pub psn: u32,
    pub msn: u32,
}

/// A write or a read response, with up to four gather elements.
#[derive(Debug, Clone, Copy, PartialEq, Eq, Structural)]
pub struct ToCardWorkRbDescWrite {
    pub common: ToCardWorkRbDescCommon,
    pub is_last: bool,
    pub is_first: bool,
    pub sge0: ToCardCtrlRbDescSge,
    pub sge1: Option<ToCardCtrlRbDescSge>,
    pub sge2: Option<ToCardCtrlRbDescSge>,
    pub sge3: Option<ToCardCtrlRbDescSge>,
}

/// A write with an immediate value.
#[derive(Debug, Clone, Copy, PartialEq, Eq, Structural)]
pub struct ToCardWorkRbDescWriteWithImm {
    pub common: ToCardWorkRbDescCommon,
    pub is_last: bool,
    pub is_first: bool,
    pub imm: u32,
    pub sge0: ToCardCtrlRbDescSge,
    pub sge1: Option<ToCardCtrlRbDescSge>,
    pub sge2: Option<ToCardCtrlRbDescSge>,
    pub sge3: Option<ToCardCtrlRbDescSge>,
}

/// A read request: the local sink of the data.
#[derive(Debug, Clone, Copy, PartialEq, Eq, Structural)]
pub struct ToCardWorkRbDescRead {
    pub common: ToCardWorkRbDescCommon,
    pub sge: ToCardCtrlRbDescSge,
}

/// An acknowledgement to send.
#[derive(Debug, Clone, Copy, PartialEq, Eq, Structural)]
pub struct ToCardWorkRbDescAck {
    pub common: ToCardWorkRbDescCommon,
}

/// A work descriptor for the to-card work ring.
#[derive(Debug, Clone, Copy, PartialEq, Eq, Structural)]
pub enum ToCardWorkRbDesc {
    Read(ToCardWorkRbDescRead),
    Write(ToCardWorkRbDescWrite),
    ReadResp(ToCardWorkRbDescWrite),
    WriteWithImm(ToCardWorkRbDescWriteWithImm),
    Acknowledge(ToCardWorkRbDescAck),
}

/// The common fields of a descriptor.
pub open spec fn desc_common(d: ToCardWorkRbDesc) -> ToCardWorkRbDescCommon {
    match d {
        ToCardWorkRbDesc::Read(r) => r.common,
        ToCardWorkRbDesc::Write(w) => w.common,
        ToCardWorkRbDesc::ReadResp(w) => w.common,
        ToCardWorkRbDesc::WriteWithImm(w) => w.common,
        ToCardWorkRbDesc::Acknowledge(a) => a.common,
    }
}

/// The common fields of a descriptor.
pub fn get_to_card_desc_common(d: &ToCardWorkRbDesc) -> (r: &ToCardWorkRbDescCommon)
    ensures
        *r == desc_common(*d),
{
    match d {
        ToCardWorkRbDesc::Read(r) => &r.common,
        ToCardWorkRbDesc::Write(w) => &w.common,
        ToCardWorkRbDesc::ReadResp(w) => &w.common,
        ToCardWorkRbDesc::WriteWithImm(w) => &w.common,
        ToCardWorkRbDesc::Acknowledge(a) => &a.common,
    }
}

/// A single-packet RC write of `size` bytes to remote address zero of queue
/// pair `qpn`, from local address `0x1000`.
pub open spec fn sample_write(qpn: u32, size: u32) -> ToCardWorkRbDesc {
    ToCardWorkRbDesc::Write(
        ToCardWorkRbDescWrite {
            common: ToCardWorkRbDescCommon {
                total_len: size,
                raddr: 0,
                rkey: 1234,
                dqp_ip: 0x7f00_0001,
                dqpn: qpn,
                mac_addr: 0,
                pmtu: Pmtu::Mtu1024,
                flags: 0,
                qp_type: QpType::Rc,
                psn: 1234,
                msn: 0,
            },
            is_last: true,
            is_first: true,
            sge0: ToCardCtrlRbDescSge { addr: 0x1000, len: size, key: 0x1234 },
            sge1: None,
            sge2: None,
            sge3: None,
        },
    )
}

/// A single-packet RC write of `size` bytes to queue pair 4.
pub fn generate_big_descriptor(size: u32) -> (r: ToCardWorkRbDesc)
    ensures
        r == sample_write(4, size),
{
    ToCardWorkRbDesc::Write(
        ToCardWorkRbDescWrite {
            common: ToCardWorkRbDescCommon {
                total_len: size,
                raddr: 0,
                rkey: 1234,
                dqp_ip: 0x7f00_0001,
                dqpn: 4,
                mac_addr: 0,
                pmtu: Pmtu::Mtu1024,
                flags: 0,
                qp_type: QpType::Rc,
                psn: 1234,
                msn: 0,
            },
            is_last: true,
            is_first: true,
            sge0: ToCardCtrlRbDescSge { addr: 0x1000, len: size, key: 0x1234 },
            sge1: None,
            sge2: None,
            sge3: None,
        },
    )
}

/// `num` copies of a 512-byte single-packet write to queue pair `qpn`.
pub fn generate_random_descriptors(qpn: u32, num: usize) -> (r: Vec<ToCardWorkRbDesc>)
    ensures
        r@ == Seq::new(num as nat, |i: int| sample_write(qpn, 512)),
{
    let mut desc = generate_big_descriptor(512);
    match &mut desc {
        ToCardWorkRbDesc::Write(w) => {
            w.common.dqpn = qpn;
        },
        _ => {},
    }
    let mut ret: Vec<ToCardWorkRbDesc> = Vec::new();
    let mut i: usize = 0;
    while i < num
        invariant
            i <= num,
            desc == sample_write(qpn, 512),
            ret@ == Seq::new(i as nat, |k: int| sample_write(qpn, 512)),
        decreases num - i,
    {
        ret.push(desc);
        assert(ret@ =~= Seq::new((i + 1) as nat, |k: int| sample_write(qpn, 512)));
        i = i + 1;
    }
    ret
}

/// One packet of a logical write: where it lands, how long it is, its
/// sequence number and its opcode.
#[derive(Debug, Clone, Copy, PartialEq, Eq, Structural)]
pub struct PacketSlice {
    pub raddr: u64,
    pub len: u32,
    pub psn: u32,
    pub opcode: ToHostWorkRbDescOpcode,
}

/// Length of the first packet of a transfer.
pub open spec fn first_len_spec(raddr: u64, total_len: u32, pmtu: u32) -> int {
    let m = first_packet_max_length_spec(raddr, pmtu);
    if total_len < m {
        total_len as int
    } else {
        m
    }
}

/// Opcode of packet `i` of `n` of a write; the immediate variants go on the last one.
pub open spec fn write_opcode_spec(n: int, i: int, with_imm: bool) -> ToHostWorkRbDescOpcode {
    if n == 1 {
        if with_imm {
            ToHostWorkRbDescOpcode::RdmaWriteOnlyWithImmediate
        } else {
            ToHostWorkRbDescOpcode::RdmaWriteOnly
        }
    } else if i == 0 {
        ToHostWorkRbDescOpcode::RdmaWriteFirst
    } else if i == n - 1 {
        if with_imm {
            ToHostWorkRbDescOpcode::RdmaWriteLastWithImmediate
        } else {
            ToHostWorkRbDescOpcode::RdmaWriteLast
        }
    } else {
        ToHostWorkRbDescOpcode::RdmaWriteMiddle
    }
}

/// Opcode of packet `i` of `n` of a write.
fn write_opcode(n: u32, i: u32, with_imm: bool) -> (r: ToHostWorkRbDescOpcode)
    requires
        i < n,
    ensures
        r == write_opcode_spec(n as int, i as int, with_imm),
{
    if n == 1 {
        if with_imm {
            ToHostWorkRbDescOpcode::RdmaWriteOnlyWithImmediate
        } else {
            ToHostWorkRbDescOpcode::RdmaWriteOnly
        }
    } else if i == 0 {
        ToHostWorkRbDescOpcode::RdmaWriteFirst
    } else if i + 1 == n {
        if with_imm {
            ToHostWorkRbDescOpcode::RdmaWriteLastWithImmediate
        } else {
            ToHostWorkRbDescOpcode::RdmaWriteLast
        }
    } else {
        ToHostWorkRbDescOpcode::RdmaWriteMiddle
    }
}

/// The sequence number `n` packets after `psn`, modulo `2^24`.
pub fn next_psn(psn: u32, n: u32) -> (r: u32)
    ensures
        r == (psn + n) % (PSN_MODULUS as int),
{
    ((psn as u64 + n as u64) % (PSN_MODULUS as u64)) as u32
}

proof fn lemma_split_bounds(rest: int, p: int, k: int)
    requires
        rest >= 0,
        p > 0,
        k == (rest + p - 1) / p,
    ensures
        k >= 0,
        rest <= k * p,
        k >= 1 ==> (k - 1) * p < rest,
        k == 0 ==> rest == 0,
{
    vstd::arithmetic::div_mod::lemma_fundamental_div_mod(rest + p - 1, p);
    let q = (rest + p - 1) % p;
    assert(k >= 0 && rest <= k * p && (k >= 1 ==> (k - 1) * p < rest) && (k == 0 ==> rest == 0))
        by (nonlinear_arith)
        requires
            rest + p - 1 == p * k + q,
            0 <= q < p,
            rest >= 0,
            p > 0,
    ;
}

proof fn lemma_mul_step(a: int, m: int)
    requires
        m > 0,
    ensures
        (a - 1) * m == a * m - m,
        a >= 1 ==> a * m >= m,
        a <= 0 ==> a * m <= 0,
{
    assert((a - 1) * m == a * m - m && (a >= 1 ==> a * m >= m) && (a <= 0 ==> a * m <= 0)) by (nonlinear_arith)
        requires
            m > 0,
    ;
}

/// Splits a write of `total_len` bytes to `raddr` into packets at every
/// `pmtu` boundary. The packets are contiguous and cover the transfer; all but
/// the first and the last are `pmtu` long; their sequence numbers run from
/// `psn` on, modulo `2^24`; their opcodes are First, Middle..., Last, or Only
/// for a single packet, with the immediate variant on the last when asked.
pub fn split_write(raddr: u64, total_len: u32, pmtu: Pmtu, psn: u32, with_imm: bool) -> (r: Vec<PacketSlice>)
    requires
        raddr + total_len <= u64::MAX,
    ensures
        r@.len() == packet_count_spec(raddr, total_len, pmtu_bytes(pmtu)),
        r@[0].raddr == raddr,
        r@[0].len == first_len_spec(raddr, total_len, pmtu_bytes(pmtu)),
        forall|i: int| 0 < i < r@.len() ==> #[trigger] r@[i].raddr == r@[i - 1].raddr + r@[i - 1].len,
        forall|i: int| 0 < i < r@.len() - 1 ==> #[trigger] r@[i].len == pmtu_bytes(pmtu),
        r@[r@.len() - 1].raddr + r@[r@.len() - 1].len == raddr + total_len,
        forall|i: int| 0 <= i < r@.len() ==> #[trigger] r@[i].psn == (psn + i) % (PSN_MODULUS as int),
        forall|i: int|
            0 <= i < r@.len() ==> #[trigger] r@[i].opcode == write_opcode_spec(r@.len() as int, i, with_imm),
{
    let cnt = calculate_packet_cnt(pmtu, raddr, total_len);
    let mtu = pmtu.to_u32();
    let first_max = get_first_packet_max_length(raddr, mtu);
    let first = if total_len < first_max {
        total_len
    } else {
        first_max
    };
    let ghost rest: int = total_len - first;
    let ghost k: int = crate::utils::ceil_div(rest, mtu as int);
    proof {
        lemma_split_bounds(rest, mtu as int, k);
    }
    let mut out: Vec<PacketSlice> = Vec::new();
    let mut i: u32 = 0;
    let mut off: u32 = 0;
    while i < cnt
        invariant
            cnt == 1 + k,
            k >= 0,
            rest == total_len - first,
            rest <= k * mtu,
            k >= 1 ==> (k - 1) * mtu < rest,
            k == 0 ==> rest == 0,
            mtu == pmtu_bytes(pmtu),
            mtu > 0,
            first == first_len_spec(raddr, total_len, mtu),
            0 <= first <= total_len,
            raddr + total_len <= u64::MAX,
            i <= cnt,
            out@.len() == i,
            i == 0 ==> off == 0,
            0 < i < cnt ==> (cnt - 1 - i) * mtu < total_len - off <= (cnt - i) * mtu,
            off <= total_len,
            i == cnt ==> off == total_len,
            i > 0 ==> out@[i - 1].raddr + out@[i - 1].len == raddr + off,
            i > 0 ==> out@[0].raddr == raddr && out@[0].len == first,
            forall|j: int| 0 < j < i ==> #[trigger] out@[j].raddr == out@[j - 1].raddr + out@[j - 1].len,
            forall|j: int| 0 < j < i && j < cnt - 1 ==> #[trigger] out@[j].len == mtu,
            forall|j: int| 0 <= j < i ==> #[trigger] out@[j].psn == (psn + j) % (PSN_MODULUS as int),
            forall|j: int| 0 <= j < i ==> #[trigger] out@[j].opcode == write_opcode_spec(cnt as int, j, with_imm),
        decreases cnt - i,
    {
        proof {
            lemma_mul_step((cnt - 1 - i) as int, mtu as int);
            lemma_mul_step((cnt - i) as int, mtu as int);
        }
        let len = if i == 0 {
            first
        } else if total_len - off < mtu {
            total_len - off
        } else {
            mtu
        };
        let slice = PacketSlice {
            raddr: raddr + off as u64,
            len,
            psn: next_psn(psn, i),
            opcode: write_opcode(cnt, i, with_imm),
        };
        out.push(slice);
        off = off + len;
        i = i + 1;
    }
    out
}

} // verus!
