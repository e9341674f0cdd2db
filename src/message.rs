//! The RDMA message model: what a packet's headers say, decoded into plain
//! values, together with its payload; and how header bytes map to that model.
use vstd::prelude::*;

use crate::packet::{
    aeth_code_of_value, aeth_code_value, opcode_code, opcode_of_code, trans_type_code,
    trans_type_of_code, PacketError, ToHostWorkRbDescAethCode, ToHostWorkRbDescOpcode,
    ToHostWorkRbDescTransType, AETH, BTH, RDMA_PAYLOAD_ALIGNMENT, RETH, Immediate,
};
use crate::utils::{be_bytes, be_value, lemma_be_value_of_bytes, pow256};

verus! {

/// The fields of the base transport header.
#[derive(Debug, Clone, Copy, PartialEq, Eq, Structural)]
pub struct RdmaMessageMetaCommon {
    pub tran_type: ToHostWorkRbDescTransType,
    pub opcode: ToHostWorkRbDescOpcode,
    pub solicited: bool,
    pub pkey: u16,
    pub dqpn: u32,
    pub ack_req: bool,
    pub psn: u32,
}

/// The fields of an RDMA extended transport header.
#[derive(Debug, Clone, Copy, PartialEq, Eq, Structural)]
pub struct RethHeader {
    pub va: u64,
    pub rkey: u32,
    pub len: u32,
}

/// Metadata of a request, a write or a read response.
#[derive(Debug, Clone, Copy, PartialEq, Eq, Structural)]
pub struct RdmaGeneralMeta {
    pub common_meta: RdmaMessageMetaCommon,
    pub reth: RethHeader,
    pub imm: Option<u32>,
    /// The local sink of a read request.
    pub secondary_reth: Option<RethHeader>,
}

/// Metadata of an acknowledgement.
#[derive(Debug, Clone, Copy, PartialEq, Eq, Structural)]
pub struct AethHeader {
    pub common_meta: RdmaMessageMetaCommon,
    pub aeth_code: ToHostWorkRbDescAethCode,
    pub aeth_value: u8,
    pub msn: u32,
}

/// What the headers of a packet say.
#[derive(Debug, Clone, Copy, PartialEq, Eq, Structural)]
pub enum Metadata {
    General(RdmaGeneralMeta),
    Acknowledge(AethHeader),
}

/// The bytes that a message carries after its headers.
#[derive(Debug, Clone)]
pub struct PayloadInfo {
    data: Vec<u8>,
}

impl View for PayloadInfo {
    type V = Seq<u8>;

    closed spec fn view(&self) -> Seq<u8> {
        self.data@
    }
}

/// Number of bytes that pad a payload of `len` bytes to a multiple of four.
pub open spec fn pad_of(len: nat) -> nat {
    ((4 - len % 4) % 4) as nat
}

impl PayloadInfo {
    /// An empty payload.
    pub fn new() -> (r: PayloadInfo)
        ensures
            r@ == Seq::<u8>::empty(),
    {
        PayloadInfo { data: Vec::new() }
    }

    /// A payload holding a copy of `data`.
    pub fn new_with_data(data: &[u8]) -> (r: PayloadInfo)
        ensures
            r@ == data@,
    {
        let mut r = PayloadInfo::new();
        r.add(data);
        r
    }

    /// Appends a fragment to the payload.
    pub fn add(&mut self, data: &[u8])
        ensures
            final(self)@ == old(self)@ + data@,
    {
        let mut i: usize = 0;
        while i < data.len()
            invariant
                i <= data@.len(),
                self@ == old(self)@ + data@.subrange(0, i as int),
            decreases data@.len() - i,
        {
            self.data.push(data[i]);
            assert(data@.subrange(0, i + 1) =~= data@.subrange(0, i as int).push(data[i as int]));
            i = i + 1;
        }
        assert(data@.subrange(0, i as int) =~= data@);
    }

    /// Total number of bytes of the payload.
    pub fn get_length(&self) -> (r: usize)
        ensures
            r == self@.len(),
    {
        self.data.len()
    }

    /// Number of bytes that pad the payload to a multiple of four.
    pub fn get_pad_cnt(&self) -> (r: usize)
        ensures
            r == pad_of(self@.len()),
            r < 4,
    {
        let len = self.data.len();
        (RDMA_PAYLOAD_ALIGNMENT - len % RDMA_PAYLOAD_ALIGNMENT) % RDMA_PAYLOAD_ALIGNMENT
    }

    /// The payload's bytes.
    pub fn as_slice(&self) -> (r: &[u8])
        ensures
            r@ == self@,
    {
        self.data.as_slice()
    }

    /// Copies the payload into the front of `dest`.
    pub fn copy_to(&self, dest: &mut Vec<u8>)
        requires
            old(dest)@.len() >= self@.len(),
        ensures
            final(dest)@ == self@ + old(dest)@.subrange(self@.len() as int, old(dest)@.len() as int),
    {
        let n = self.data.len();
        let mut i: usize = 0;
        while i < n
            invariant
                n == self@.len(),
                i <= n,
                n <= old(dest)@.len(),
                dest@.len() == old(dest)@.len(),
                forall|k: int| 0 <= k < i ==> dest@[k] == self@[k],
                forall|k: int| i <= k < dest@.len() ==> dest@[k] == old(dest)@[k],
            decreases n - i,
        {
            dest.set(i, self.data[i]);
            i = i + 1;
        }
        assert(dest@ =~= self@ + old(dest)@.subrange(self@.len() as int, old(dest)@.len() as int));
    }
}

/// A decoded packet: its metadata and its payload.
#[derive(Debug, Clone)]
pub struct RdmaMessage {
    pub meta_data: Metadata,
    pub payload: PayloadInfo,
}

/// The base-transport fields that twelve header bytes hold.
pub open spec fn wire_common(s: Seq<u8>) -> Result<RdmaMessageMetaCommon, PacketError> {
    match trans_type_of_code((s[0] / 32) as u8) {
        None => Err(PacketError::FailedToConvertTransType),
        Some(t) => match opcode_of_code((s[0] % 32) as u8) {
            None => Err(PacketError::InvalidOpcode),
            Some(o) => Ok(
                RdmaMessageMetaCommon {
                    tran_type: t,
                    opcode: o,
                    solicited: s[1] >= 128,
                    pkey: be_value(s.subrange(2, 4)) as u16,
                    dqpn: be_value(s.subrange(5, 8)) as u32,
                    ack_req: s[8] >= 128,
                    psn: be_value(s.subrange(9, 12)) as u32,
                },
            ),
        },
    }
}

/// The pad count that twelve base-transport header bytes hold.
pub open spec fn wire_pad_cnt(s: Seq<u8>) -> nat {
    ((s[1] / 32) % 4) as nat
}

/// The fields that sixteen extended transport header bytes hold.
pub open spec fn wire_reth(s: Seq<u8>) -> RethHeader {
    RethHeader {
        va: be_value(s.subrange(0, 8)) as u64,
        rkey: be_value(s.subrange(8, 12)) as u32,
        len: be_value(s.subrange(12, 16)) as u32,
    }
}

/// The acknowledgement that four AETH bytes hold, with the given transport fields.
pub open spec fn wire_aeth(c: RdmaMessageMetaCommon, s: Seq<u8>) -> AethHeader {
    AethHeader {
        common_meta: c,
        aeth_code: aeth_code_of_value(((s[0] / 32) % 4) as u8),
        aeth_value: (s[0] % 32) as u8,
        msn: be_value(s.subrange(1, 4)) as u32,
    }
}

/// Twelve base-transport header bytes for `c` and a pad count, reserved bits zero.
pub open spec fn bth_wire(c: RdmaMessageMetaCommon, pad: nat) -> Seq<u8> {
    seq![
        (trans_type_code(c.tran_type) * 32 + opcode_code(c.opcode)) as u8,
        ((if c.solicited { 128int } else { 0int }) + pad * 32) as u8,
    ] + be_bytes(c.pkey as nat, 2) + seq![0u8] + be_bytes((c.dqpn % 0x100_0000) as nat, 3) + seq![
        if c.ack_req { 128u8 } else { 0u8 },
    ] + be_bytes((c.psn % 0x100_0000) as nat, 3)
}

/// Sixteen extended transport header bytes for `r`.
pub open spec fn reth_wire(r: RethHeader) -> Seq<u8> {
    be_bytes(r.va as nat, 8) + be_bytes(r.rkey as nat, 4) + be_bytes(r.len as nat, 4)
}

/// Four AETH bytes for `a`, the reserved bit zero.
pub open spec fn aeth_wire(a: AethHeader) -> Seq<u8> {
    seq![(aeth_code_value(a.aeth_code) * 32 + a.aeth_value % 32) as u8] + be_bytes(
        (a.msn % 0x100_0000) as nat,
        3,
    )
}

/// Values of `256^n` that the header widths use.
pub proof fn lemma_pow256_small()
    ensures
        pow256(2) == 0x1_0000,
        pow256(3) == 0x100_0000,
        pow256(4) == 0x1_0000_0000,
        pow256(8) == 0x1_0000_0000_0000_0000,
{
    reveal_with_fuel(pow256, 9);
}

impl RdmaMessageMetaCommon {
    /// Decodes the base transport header.
    pub fn new_from_bth(bth: &BTH) -> (r: Result<RdmaMessageMetaCommon, PacketError>)
        ensures
            r == wire_common(bth.view_bytes()),
    {
        let s = Ghost(bth.view_bytes());
        proof {
            assert(s@.subrange(2, 4) =~= bth.pkey@);
            assert(s@.subrange(5, 8) =~= bth.destination_qpn@.subrange(1, 4));
            assert(s@.subrange(9, 12) =~= bth.psn@.subrange(1, 4));
            assert(s@[0] == bth.tran_type_and_opcode);
            assert(s@[1] == bth.flags);
            assert(s@[8] == bth.psn[0]);
        }
        let tran_type = match ToHostWorkRbDescTransType::from_u8(bth.get_transaction_type()) {
            Ok(t) => t,
            Err(e) => return Err(e),
        };
        let opcode = match ToHostWorkRbDescOpcode::from_u8(bth.get_opcode()) {
            Ok(o) => o,
            Err(e) => return Err(e),
        };
        Ok(
            RdmaMessageMetaCommon {
                tran_type,
                opcode,
                solicited: bth.get_solicited(),
                pkey: bth.get_pkey(),
                dqpn: bth.get_destination_qpn(),
                ack_req: bth.get_ack_req(),
                psn: bth.get_psn(),
            },
        )
    }
}

impl RethHeader {
    /// Decodes an extended transport header.
    pub fn new_from_reth(reth: &RETH) -> (r: RethHeader)
        ensures
            r == wire_reth(reth.view_bytes()),
    {
        let s = Ghost(reth.view_bytes());
        proof {
            assert(s@.subrange(0, 8) =~= reth.va@);
            assert(s@.subrange(8, 12) =~= reth.rkey@);
            assert(s@.subrange(12, 16) =~= reth.dlen@);
        }
        RethHeader { va: reth.get_va(), rkey: reth.get_rkey(), len: reth.get_dlen() }
    }
}

impl RdmaGeneralMeta {
    /// Decodes the headers of a request, a write or a read response.
    pub fn new_from_packet(bth: &BTH, reth: &RETH, imm: Option<&Immediate>, secondary_reth: Option<&RETH>) -> (r:
        Result<RdmaGeneralMeta, PacketError>)
        ensures
            r == match wire_common(bth.view_bytes()) {
                Err(e) => Err(e),
                Ok(c) => Ok(
                    RdmaGeneralMeta {
                        common_meta: c,
                        reth: wire_reth(reth.view_bytes()),
                        imm: match imm {
                            Some(i) => Some(be_value(i.view_bytes()) as u32),
                            None => None,
                        },
                        secondary_reth: match secondary_reth {
                            Some(s) => Some(wire_reth(s.view_bytes())),
                            None => None,
                        },
                    },
                ),
            },
    {
        let common_meta = match RdmaMessageMetaCommon::new_from_bth(bth) {
            Ok(c) => c,
            Err(e) => return Err(e),
        };
        let imm_value = match imm {
            Some(i) => Some(i.get()),
            None => None,
        };
        let secondary = match secondary_reth {
            Some(s) => Some(RethHeader::new_from_reth(s)),
            None => None,
        };
        Ok(
            RdmaGeneralMeta {
                common_meta,
                reth: RethHeader::new_from_reth(reth),
                imm: imm_value,
                secondary_reth: secondary,
            },
        )
    }
}

impl AethHeader {
    /// Decodes the headers of an acknowledgement.
    pub fn new_from_packet(bth: &BTH, aeth: &AETH) -> (r: Result<AethHeader, PacketError>)
        ensures
            r == match wire_common(bth.view_bytes()) {
                Err(e) => Err(e),
                Ok(c) => Ok(wire_aeth(c, aeth.view_bytes())),
            },
    {
        let common_meta = match RdmaMessageMetaCommon::new_from_bth(bth) {
            Ok(c) => c,
            Err(e) => return Err(e),
        };
        let code = aeth.get_aeth_code();
        let aeth_code = match ToHostWorkRbDescAethCode::from_u8(code) {
            Ok(c) => c,
            Err(e) => return Err(e),
        };
        proof {
            assert(aeth.view_bytes().subrange(1, 4) =~= aeth.value@.subrange(1, 4));
        }
        Ok(AethHeader { common_meta, aeth_code, aeth_value: aeth.get_aeth_value(), msn: aeth.get_msn() })
    }
}

/// A base transport header whose fields hold `c` and `pad`, with its reserved
/// bits clear, has the bytes `bth_wire(c, pad)`.
pub proof fn lemma_bth_bytes(b: BTH, c: RdmaMessageMetaCommon, pad: nat)
    requires
        pad < 4,
        b.spec_opcode() == opcode_code(c.opcode),
        b.spec_transaction_type() == trans_type_code(c.tran_type),
        b.spec_solicited() == c.solicited,
        b.spec_pad_cnt() == pad,
        b.flags % 32 == 0,
        b.spec_pkey() == c.pkey,
        b.destination_qpn[0] == 0,
        b.spec_destination_qpn() == c.dqpn % 0x100_0000,
        b.spec_ack_req() == c.ack_req,
        b.psn[0] % 128 == 0,
        b.spec_psn() == c.psn % 0x100_0000,
    ensures
        b.view_bytes() == bth_wire(c, pad),
{
    let x = b.tran_type_and_opcode;
    let f = b.flags;
    let psn_hi = b.psn[0];
    assert(x == (x / 32) * 32 + x % 32) by (bit_vector);
    let sol: int = if c.solicited { 128 } else { 0 };
    assert(f == (if f >= 128 { 128int } else { 0int }) + ((f / 32) % 4) * 32 + f % 32) by (bit_vector);
    assert(psn_hi == (if psn_hi >= 128 { 128u8 } else { 0u8 }) + psn_hi % 128) by (bit_vector);
    crate::utils::lemma_be_bytes_of_value(b.pkey@);
    crate::utils::lemma_be_bytes_of_value(b.destination_qpn@.subrange(1, 4));
    crate::utils::lemma_be_bytes_of_value(b.psn@.subrange(1, 4));
    assert(b.view_bytes() =~= bth_wire(c, pad));
}

/// Reading back `bth_wire(c, pad)`, followed by anything, gives `c` and `pad`.
pub proof fn lemma_bth_wire_parse(c: RdmaMessageMetaCommon, pad: nat, rest: Seq<u8>)
    requires
        pad < 4,
        c.dqpn < 0x100_0000,
        c.psn < 0x100_0000,
    ensures
        bth_wire(c, pad).len() == 12,
        (bth_wire(c, pad) + rest).subrange(0, 12) == bth_wire(c, pad),
        wire_common(bth_wire(c, pad)) == Ok::<RdmaMessageMetaCommon, PacketError>(c),
        wire_pad_cnt(bth_wire(c, pad) + rest) == pad,
        (bth_wire(c, pad) + rest)[0] % 32 == opcode_code(c.opcode),
{
    let s = bth_wire(c, pad);
    lemma_pow256_small();
    lemma_be_value_of_bytes(c.pkey as nat, 2);
    lemma_be_value_of_bytes(c.dqpn as nat, 3);
    lemma_be_value_of_bytes(c.psn as nat, 3);
    assert(s.len() == 12);
    assert((s + rest).subrange(0, 12) =~= s);
    assert(s.subrange(2, 4) =~= be_bytes(c.pkey as nat, 2));
    assert(s.subrange(5, 8) =~= be_bytes(c.dqpn as nat, 3));
    assert(s.subrange(9, 12) =~= be_bytes(c.psn as nat, 3));
    let t = trans_type_code(c.tran_type);
    let o = opcode_code(c.opcode);
    crate::packet::lemma_opcode_code_inverse(c.opcode);
    assert(s[0] / 32 == t && s[0] % 32 == o) by (nonlinear_arith)
        requires
            s[0] == t * 32 + o,
            o < 32,
            t < 8,
    ;
    let sol: int = if c.solicited { 128 } else { 0 };
    assert(s[1] / 32 % 4 == pad && (s[1] >= 128) == c.solicited) by (nonlinear_arith)
        requires
            s[1] == sol + pad * 32,
            pad < 4,
            sol == 0 || sol == 128,
            (sol == 128) == c.solicited,
    ;
    assert(trans_type_of_code(t) == Some(c.tran_type));
}

/// Reading back `reth_wire(r)` gives `r`.
pub proof fn lemma_reth_wire_parse(r: RethHeader)
    ensures
        reth_wire(r).len() == 16,
        wire_reth(reth_wire(r)) == r,
{
    let s = reth_wire(r);
    lemma_pow256_small();
    lemma_be_value_of_bytes(r.va as nat, 8);
    lemma_be_value_of_bytes(r.rkey as nat, 4);
    lemma_be_value_of_bytes(r.len as nat, 4);
    assert(s.subrange(0, 8) =~= be_bytes(r.va as nat, 8));
    assert(s.subrange(8, 12) =~= be_bytes(r.rkey as nat, 4));
    assert(s.subrange(12, 16) =~= be_bytes(r.len as nat, 4));
}

/// An extended transport header whose fields hold `r` has the bytes `reth_wire(r)`.
pub proof fn lemma_reth_bytes(h: RETH, r: RethHeader)
    requires
        h.spec_va() == r.va,
        h.spec_rkey() == r.rkey,
        h.spec_dlen() == r.len,
    ensures
        h.view_bytes() == reth_wire(r),
{
    crate::utils::lemma_be_bytes_of_value(h.va@);
    crate::utils::lemma_be_bytes_of_value(h.rkey@);
    crate::utils::lemma_be_bytes_of_value(h.dlen@);
}

/// Reading back `aeth_wire(a)` with the transport fields of `a` gives `a`.
pub proof fn lemma_aeth_wire_parse(a: AethHeader)
    requires
        a.aeth_value < 32,
        a.msn < 0x100_0000,
    ensures
        aeth_wire(a).len() == 4,
        wire_aeth(a.common_meta, aeth_wire(a)) == a,
{
    let s = aeth_wire(a);
    lemma_pow256_small();
    lemma_be_value_of_bytes(a.msn as nat, 3);
    assert(s.subrange(1, 4) =~= be_bytes(a.msn as nat, 3));
    let c = aeth_code_value(a.aeth_code);
    let v = a.aeth_value;
    assert(s[0] / 32 % 4 == c && s[0] % 32 == v) by (nonlinear_arith)
        requires
            s[0] == c * 32 + v,
            c < 4,
            v < 32,
    ;
}

/// An AETH whose fields hold `a`, with its reserved bit clear, has the bytes `aeth_wire(a)`.
pub proof fn lemma_aeth_bytes(h: AETH, a: AethHeader)
    requires
        h.spec_aeth_code() == aeth_code_value(a.aeth_code),
        h.spec_aeth_value() == a.aeth_value % 32,
        h.value[0] < 128,
        h.spec_msn() == a.msn % 0x100_0000,
    ensures
        h.view_bytes() == aeth_wire(a),
{
    let x = h.value[0];
    assert(x < 128 ==> x == ((x / 32) % 4) * 32 + x % 32) by (bit_vector);
    crate::utils::lemma_be_bytes_of_value(h.value@.subrange(1, 4));
    assert(h.view_bytes() =~= aeth_wire(a));
}

} // verus!
