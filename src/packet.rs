//! Wire headers of RDMA over UDP: the base transport header (BTH), the RDMA
//! extended transport header (RETH), the acknowledge extended transport header
//! (AETH), the immediate value, and the IPv4 and UDP headers around them.
//! All multi-byte fields are big-endian on the wire.
use vstd::prelude::*;

use crate::message::{RdmaMessageMetaCommon, RethHeader};
use crate::types::QpType;
use crate::utils::{be_value, lemma_be_value_4, u16_to_be, u32_to_be, u64_to_be, u8_slice_to_u64};

verus! {

/// Size of the invariant CRC trailer.
pub const ICRC_SIZE: usize = 4;

/// Size of the base transport header.
pub const BTH_SIZE: usize = 12;

/// Size of the RDMA extended transport header.
pub const RETH_SIZE: usize = 16;

/// Size of the acknowledge extended transport header.
pub const AETH_SIZE: usize = 4;

/// Size of the immediate value.
pub const IMM_SIZE: usize = 4;

/// Size of the IPv4 header without options.
pub const IPV4_HEADER_SIZE: usize = 20;

/// Size of the UDP header.
pub const UDP_HEADER_SIZE: usize = 8;

pub const IPV4_DEFAULT_VERSION_AND_HEADER_LENGTH: u8 = 0x45;

pub const IPV4_DEFAULT_DSCP_AND_ECN: u8 = 0;

pub const IPV4_PROTOCOL_UDP: u8 = 0x11;

pub const IPV4_DEFAULT_TTL: u8 = 64;

/// Payloads are padded to a multiple of this many bytes.
pub const RDMA_PAYLOAD_ALIGNMENT: usize = 4;

/// Mask of a 24-bit sequence number field.
pub const PSN_MASK: u32 = 0x00FF_FFFF;

/// Number of distinct AETH codes.
pub const MAX_AETH_CODE: u8 = 4;

/// Errors of the packet codec.
#[derive(Debug, Clone, Copy, PartialEq, Eq, Structural)]
pub enum PacketError {
    /// The opcode field holds no supported opcode.
    InvalidOpcode,
    /// The transaction type field holds no known transport.
    FailedToConvertTransType,
    /// The AETH code is out of range.
    FailedToConvertAethCode,
    /// The metadata does not have the shape that the opcode asks for.
    InvalidMetadataType,
    /// The buffer is shorter than the header that the opcode asks for.
    BufferTooShort,
    /// The frame would not fit the 16-bit IPv4 length.
    FrameTooLong,
}

/// Opcodes of the RC transport that the engine handles.
#[derive(Debug, Clone, Copy, PartialEq, Eq, Structural)]
pub enum ToHostWorkRbDescOpcode {
    RdmaWriteFirst,
    RdmaWriteMiddle,
    RdmaWriteLast,
    RdmaWriteLastWithImmediate,
    RdmaWriteOnly,
    RdmaWriteOnlyWithImmediate,
    RdmaReadRequest,
    RdmaReadResponseFirst,
    RdmaReadResponseMiddle,
    RdmaReadResponseLast,
    RdmaReadResponseOnly,
    Acknowledge,
}

/// The five-bit wire code of an opcode.
pub open spec fn opcode_code(o: ToHostWorkRbDescOpcode) -> u8 {
    match o {
        ToHostWorkRbDescOpcode::RdmaWriteFirst => 0x06,
        ToHostWorkRbDescOpcode::RdmaWriteMiddle => 0x07,
        ToHostWorkRbDescOpcode::RdmaWriteLast => 0x08,
        ToHostWorkRbDescOpcode::RdmaWriteLastWithImmediate => 0x09,
        ToHostWorkRbDescOpcode::RdmaWriteOnly => 0x0a,
        ToHostWorkRbDescOpcode::RdmaWriteOnlyWithImmediate => 0x0b,
        ToHostWorkRbDescOpcode::RdmaReadRequest => 0x0c,
        ToHostWorkRbDescOpcode::RdmaReadResponseFirst => 0x0d,
        ToHostWorkRbDescOpcode::RdmaReadResponseMiddle => 0x0e,
        ToHostWorkRbDescOpcode::RdmaReadResponseLast => 0x0f,
        ToHostWorkRbDescOpcode::RdmaReadResponseOnly => 0x10,
        ToHostWorkRbDescOpcode::Acknowledge => 0x11,
    }
}

/// The opcode with a given wire code, if any.
pub open spec fn opcode_of_code(c: u8) -> Option<ToHostWorkRbDescOpcode> {
    if c == 0x06 {
        Some(ToHostWorkRbDescOpcode::RdmaWriteFirst)
    } else if c == 0x07 {
        Some(ToHostWorkRbDescOpcode::RdmaWriteMiddle)
    } else if c == 0x08 {
        Some(ToHostWorkRbDescOpcode::RdmaWriteLast)
    } else if c == 0x09 {
        Some(ToHostWorkRbDescOpcode::RdmaWriteLastWithImmediate)
    } else if c == 0x0a {
        Some(ToHostWorkRbDescOpcode::RdmaWriteOnly)
    } else if c == 0x0b {
        Some(ToHostWorkRbDescOpcode::RdmaWriteOnlyWithImmediate)
    } else if c == 0x0c {
        Some(ToHostWorkRbDescOpcode::RdmaReadRequest)
    } else if c == 0x0d {
        Some(ToHostWorkRbDescOpcode::RdmaReadResponseFirst)
    } else if c == 0x0e {
        Some(ToHostWorkRbDescOpcode::RdmaReadResponseMiddle)
    } else if c == 0x0f {
        Some(ToHostWorkRbDescOpcode::RdmaReadResponseLast)
    } else if c == 0x10 {
        Some(ToHostWorkRbDescOpcode::RdmaReadResponseOnly)
    } else if c == 0x11 {
        Some(ToHostWorkRbDescOpcode::Acknowledge)
    } else {
        None
    }
}

impl ToHostWorkRbDescOpcode {
    /// The wire code of this opcode.
    pub fn to_u8(&self) -> (r: u8)
        ensures
            r == opcode_code(*self),
            r < 32,
    {
        match self {
            ToHostWorkRbDescOpcode::RdmaWriteFirst => 0x06,
            ToHostWorkRbDescOpcode::RdmaWriteMiddle => 0x07,
            ToHostWorkRbDescOpcode::RdmaWriteLast => 0x08,
            ToHostWorkRbDescOpcode::RdmaWriteLastWithImmediate => 0x09,
            ToHostWorkRbDescOpcode::RdmaWriteOnly => 0x0a,
            ToHostWorkRbDescOpcode::RdmaWriteOnlyWithImmediate => 0x0b,
            ToHostWorkRbDescOpcode::RdmaReadRequest => 0x0c,
            ToHostWorkRbDescOpcode::RdmaReadResponseFirst => 0x0d,
            ToHostWorkRbDescOpcode::RdmaReadResponseMiddle => 0x0e,
            ToHostWorkRbDescOpcode::RdmaReadResponseLast => 0x0f,
            ToHostWorkRbDescOpcode::RdmaReadResponseOnly => 0x10,
            ToHostWorkRbDescOpcode::Acknowledge => 0x11,
        }
    }

    /// The opcode with wire code `c`; `InvalidOpcode` if there is none.
    pub fn from_u8(c: u8) -> (r: Result<ToHostWorkRbDescOpcode, PacketError>)
        ensures
            r == match opcode_of_code(c) {
                Some(o) => Ok(o),
                None => Err(PacketError::InvalidOpcode),
            },
    {
        match c {
            0x06 => Ok(ToHostWorkRbDescOpcode::RdmaWriteFirst),
            0x07 => Ok(ToHostWorkRbDescOpcode::RdmaWriteMiddle),
            0x08 => Ok(ToHostWorkRbDescOpcode::RdmaWriteLast),
            0x09 => Ok(ToHostWorkRbDescOpcode::RdmaWriteLastWithImmediate),
            0x0a => Ok(ToHostWorkRbDescOpcode::RdmaWriteOnly),
            0x0b => Ok(ToHostWorkRbDescOpcode::RdmaWriteOnlyWithImmediate),
            0x0c => Ok(ToHostWorkRbDescOpcode::RdmaReadRequest),
            0x0d => Ok(ToHostWorkRbDescOpcode::RdmaReadResponseFirst),
            0x0e => Ok(ToHostWorkRbDescOpcode::RdmaReadResponseMiddle),
            0x0f => Ok(ToHostWorkRbDescOpcode::RdmaReadResponseLast),
            0x10 => Ok(ToHostWorkRbDescOpcode::RdmaReadResponseOnly),
            0x11 => Ok(ToHostWorkRbDescOpcode::Acknowledge),
            _ => Err(PacketError::InvalidOpcode),
        }
    }
}

/// Every opcode's wire code maps back to it.
pub proof fn lemma_opcode_code_inverse(o: ToHostWorkRbDescOpcode)
    ensures
        opcode_of_code(opcode_code(o)) == Some(o),
        opcode_code(o) < 32,
{
}

/// Transport types on the wire.
#[derive(Debug, Clone, Copy, PartialEq, Eq, Structural)]
pub enum ToHostWorkRbDescTransType {
    Rc,
    Uc,
    Rd,
    Ud,
    Cnp,
    Xrc,
}

/// The three-bit wire code of a transport type.
pub open spec fn trans_type_code(t: ToHostWorkRbDescTransType) -> u8 {
    match t {
        ToHostWorkRbDescTransType::Rc => 0,
        ToHostWorkRbDescTransType::Uc => 1,
        ToHostWorkRbDescTransType::Rd => 2,
        ToHostWorkRbDescTransType::Ud => 3,
        ToHostWorkRbDescTransType::Cnp => 4,
        ToHostWorkRbDescTransType::Xrc => 5,
    }
}

/// The transport type with a given wire code, if any.
pub open spec fn trans_type_of_code(c: u8) -> Option<ToHostWorkRbDescTransType> {
    if c == 0 {
        Some(ToHostWorkRbDescTransType::Rc)
    } else if c == 1 {
        Some(ToHostWorkRbDescTransType::Uc)
    } else if c == 2 {
        Some(ToHostWorkRbDescTransType::Rd)
    } else if c == 3 {
        Some(ToHostWorkRbDescTransType::Ud)
    } else if c == 4 {
        Some(ToHostWorkRbDescTransType::Cnp)
    } else if c == 5 {
        Some(ToHostWorkRbDescTransType::Xrc)
    } else {
        None
    }
}

impl ToHostWorkRbDescTransType {
    /// The wire code of this transport type.
    pub fn to_u8(&self) -> (r: u8)
        ensures
            r == trans_type_code(*self),
            r < 8,
    {
        match self {
            ToHostWorkRbDescTransType::Rc => 0,
            ToHostWorkRbDescTransType::Uc => 1,
            ToHostWorkRbDescTransType::Rd => 2,
            ToHostWorkRbDescTransType::Ud => 3,
            ToHostWorkRbDescTransType::Cnp => 4,
            ToHostWorkRbDescTransType::Xrc => 5,
        }
    }

    /// The transport type with wire code `c`; `FailedToConvertTransType` if there is none.
    pub fn from_u8(c: u8) -> (r: Result<ToHostWorkRbDescTransType, PacketError>)
        ensures
            r == match trans_type_of_code(c) {
                Some(t) => Ok(t),
                None => Err(PacketError::FailedToConvertTransType),
            },
    {
        match c {
            0 => Ok(ToHostWorkRbDescTransType::Rc),
            1 => Ok(ToHostWorkRbDescTransType::Uc),
            2 => Ok(ToHostWorkRbDescTransType::Rd),
            3 => Ok(ToHostWorkRbDescTransType::Ud),
            4 => Ok(ToHostWorkRbDescTransType::Cnp),
            5 => Ok(ToHostWorkRbDescTransType::Xrc),
            _ => Err(PacketError::FailedToConvertTransType),
        }
    }
}

/// The wire transport of a queue pair type.
pub open spec fn trans_type_of_qp_type(ty: QpType) -> ToHostWorkRbDescTransType {
    match ty {
        QpType::Uc => ToHostWorkRbDescTransType::Uc,
        QpType::Ud => ToHostWorkRbDescTransType::Ud,
        QpType::RawPacket | QpType::Rc => ToHostWorkRbDescTransType::Rc,
        QpType::XrcSend | QpType::XrcRecv => ToHostWorkRbDescTransType::Xrc,
    }
}

impl From<QpType> for ToHostWorkRbDescTransType {
    fn from(ty: QpType) -> (r: ToHostWorkRbDescTransType) {
        match ty {
            QpType::Uc => ToHostWorkRbDescTransType::Uc,
            QpType::Ud => ToHostWorkRbDescTransType::Ud,
            QpType::RawPacket | QpType::Rc => ToHostWorkRbDescTransType::Rc,
            QpType::XrcSend | QpType::XrcRecv => ToHostWorkRbDescTransType::Xrc,
        }
    }
}

impl vstd::std_specs::convert::FromSpecImpl<QpType> for ToHostWorkRbDescTransType {
    open spec fn obeys_from_spec() -> bool {
        true
    }

    open spec fn from_spec(ty: QpType) -> ToHostWorkRbDescTransType {
        trans_type_of_qp_type(ty)
    }
}

/// Codes of an acknowledgement.
#[derive(Debug, Clone, Copy, PartialEq, Eq, Structural)]
pub enum ToHostWorkRbDescAethCode {
    Ack,
    Rnr,
    Nak,
    Reserved,
}

/// The two-bit wire code of an AETH code.
pub open spec fn aeth_code_value(c: ToHostWorkRbDescAethCode) -> u8 {
    match c {
        ToHostWorkRbDescAethCode::Ack => 0,
        ToHostWorkRbDescAethCode::Rnr => 1,
        ToHostWorkRbDescAethCode::Nak => 2,
        ToHostWorkRbDescAethCode::Reserved => 3,
    }
}

impl ToHostWorkRbDescAethCode {
    /// The wire code of this AETH code.
    pub fn to_u8(&self) -> (r: u8)
        ensures
            r == aeth_code_value(*self),
            r < 4,
    {
        match self {
            ToHostWorkRbDescAethCode::Ack => 0,
            ToHostWorkRbDescAethCode::Rnr => 1,
            ToHostWorkRbDescAethCode::Nak => 2,
            ToHostWorkRbDescAethCode::Reserved => 3,
        }
    }

    /// The AETH code with wire code `c`; `FailedToConvertAethCode` when `c >= 4`.
    pub fn from_u8(c: u8) -> (r: Result<ToHostWorkRbDescAethCode, PacketError>)
        ensures
            c < 4 ==> r == Ok::<ToHostWorkRbDescAethCode, PacketError>(aeth_code_of_value(c)),
            c >= 4 ==> r == Err::<ToHostWorkRbDescAethCode, PacketError>(
                PacketError::FailedToConvertAethCode,
            ),
    {
        match c {
            0 => Ok(ToHostWorkRbDescAethCode::Ack),
            1 => Ok(ToHostWorkRbDescAethCode::Rnr),
            2 => Ok(ToHostWorkRbDescAethCode::Nak),
            3 => Ok(ToHostWorkRbDescAethCode::Reserved),
            _ => Err(PacketError::FailedToConvertAethCode),
        }
    }
}

/// The AETH code of a wire code below four.
pub open spec fn aeth_code_of_value(c: u8) -> ToHostWorkRbDescAethCode {
    if c == 0 {
        ToHostWorkRbDescAethCode::Ack
    } else if c == 1 {
        ToHostWorkRbDescAethCode::Rnr
    } else if c == 2 {
        ToHostWorkRbDescAethCode::Nak
    } else {
        ToHostWorkRbDescAethCode::Reserved
    }
}

/// `v & 0xFF_FFFF` is `v` modulo `2^24`.
pub proof fn lemma_mask24(v: u32)
    by (bit_vector)
    ensures
        v & 0x00FF_FFFF == v % 0x100_0000,
{
}

/// Three bytes in big-endian order, written out.
pub proof fn lemma_be_value_3(s: Seq<u8>)
    requires
        s.len() == 3,
    ensures
        be_value(s) == s[0] * 65536 + s[1] * 256 + s[2],
{
    reveal_with_fuel(be_value, 4);
    assert(s.drop_last() =~= seq![s[0], s[1]]);
    assert(seq![s[0], s[1]].drop_last() =~= seq![s[0]]);
    assert(seq![s[0]].drop_last() =~= Seq::<u8>::empty());
}

/// The low three bytes of a four-byte big-endian value below `2^24`.
proof fn lemma_be24(b: Seq<u8>, v: int)
    requires
        b.len() == 4,
        be_value(b) == v,
        v < 0x100_0000,
    ensures
        b[0] == 0,
        be_value(b.subrange(1, 4)) == v,
{
    lemma_be_value_4(b);
    lemma_be_value_3(b.subrange(1, 4));
}

/// Big-endian value of four bytes.
fn be_u32(b: &[u8; 4]) -> (r: u32)
    ensures
        r == be_value(b@),
{
    proof {
        lemma_be_value_4(b@);
    }
    ((b[0] as u32 * 256 + b[1] as u32) * 256 + b[2] as u32) * 256 + b[3] as u32
}

/// Big-endian value of the low three of four bytes.
fn be_u24(b: &[u8; 4]) -> (r: u32)
    ensures
        r == be_value(b@.subrange(1, 4)),
        r < 0x100_0000,
{
    proof {
        lemma_be_value_3(b@.subrange(1, 4));
    }
    b[1] as u32 * 65536 + b[2] as u32 * 256 + b[3] as u32
}

/// Base Transport Header.
///
/// `tran_type_and_opcode` holds the three-bit transport type above the
/// five-bit opcode; `flags` holds the solicited bit and the two-bit pad count;
/// the high byte of `destination_qpn` is reserved; the top bit of `psn` is the
/// acknowledge-request flag.
#[derive(Debug, Clone, Copy)]
pub struct BTH {
    pub tran_type_and_opcode: u8,
    pub flags: u8,
    pub pkey: [u8; 2],
    pub destination_qpn: [u8; 4],
    pub psn: [u8; 4],
}

impl BTH {
    /// The twelve bytes of the header, in wire order.
    pub open spec fn view_bytes(&self) -> Seq<u8> {
        seq![self.tran_type_and_opcode, self.flags] + self.pkey@ + self.destination_qpn@ + self.psn@
    }

    pub open spec fn spec_transaction_type(&self) -> u8 {
        (self.tran_type_and_opcode / 32) as u8
    }

    pub open spec fn spec_opcode(&self) -> u8 {
        (self.tran_type_and_opcode % 32) as u8
    }

    pub open spec fn spec_solicited(&self) -> bool {
        self.flags >= 128
    }

    pub open spec fn spec_pad_cnt(&self) -> u8 {
        ((self.flags / 32) % 4) as u8
    }

    pub open spec fn spec_pkey(&self) -> nat {
        be_value(self.pkey@)
    }

    pub open spec fn spec_destination_qpn(&self) -> nat {
        be_value(self.destination_qpn@.subrange(1, 4))
    }

    pub open spec fn spec_ack_req(&self) -> bool {
        self.psn[0] >= 128
    }

    pub open spec fn spec_psn(&self) -> nat {
        be_value(self.psn@.subrange(1, 4))
    }

    /// A header of zero bytes.
    pub fn new() -> (r: BTH)
        ensures
            r.view_bytes() == Seq::new(12, |i: int| 0u8),
            r.flags == 0,
            r.psn[0] == 0,
    {
        let r = BTH { tran_type_and_opcode: 0, flags: 0, pkey: [0; 2], destination_qpn: [0; 4], psn: [0; 4] };
        assert(r.view_bytes() =~= Seq::new(12, |i: int| 0u8));
        r
    }

    /// Copies the header out of the first twelve bytes of `bytes`.
    pub fn from_bytes(bytes: &[u8]) -> (r: BTH)
        requires
            bytes@.len() >= BTH_SIZE,
        ensures
            r.view_bytes() == bytes@.subrange(0, BTH_SIZE as int),
    {
        let r = BTH {
            tran_type_and_opcode: bytes[0],
            flags: bytes[1],
            pkey: [bytes[2], bytes[3]],
            destination_qpn: [bytes[4], bytes[5], bytes[6], bytes[7]],
            psn: [bytes[8], bytes[9], bytes[10], bytes[11]],
        };
        assert(r.view_bytes() =~= bytes@.subrange(0, BTH_SIZE as int));
        r
    }

    /// Appends the header's bytes to `buf`.
    pub fn write_to(&self, buf: &mut Vec<u8>)
        ensures
            final(buf)@ == old(buf)@ + self.view_bytes(),
    {
        buf.push(self.tran_type_and_opcode);
        buf.push(self.flags);
        buf.push(self.pkey[0]);
        buf.push(self.pkey[1]);
        buf.push(self.destination_qpn[0]);
        buf.push(self.destination_qpn[1]);
        buf.push(self.destination_qpn[2]);
        buf.push(self.destination_qpn[3]);
        buf.push(self.psn[0]);
        buf.push(self.psn[1]);
        buf.push(self.psn[2]);
        buf.push(self.psn[3]);
        assert(buf@ =~= old(buf)@ + self.view_bytes());
    }

    pub fn get_transaction_type(&self) -> (r: u8)
        ensures
            r == self.spec_transaction_type(),
            r < 8,
    {
        self.tran_type_and_opcode / 32
    }

    pub fn get_opcode(&self) -> (r: u8)
        ensures
            r == self.spec_opcode(),
            r < 32,
    {
        self.tran_type_and_opcode % 32
    }

    pub fn get_solicited(&self) -> (r: bool)
        ensures
            r == self.spec_solicited(),
    {
        self.flags >= 128
    }

    pub fn get_pad_cnt(&self) -> (r: u8)
        ensures
            r == self.spec_pad_cnt(),
            r < 4,
    {
        (self.flags / 32) % 4
    }

    /// Length of the payload without its padding, given the bytes that follow the headers.
    pub fn get_packet_real_length(&self, payload_length: usize) -> (r: usize)
        requires
            payload_length >= self.spec_pad_cnt(),
        ensures
            r == payload_length - self.spec_pad_cnt(),
    {
        let pad_cnt = self.get_pad_cnt() as usize;
        payload_length - pad_cnt
    }

    pub fn get_pkey(&self) -> (r: u16)
        ensures
            r == self.spec_pkey(),
    {
        proof {
            reveal_with_fuel(be_value, 3);
            assert(self.pkey@.drop_last() =~= seq![self.pkey[0]]);
            assert(seq![self.pkey[0]].drop_last() =~= Seq::<u8>::empty());
        }
        self.pkey[0] as u16 * 256 + self.pkey[1] as u16
    }

    pub fn get_destination_qpn(&self) -> (r: u32)
        ensures
            r == self.spec_destination_qpn(),
            r < 0x100_0000,
    {
        be_u24(&self.destination_qpn)
    }

    pub fn get_ack_req(&self) -> (r: bool)
        ensures
            r == self.spec_ack_req(),
    {
        self.psn[0] >= 128
    }

    pub fn get_psn(&self) -> (r: u32)
        ensures
            r == self.spec_psn(),
            r < 0x100_0000,
    {
        be_u24(&self.psn)
    }

    pub fn set_opcode_and_type(&mut self, opcode: ToHostWorkRbDescOpcode, tran_type: ToHostWorkRbDescTransType)
        ensures
            final(self).spec_opcode() == opcode_code(opcode),
            final(self).spec_transaction_type() == trans_type_code(tran_type),
            *final(self) == (BTH { tran_type_and_opcode: final(self).tran_type_and_opcode, ..*old(self) }),
    {
        self.tran_type_and_opcode = tran_type.to_u8() * 32 + opcode.to_u8();
    }

    pub fn set_flags_solicited(&mut self, is_solicited: bool)
        ensures
            final(self).spec_solicited() == is_solicited,
            final(self).flags % 128 == old(self).flags % 128,
            *final(self) == (BTH { flags: final(self).flags, ..*old(self) }),
    {
        if is_solicited {
            if self.flags < 128 {
                self.flags = self.flags + 128;
            }
        } else if self.flags >= 128 {
            self.flags = self.flags - 128;
        }
    }

    pub fn set_pad_cnt(&mut self, pad_cnt: usize)
        requires
            pad_cnt < 4,
        ensures
            final(self).spec_pad_cnt() == pad_cnt,
            final(self).spec_solicited() == old(self).spec_solicited(),
            final(self).flags % 32 == old(self).flags % 32,
            *final(self) == (BTH { flags: final(self).flags, ..*old(self) }),
    {
        self.flags = (self.flags / 128) * 128 + (pad_cnt as u8) * 32 + self.flags % 32;
    }

    pub fn set_pkey(&mut self, pkey: u16)
        ensures
            final(self).spec_pkey() == pkey,
            *final(self) == (BTH { pkey: final(self).pkey, ..*old(self) }),
    {
        self.pkey = u16_to_be(pkey);
    }

    pub fn set_destination_qpn(&mut self, qpn: u32)
        ensures
            final(self).spec_destination_qpn() == qpn % 0x100_0000,
            final(self).destination_qpn[0] == 0,
            *final(self) == (BTH { destination_qpn: final(self).destination_qpn, ..*old(self) }),
    {
        proof {
            lemma_mask24(qpn);
        }
        let b = u32_to_be(qpn & PSN_MASK);
        proof {
            lemma_be24(b@, (qpn % 0x100_0000) as int);
        }
        self.destination_qpn = b;
    }

    pub fn set_ack_req(&mut self, ack_req: bool)
        ensures
            final(self).spec_ack_req() == ack_req,
            final(self).psn[0] % 128 == old(self).psn[0] % 128,
            final(self).psn[1] == old(self).psn[1],
            final(self).psn[2] == old(self).psn[2],
            final(self).psn[3] == old(self).psn[3],
            *final(self) == (BTH { psn: final(self).psn, ..*old(self) }),
    {
        if ack_req {
            if self.psn[0] < 128 {
                self.psn[0] = self.psn[0] + 128;
            }
        } else if self.psn[0] >= 128 {
            self.psn[0] = self.psn[0] - 128;
        }
    }

    pub fn set_psn(&mut self, psn: u32)
        ensures
            final(self).spec_psn() == psn % 0x100_0000,
            final(self).psn[0] == old(self).psn[0],
            *final(self) == (BTH { psn: final(self).psn, ..*old(self) }),
    {
        proof {
            lemma_mask24(psn);
        }
        let b = u32_to_be(psn & PSN_MASK);
        proof {
            lemma_be24(b@, (psn % 0x100_0000) as int);
        }
        self.psn = [self.psn[0], b[1], b[2], b[3]];
        assert(self.psn@.subrange(1, 4) =~= b@.subrange(1, 4));
    }

    /// Sets the reserved byte above the destination QPN to all ones, as the
    /// invariant CRC asks.
    pub fn fill_ecn_and_resv6(&mut self)
        ensures
            final(self).destination_qpn[0] == 0xff,
            final(self).destination_qpn[1] == old(self).destination_qpn[1],
            final(self).destination_qpn[2] == old(self).destination_qpn[2],
            final(self).destination_qpn[3] == old(self).destination_qpn[3],
            *final(self) == (BTH { destination_qpn: final(self).destination_qpn, ..*old(self) }),
    {
        self.destination_qpn[0] = 0xff;
    }
}

/// RDMA Extended Transport Header: remote address, key and length.
#[derive(Debug, Clone, Copy)]
pub struct RETH {
    pub va: [u8; 8],
    pub rkey: [u8; 4],
    pub dlen: [u8; 4],
}

impl RETH {
    /// The sixteen bytes of the header, in wire order.
    pub open spec fn view_bytes(&self) -> Seq<u8> {
        self.va@ + self.rkey@ + self.dlen@
    }

    pub open spec fn spec_va(&self) -> nat {
        be_value(self.va@)
    }

    pub open spec fn spec_rkey(&self) -> nat {
        be_value(self.rkey@)
    }

    pub open spec fn spec_dlen(&self) -> nat {
        be_value(self.dlen@)
    }

    /// A header of zero bytes.
    pub fn new() -> (r: RETH)
        ensures
            r.view_bytes() == Seq::new(16, |i: int| 0u8),
    {
        let r = RETH { va: [0; 8], rkey: [0; 4], dlen: [0; 4] };
        assert(r.view_bytes() =~= Seq::new(16, |i: int| 0u8));
        r
    }

    /// Copies the header out of the first sixteen bytes of `bytes`.
    pub fn from_bytes(bytes: &[u8]) -> (r: RETH)
        requires
            bytes@.len() >= RETH_SIZE,
        ensures
            r.view_bytes() == bytes@.subrange(0, RETH_SIZE as int),
    {
        let r = RETH {
            va: [bytes[0], bytes[1], bytes[2], bytes[3], bytes[4], bytes[5], bytes[6], bytes[7]],
            rkey: [bytes[8], bytes[9], bytes[10], bytes[11]],
            dlen: [bytes[12], bytes[13], bytes[14], bytes[15]],
        };
        assert(r.view_bytes() =~= bytes@.subrange(0, RETH_SIZE as int));
        r
    }

    /// Appends the header's bytes to `buf`.
    pub fn write_to(&self, buf: &mut Vec<u8>)
        ensures
            final(buf)@ == old(buf)@ + self.view_bytes(),
    {
        let mut i: usize = 0;
        while i < 8
            invariant
                i <= 8,
                buf@ == old(buf)@ + self.va@.subrange(0, i as int),
            decreases 8 - i,
        {
            buf.push(self.va[i]);
            assert(self.va@.subrange(0, i + 1) =~= self.va@.subrange(0, i as int).push(self.va[i as int]));
            i = i + 1;
        }
        assert(self.va@.subrange(0, 8) =~= self.va@);
        buf.push(self.rkey[0]);
        buf.push(self.rkey[1]);
        buf.push(self.rkey[2]);
        buf.push(self.rkey[3]);
        buf.push(self.dlen[0]);
        buf.push(self.dlen[1]);
        buf.push(self.dlen[2]);
        buf.push(self.dlen[3]);
        assert(buf@ =~= old(buf)@ + self.view_bytes());
    }

    pub fn get_va(&self) -> (r: u64)
        ensures
            r == self.spec_va(),
    {
        u8_slice_to_u64(self.va.as_slice())
    }

    pub fn get_rkey(&self) -> (r: u32)
        ensures
            r == self.spec_rkey(),
    {
        be_u32(&self.rkey)
    }

    pub fn get_dlen(&self) -> (r: u32)
        ensures
            r == self.spec_dlen(),
    {
        be_u32(&self.dlen)
    }

    pub fn set_va(&mut self, va: u64)
        ensures
            final(self).spec_va() == va,
            *final(self) == (RETH { va: final(self).va, ..*old(self) }),
    {
        self.va = u64_to_be(va);
    }

    pub fn set_rkey(&mut self, rkey: u32)
        ensures
            final(self).spec_rkey() == rkey,
            *final(self) == (RETH { rkey: final(self).rkey, ..*old(self) }),
    {
        self.rkey = u32_to_be(rkey);
    }

    pub fn set_dlen(&mut self, dlen: u32)
        ensures
            final(self).spec_dlen() == dlen,
            *final(self) == (RETH { dlen: final(self).dlen, ..*old(self) }),
    {
        self.dlen = u32_to_be(dlen);
    }
}

/// ACK Extended Transport Header: a reserved bit, the two-bit code, the
/// five-bit value and the 24-bit message sequence number.
#[derive(Debug, Clone, Copy)]
pub struct AETH {
    pub value: [u8; 4],
}

impl AETH {
    /// The four bytes of the header, in wire order.
    pub open spec fn view_bytes(&self) -> Seq<u8> {
        self.value@
    }

    pub open spec fn spec_aeth_code(&self) -> u8 {
        ((self.value[0] / 32) % 4) as u8
    }

    pub open spec fn spec_aeth_value(&self) -> u8 {
        (self.value[0] % 32) as u8
    }

    pub open spec fn spec_msn(&self) -> nat {
        be_value(self.value@.subrange(1, 4))
    }

    /// A header of zero bytes.
    pub fn new() -> (r: AETH)
        ensures
            r.view_bytes() == Seq::new(4, |i: int| 0u8),
            r.value[0] == 0,
    {
        let r = AETH { value: [0; 4] };
        assert(r.view_bytes() =~= Seq::new(4, |i: int| 0u8));
        r
    }

    /// Copies the header out of the first four bytes of `bytes`.
    pub fn from_bytes(bytes: &[u8]) -> (r: AETH)
        requires
            bytes@.len() >= AETH_SIZE,
        ensures
            r.view_bytes() == bytes@.subrange(0, AETH_SIZE as int),
    {
        let r = AETH { value: [bytes[0], bytes[1], bytes[2], bytes[3]] };
        assert(r.view_bytes() =~= bytes@.subrange(0, AETH_SIZE as int));
        r
    }

    /// Appends the header's bytes to `buf`.
    pub fn write_to(&self, buf: &mut Vec<u8>)
        ensures
            final(buf)@ == old(buf)@ + self.view_bytes(),
    {
        buf.push(self.value[0]);
        buf.push(self.value[1]);
        buf.push(self.value[2]);
        buf.push(self.value[3]);
        assert(buf@ =~= old(buf)@ + self.view_bytes());
    }

    pub fn get_aeth_code(&self) -> (r: u8)
        ensures
            r == self.spec_aeth_code(),
            r < 4,
    {
        (self.value[0] / 32) % 4
    }

    pub fn get_aeth_value(&self) -> (r: u8)
        ensures
            r == self.spec_aeth_value(),
            r < 32,
    {
        self.value[0] % 32
    }

    pub fn get_msn(&self) -> (r: u32)
        ensures
            r == self.spec_msn(),
            r < 0x100_0000,
    {
        be_u24(&self.value)
    }

    /// Sets the code, reduced modulo four, and the value; clears the reserved bit.
    pub fn set_aeth_code_and_value(&mut self, code: u8, value: u8)
        requires
            value < 32,
        ensures
            final(self).spec_aeth_code() == code % MAX_AETH_CODE,
            final(self).spec_aeth_value() == value,
            final(self).value[0] < 128,
            final(self).value[1] == old(self).value[1],
            final(self).value[2] == old(self).value[2],
            final(self).value[3] == old(self).value[3],
    {
        self.value[0] = (code % MAX_AETH_CODE) * 32 + value;
    }

    pub fn set_msn(&mut self, msn: u32)
        ensures
            final(self).spec_msn() == msn % 0x100_0000,
            final(self).value[0] == old(self).value[0],
    {
        proof {
            lemma_mask24(msn);
        }
        let b = u32_to_be(msn & PSN_MASK);
        proof {
            lemma_be24(b@, (msn % 0x100_0000) as int);
        }
        self.value = [self.value[0], b[1], b[2], b[3]];
        assert(self.value@.subrange(1, 4) =~= b@.subrange(1, 4));
    }
}

/// The immediate value carried by writes with immediate.
#[derive(Debug, Clone, Copy)]
pub struct Immediate(pub [u8; 4]);

impl Immediate {
    /// The four bytes of the value, in wire order.
    pub open spec fn view_bytes(&self) -> Seq<u8> {
        self.0@
    }

    /// Copies the value out of the first four bytes of `bytes`.
    pub fn from_bytes(bytes: &[u8]) -> (r: Immediate)
        requires
            bytes@.len() >= IMM_SIZE,
        ensures
            r.view_bytes() == bytes@.subrange(0, IMM_SIZE as int),
    {
        let r = Immediate([bytes[0], bytes[1], bytes[2], bytes[3]]);
        assert(r.view_bytes() =~= bytes@.subrange(0, IMM_SIZE as int));
        r
    }

    /// Appends the value's bytes to `buf`.
    pub fn write_to(&self, buf: &mut Vec<u8>)
        ensures
            final(buf)@ == old(buf)@ + self.view_bytes(),
    {
        buf.push(self.0[0]);
        buf.push(self.0[1]);
        buf.push(self.0[2]);
        buf.push(self.0[3]);
        assert(buf@ =~= old(buf)@ + self.view_bytes());
    }

    pub fn get(&self) -> (r: u32)
        ensures
            r == be_value(self.0@),
    {
        be_u32(&self.0)
    }

    pub fn set(&mut self, imm: u32)
        ensures
            be_value(final(self).0@) == imm,
    {
        self.0 = u32_to_be(imm);
    }
}

/// The IPv4 header, without options.
#[derive(Debug, Clone, Copy)]
pub struct Ipv4Header {
    pub version_header_len: u8,
    pub dscp_ecn: u8,
    pub total_length: [u8; 2],
    pub identification: [u8; 2],
    pub flags_fragment_offset: [u8; 2],
    pub ttl: u8,
    pub protocol: u8,
    pub checksum: [u8; 2],
    pub source: [u8; 4],
    pub destination: [u8; 4],
}

impl Ipv4Header {
    /// The twenty bytes of the header, in wire order.
    pub open spec fn view_bytes(&self) -> Seq<u8> {
        seq![self.version_header_len, self.dscp_ecn] + self.total_length@ + self.identification@
            + self.flags_fragment_offset@ + seq![self.ttl, self.protocol] + self.checksum@ + self.source@
            + self.destination@
    }

    /// A header of zero bytes.
    pub fn new() -> (r: Ipv4Header)
        ensures
            r.view_bytes() == Seq::new(20, |i: int| 0u8),
            r.checksum@ == seq![0u8, 0u8],
    {
        let r = Ipv4Header {
            version_header_len: 0,
            dscp_ecn: 0,
            total_length: [0; 2],
            identification: [0; 2],
            flags_fragment_offset: [0; 2],
            ttl: 0,
            protocol: 0,
            checksum: [0; 2],
            source: [0; 4],
            destination: [0; 4],
        };
        assert(r.view_bytes() =~= Seq::new(20, |i: int| 0u8));
        assert(r.checksum@ =~= seq![0u8, 0u8]);
        r
    }

    /// Copies the header out of the first twenty bytes of `bytes`.
    pub fn from_bytes(bytes: &[u8]) -> (r: Ipv4Header)
        requires
            bytes@.len() >= IPV4_HEADER_SIZE,
        ensures
            r.view_bytes() == bytes@.subrange(0, IPV4_HEADER_SIZE as int),
    {
        let r = Ipv4Header {
            version_header_len: bytes[0],
            dscp_ecn: bytes[1],
            total_length: [bytes[2], bytes[3]],
            identification: [bytes[4], bytes[5]],
            flags_fragment_offset: [bytes[6], bytes[7]],
            ttl: bytes[8],
            protocol: bytes[9],
            checksum: [bytes[10], bytes[11]],
            source: [bytes[12], bytes[13], bytes[14], bytes[15]],
            destination: [bytes[16], bytes[17], bytes[18], bytes[19]],
        };
        assert(r.view_bytes() =~= bytes@.subrange(0, IPV4_HEADER_SIZE as int));
        r
    }

    /// Appends the header's bytes to `buf`.
    pub fn write_to(&self, buf: &mut Vec<u8>)
        ensures
            final(buf)@ == old(buf)@ + self.view_bytes(),
    {
        buf.push(self.version_header_len);
        buf.push(self.dscp_ecn);
        buf.push(self.total_length[0]);
        buf.push(self.total_length[1]);
        buf.push(self.identification[0]);
        buf.push(self.identification[1]);
        buf.push(self.flags_fragment_offset[0]);
        buf.push(self.flags_fragment_offset[1]);
        buf.push(self.ttl);
        buf.push(self.protocol);
        buf.push(self.checksum[0]);
        buf.push(self.checksum[1]);
        buf.push(self.source[0]);
        buf.push(self.source[1]);
        buf.push(self.source[2]);
        buf.push(self.source[3]);
        buf.push(self.destination[0]);
        buf.push(self.destination[1]);
        buf.push(self.destination[2]);
        buf.push(self.destination[3]);
        assert(buf@ =~= old(buf)@ + self.view_bytes());
    }

    /// Sets version 4 with a five-word header, DSCP and ECN zero, a TTL of 64 and protocol UDP.
    pub fn set_default_header(&mut self)
        ensures
            *final(self) == (Ipv4Header {
                version_header_len: IPV4_DEFAULT_VERSION_AND_HEADER_LENGTH,
                dscp_ecn: IPV4_DEFAULT_DSCP_AND_ECN,
                ttl: IPV4_DEFAULT_TTL,
                protocol: IPV4_PROTOCOL_UDP,
                ..*old(self)
            }),
    {
        self.version_header_len = IPV4_DEFAULT_VERSION_AND_HEADER_LENGTH;
        self.dscp_ecn = IPV4_DEFAULT_DSCP_AND_ECN;
        self.ttl = IPV4_DEFAULT_TTL;
        self.protocol = IPV4_PROTOCOL_UDP;
    }

    pub fn set_total_length(&mut self, length: u16)
        ensures
            be_value(final(self).total_length@) == length,
            *final(self) == (Ipv4Header { total_length: final(self).total_length, ..*old(self) }),
    {
        self.total_length = u16_to_be(length);
    }

    pub fn set_identification(&mut self, id: u16)
        ensures
            be_value(final(self).identification@) == id,
            *final(self) == (Ipv4Header { identification: final(self).identification, ..*old(self) }),
    {
        self.identification = u16_to_be(id);
    }

    pub fn set_flags_fragment_offset(&mut self, flags: u16)
        ensures
            be_value(final(self).flags_fragment_offset@) == flags,
            *final(self) == (Ipv4Header { flags_fragment_offset: final(self).flags_fragment_offset, ..*old(self) }),
    {
        self.flags_fragment_offset = u16_to_be(flags);
    }

    pub fn set_checksum(&mut self, checksum: u16)
        ensures
            be_value(final(self).checksum@) == checksum,
            *final(self) == (Ipv4Header { checksum: final(self).checksum, ..*old(self) }),
    {
        self.checksum = u16_to_be(checksum);
    }

    /// Sets the source address from its four octets.
    pub fn set_source(&mut self, source: [u8; 4])
        ensures
            *final(self) == (Ipv4Header { source, ..*old(self) }),
    {
        self.source = source;
    }

    /// Sets the destination address from its four octets.
    pub fn set_destination(&mut self, destination: [u8; 4])
        ensures
            *final(self) == (Ipv4Header { destination, ..*old(self) }),
    {
        self.destination = destination;
    }
}

/// The UDP header.
#[derive(Debug, Clone, Copy)]
pub struct UdpHeader {
    pub source_port: [u8; 2],
    pub dest_port: [u8; 2],
    pub length: [u8; 2],
    pub checksum: [u8; 2],
}

impl UdpHeader {
    /// The eight bytes of the header, in wire order.
    pub open spec fn view_bytes(&self) -> Seq<u8> {
        self.source_port@ + self.dest_port@ + self.length@ + self.checksum@
    }

    /// A header of zero bytes.
    pub fn new() -> (r: UdpHeader)
        ensures
            r.view_bytes() == Seq::new(8, |i: int| 0u8),
            r.checksum@ == seq![0u8, 0u8],
    {
        let r = UdpHeader { source_port: [0; 2], dest_port: [0; 2], length: [0; 2], checksum: [0; 2] };
        assert(r.view_bytes() =~= Seq::new(8, |i: int| 0u8));
        assert(r.checksum@ =~= seq![0u8, 0u8]);
        r
    }

    /// Copies the header out of the first eight bytes of `bytes`.
    pub fn from_bytes(bytes: &[u8]) -> (r: UdpHeader)
        requires
            bytes@.len() >= UDP_HEADER_SIZE,
        ensures
            r.view_bytes() == bytes@.subrange(0, UDP_HEADER_SIZE as int),
    {
        let r = UdpHeader {
            source_port: [bytes[0], bytes[1]],
            dest_port: [bytes[2], bytes[3]],
            length: [bytes[4], bytes[5]],
            checksum: [bytes[6], bytes[7]],
        };
        assert(r.view_bytes() =~= bytes@.subrange(0, UDP_HEADER_SIZE as int));
        r
    }

    /// Appends the header's bytes to `buf`.
    pub fn write_to(&self, buf: &mut Vec<u8>)
        ensures
            final(buf)@ == old(buf)@ + self.view_bytes(),
    {
        buf.push(self.source_port[0]);
        buf.push(self.source_port[1]);
        buf.push(self.dest_port[0]);
        buf.push(self.dest_port[1]);
        buf.push(self.length[0]);
        buf.push(self.length[1]);
        buf.push(self.checksum[0]);
        buf.push(self.checksum[1]);
        assert(buf@ =~= old(buf)@ + self.view_bytes());
    }

    pub fn set_source_port(&mut self, port: u16)
        ensures
            be_value(final(self).source_port@) == port,
            *final(self) == (UdpHeader { source_port: final(self).source_port, ..*old(self) }),
    {
        self.source_port = u16_to_be(port);
    }

    pub fn set_dest_port(&mut self, port: u16)
        ensures
            be_value(final(self).dest_port@) == port,
            *final(self) == (UdpHeader { dest_port: final(self).dest_port, ..*old(self) }),
    {
        self.dest_port = u16_to_be(port);
    }

    pub fn set_length(&mut self, length: u16)
        ensures
            be_value(final(self).length@) == length,
            *final(self) == (UdpHeader { length: final(self).length, ..*old(self) }),
    {
        self.length = u16_to_be(length);
    }

    pub fn set_checksum(&mut self, checksum: u16)
        ensures
            be_value(final(self).checksum@) == checksum,
            *final(self) == (UdpHeader { checksum: final(self).checksum, ..*old(self) }),
    {
        self.checksum = u16_to_be(checksum);
    }
}

impl BTH {
    /// Writes every field of `common_meta` and the pad count; the reserved
    /// bits keep their value, but for the byte above the destination QPN,
    /// which is cleared.
    pub fn set_from_common_meta(&mut self, common_meta: &RdmaMessageMetaCommon, pad_cnt: usize)
        requires
            pad_cnt < 4,
        ensures
            final(self).spec_opcode() == opcode_code(common_meta.opcode),
            final(self).spec_transaction_type() == trans_type_code(common_meta.tran_type),
            final(self).spec_solicited() == common_meta.solicited,
            final(self).spec_pad_cnt() == pad_cnt,
            final(self).flags % 32 == old(self).flags % 32,
            final(self).spec_pkey() == common_meta.pkey,
            final(self).destination_qpn[0] == 0,
            final(self).spec_destination_qpn() == common_meta.dqpn % 0x100_0000,
            final(self).spec_ack_req() == common_meta.ack_req,
            final(self).psn[0] % 128 == old(self).psn[0] % 128,
            final(self).spec_psn() == common_meta.psn % 0x100_0000,
    {
        self.set_opcode_and_type(common_meta.opcode, common_meta.tran_type);
        self.set_flags_solicited(common_meta.solicited);
        self.set_pad_cnt(pad_cnt);
        self.set_destination_qpn(common_meta.dqpn);
        self.set_ack_req(common_meta.ack_req);
        self.set_psn(common_meta.psn);
        self.set_pkey(common_meta.pkey);
        proof {
            let x = self.tran_type_and_opcode;
            let t = trans_type_code(common_meta.tran_type);
            let o = opcode_code(common_meta.opcode);
            assert(x / 32 == t && x % 32 == o) by (nonlinear_arith)
                requires
                    x == t * 32 + o,
                    o < 32,
                    t < 8,
            ;
        }
    }
}

impl RETH {
    /// Writes every field of `reth`.
    pub fn set_from_reth_header(&mut self, reth: &RethHeader)
        ensures
            final(self).spec_va() == reth.va,
            final(self).spec_rkey() == reth.rkey,
            final(self).spec_dlen() == reth.len,
    {
        self.set_va(reth.va);
        self.set_rkey(reth.rkey);
        self.set_dlen(reth.len);
    }
}

} // verus!
