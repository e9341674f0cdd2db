//! Packet layouts selected by opcode, and the conversion between an RDMA
//! message and the bytes that follow the UDP header.
use vstd::prelude::*;

use crate::message::{
    aeth_wire, bth_wire, lemma_aeth_bytes, lemma_aeth_wire_parse, lemma_bth_bytes, lemma_bth_wire_parse,
    lemma_reth_bytes, lemma_reth_wire_parse, pad_of, reth_wire, wire_aeth, wire_common, wire_pad_cnt, wire_reth,
    AethHeader, Metadata, PayloadInfo, RdmaGeneralMeta, RdmaMessage, RdmaMessageMetaCommon,
};
use crate::packet::{
    opcode_of_code, PacketError, ToHostWorkRbDescOpcode, AETH, AETH_SIZE, BTH, BTH_SIZE, IMM_SIZE, Immediate,
    RETH, RETH_SIZE,
};
use crate::utils::{be_bytes, be_value, lemma_be_value_of_bytes, lemma_subrange_of_concat};

verus! {

/// The header layouts of the RC transport.
#[derive(Debug, Clone, Copy, PartialEq, Eq, Structural)]
pub enum HeaderLayout {
    /// Writes and read responses.
    BthReth,
    /// Writes with an immediate value.
    BthRethImm,
    /// Read requests: the remote source, then the local sink.
    BthDoubleReth,
    /// Acknowledgements.
    BthAeth,
}

/// The layout that an opcode selects.
pub open spec fn layout_of(o: ToHostWorkRbDescOpcode) -> HeaderLayout {
    match o {
        ToHostWorkRbDescOpcode::RdmaWriteLastWithImmediate
        | ToHostWorkRbDescOpcode::RdmaWriteOnlyWithImmediate => HeaderLayout::BthRethImm,
        ToHostWorkRbDescOpcode::RdmaReadRequest => HeaderLayout::BthDoubleReth,
        ToHostWorkRbDescOpcode::Acknowledge => HeaderLayout::BthAeth,
        _ => HeaderLayout::BthReth,
    }
}

/// Number of header bytes of a layout.
pub open spec fn layout_len(l: HeaderLayout) -> nat {
    match l {
        HeaderLayout::BthReth => 28,
        HeaderLayout::BthRethImm => 32,
        HeaderLayout::BthDoubleReth => 44,
        HeaderLayout::BthAeth => 16,
    }
}

/// The layout that an opcode selects.
pub fn header_layout(o: ToHostWorkRbDescOpcode) -> (r: HeaderLayout)
    ensures
        r == layout_of(o),
{
    match o {
        ToHostWorkRbDescOpcode::RdmaWriteLastWithImmediate
        | ToHostWorkRbDescOpcode::RdmaWriteOnlyWithImmediate => HeaderLayout::BthRethImm,
        ToHostWorkRbDescOpcode::RdmaReadRequest => HeaderLayout::BthDoubleReth,
        ToHostWorkRbDescOpcode::Acknowledge => HeaderLayout::BthAeth,
        _ => HeaderLayout::BthReth,
    }
}

/// Number of header bytes of a layout.
pub fn header_size(l: HeaderLayout) -> (r: usize)
    ensures
        r == layout_len(l),
{
    match l {
        HeaderLayout::BthReth => BTH_SIZE + RETH_SIZE,
        HeaderLayout::BthRethImm => BTH_SIZE + RETH_SIZE + IMM_SIZE,
        HeaderLayout::BthDoubleReth => BTH_SIZE + RETH_SIZE + RETH_SIZE,
        HeaderLayout::BthAeth => BTH_SIZE + AETH_SIZE,
    }
}

/// The metadata that the headers of layout `l` at the front of `s` hold.
pub open spec fn wire_meta(l: HeaderLayout, s: Seq<u8>) -> Result<Metadata, PacketError> {
    match wire_common(s.subrange(0, 12)) {
        Err(e) => Err(e),
        Ok(c) => Ok(
            match l {
                HeaderLayout::BthReth => Metadata::General(
                    RdmaGeneralMeta {
                        common_meta: c,
                        reth: wire_reth(s.subrange(12, 28)),
                        imm: None,
                        secondary_reth: None,
                    },
                ),
                HeaderLayout::BthRethImm => Metadata::General(
                    RdmaGeneralMeta {
                        common_meta: c,
                        reth: wire_reth(s.subrange(12, 28)),
                        imm: Some(be_value(s.subrange(28, 32)) as u32),
                        secondary_reth: None,
                    },
                ),
                HeaderLayout::BthDoubleReth => Metadata::General(
                    RdmaGeneralMeta {
                        common_meta: c,
                        reth: wire_reth(s.subrange(12, 28)),
                        imm: None,
                        secondary_reth: Some(wire_reth(s.subrange(28, 44))),
                    },
                ),
                HeaderLayout::BthAeth => Metadata::Acknowledge(wire_aeth(c, s.subrange(12, 16))),
            },
        ),
    }
}

/// The message that `s` holds, read with layout `l`: the metadata, and the
/// bytes after the headers without the padding.
pub open spec fn parse_with_layout(l: HeaderLayout, s: Seq<u8>) -> Result<(Metadata, Seq<u8>), PacketError> {
    match wire_meta(l, s) {
        Err(e) => Err(e),
        Ok(m) => if s.len() < layout_len(l) + wire_pad_cnt(s) {
            Err(PacketError::BufferTooShort)
        } else {
            Ok((m, s.subrange(layout_len(l) as int, s.len() - wire_pad_cnt(s))))
        },
    }
}

/// The message that the bytes `s` after a UDP header hold.
pub open spec fn parse_message(s: Seq<u8>) -> Result<(Metadata, Seq<u8>), PacketError> {
    if s.len() < 12 {
        Err(PacketError::BufferTooShort)
    } else {
        match opcode_of_code((s[0] % 32) as u8) {
            None => Err(PacketError::InvalidOpcode),
            Some(o) => if s.len() < layout_len(layout_of(o)) {
                Err(PacketError::BufferTooShort)
            } else {
                parse_with_layout(layout_of(o), s)
            },
        }
    }
}

/// `r` is the executable form of the parse result `p`.
pub open spec fn parsed_as(r: Result<RdmaMessage, PacketError>, p: Result<(Metadata, Seq<u8>), PacketError>) -> bool {
    match (r, p) {
        (Ok(m), Ok((meta, payload))) => m.meta_data == meta && m.payload@ == payload,
        (Err(e1), Err(e2)) => e1 == e2,
        _ => false,
    }
}

/// The opcode that a message's metadata names.
pub open spec fn opcode_of_meta(m: Metadata) -> ToHostWorkRbDescOpcode {
    match m {
        Metadata::General(g) => g.common_meta.opcode,
        Metadata::Acknowledge(a) => a.common_meta.opcode,
    }
}

/// The header bytes of layout `l` for metadata `m` and a pad count, if `m` has
/// the shape that `l` asks for.
pub open spec fn layout_wire(l: HeaderLayout, m: Metadata, pad: nat) -> Result<Seq<u8>, PacketError> {
    match (l, m) {
        (HeaderLayout::BthReth, Metadata::General(g)) => Ok(bth_wire(g.common_meta, pad) + reth_wire(g.reth)),
        (HeaderLayout::BthRethImm, Metadata::General(g)) => match g.imm {
            Some(i) => Ok(bth_wire(g.common_meta, pad) + reth_wire(g.reth) + be_bytes(i as nat, 4)),
            None => Err(PacketError::InvalidMetadataType),
        },
        (HeaderLayout::BthDoubleReth, Metadata::General(g)) => match g.secondary_reth {
            Some(r2) => Ok(bth_wire(g.common_meta, pad) + reth_wire(g.reth) + reth_wire(r2)),
            None => Err(PacketError::InvalidMetadataType),
        },
        (HeaderLayout::BthAeth, Metadata::Acknowledge(a)) => Ok(bth_wire(a.common_meta, pad) + aeth_wire(a)),
        _ => Err(PacketError::InvalidMetadataType),
    }
}

/// The header bytes of metadata `m`, in the layout that its opcode selects.
pub open spec fn header_wire(m: Metadata, pad: nat) -> Result<Seq<u8>, PacketError> {
    layout_wire(layout_of(opcode_of_meta(m)), m, pad)
}

/// The bytes of a packet after the UDP header, without the ICRC: headers,
/// payload and zero padding to a multiple of four.
pub open spec fn packet_wire(m: Metadata, payload: Seq<u8>) -> Result<Seq<u8>, PacketError> {
    match header_wire(m, pad_of(payload.len())) {
        Err(e) => Err(e),
        Ok(h) => Ok(h + payload + Seq::new(pad_of(payload.len()), |i: int| 0u8)),
    }
}

/// Metadata that a packet can carry unchanged: sequence numbers fit in 24
/// bits, the AETH value in five, and the optional headers are present exactly
/// when the opcode's layout has them.
pub open spec fn wf_metadata(m: Metadata) -> bool {
    match m {
        Metadata::General(g) => g.common_meta.dqpn < 0x100_0000 && g.common_meta.psn < 0x100_0000 && match layout_of(
            g.common_meta.opcode,
        ) {
            HeaderLayout::BthReth => g.imm is None && g.secondary_reth is None,
            HeaderLayout::BthRethImm => g.imm is Some && g.secondary_reth is None,
            HeaderLayout::BthDoubleReth => g.imm is None && g.secondary_reth is Some,
            HeaderLayout::BthAeth => false,
        },
        Metadata::Acknowledge(a) => a.common_meta.dqpn < 0x100_0000 && a.common_meta.psn < 0x100_0000
            && layout_of(a.common_meta.opcode) == HeaderLayout::BthAeth && a.aeth_value < 32 && a.msn < 0x100_0000,
    }
}

/// Bytes after the headers of a packet, without its padding.
fn payload_after(buf: &[u8], header_len: usize, bth: &BTH) -> (r: Result<PayloadInfo, PacketError>)
    requires
        12 <= header_len <= buf@.len(),
        bth.view_bytes() == buf@.subrange(0, 12),
    ensures
        buf@.len() < header_len + wire_pad_cnt(buf@) ==> r == Err::<PayloadInfo, PacketError>(
            PacketError::BufferTooShort,
        ),
        buf@.len() >= header_len + wire_pad_cnt(buf@) ==> (r matches Ok(p) && p@ == buf@.subrange(
            header_len as int,
            buf@.len() - wire_pad_cnt(buf@),
        )),
{
    assert(bth.view_bytes()[1] == bth.flags);
    assert(buf@.subrange(0, 12)[1] == buf@[1]);
    let rest = buf.len() - header_len;
    if rest < bth.get_pad_cnt() as usize {
        return Err(PacketError::BufferTooShort);
    }
    let payload_length = bth.get_packet_real_length(rest);
    let data = vstd::slice::slice_subrange(buf, header_len, header_len + payload_length);
    Ok(PayloadInfo::new_with_data(data))
}

/// A composite packet header layout that contains the BTH and the RETH.
#[derive(Debug, Clone, Copy)]
pub struct RdmaHeaderReqBthReth {
    pub bth: BTH,
    pub reth: RETH,
}

impl RdmaHeaderReqBthReth {
    pub open spec fn view_bytes(&self) -> Seq<u8> {
        self.bth.view_bytes() + self.reth.view_bytes()
    }

    /// Copies the headers out of the front of `bytes`.
    pub fn from_bytes(bytes: &[u8]) -> (r: Self)
        requires
            bytes@.len() >= 28,
        ensures
            r.view_bytes() == bytes@.subrange(0, 28),
    {
        let bth = BTH::from_bytes(bytes);
        let reth = RETH::from_bytes(vstd::slice::slice_subrange(bytes, 12, 28));
        let r = RdmaHeaderReqBthReth { bth, reth };
        assert(r.view_bytes() =~= bytes@.subrange(0, 28));
        r
    }

    /// Appends the headers' bytes to `buf`.
    pub fn write_to(&self, buf: &mut Vec<u8>)
        ensures
            final(buf)@ == old(buf)@ + self.view_bytes(),
    {
        self.bth.write_to(buf);
        self.reth.write_to(buf);
        assert(buf@ =~= old(buf)@ + self.view_bytes());
    }

    /// Decodes the message whose headers these are; `buf` is the whole packet
    /// after the UDP header, these headers first.
    pub fn to_rdma_message(&self, buf: &[u8]) -> (r: Result<RdmaMessage, PacketError>)
        requires
            buf@.len() >= 28,
            self.view_bytes() == buf@.subrange(0, 28),
        ensures
            parsed_as(r, parse_with_layout(HeaderLayout::BthReth, buf@)),
    {
        proof {
            lemma_subrange_of_concat(self.bth.view_bytes(), self.reth.view_bytes(), buf@, 0);
        }
        let meta = match RdmaGeneralMeta::new_from_packet(&self.bth, &self.reth, None, None) {
            Ok(m) => m,
            Err(e) => return Err(e),
        };
        match payload_after(buf, 28, &self.bth) {
            Ok(payload) => Ok(RdmaMessage { meta_data: Metadata::General(meta), payload }),
            Err(e) => Err(e),
        }
    }

    /// Writes the headers of `message`; the number of header bytes on success.
    pub fn set_from_rdma_message(&mut self, message: &RdmaMessage) -> (r: Result<usize, PacketError>)
        ensures
            match layout_wire(HeaderLayout::BthReth, message.meta_data, pad_of(message.payload@.len())) {
                Ok(h) => r == Ok::<usize, PacketError>(28) && final(self).view_bytes() == h,
                Err(e) => r == Err::<usize, PacketError>(e),
            },
    {
        match &message.meta_data {
            Metadata::General(header) => {
                let pad = message.payload.get_pad_cnt();
                let mut bth = BTH::new();
                bth.set_from_common_meta(&header.common_meta, pad);
                let mut reth = RETH::new();
                reth.set_from_reth_header(&header.reth);
                proof {
                    lemma_bth_bytes(bth, header.common_meta, pad as nat);
                    lemma_reth_bytes(reth, header.reth);
                }
                self.bth = bth;
                self.reth = reth;
                Ok(BTH_SIZE + RETH_SIZE)
            },
            Metadata::Acknowledge(_) => Err(PacketError::InvalidMetadataType),
        }
    }
}

/// A composite packet header layout that contains the BTH and two RETHs.
#[derive(Debug, Clone, Copy)]
pub struct RdmaHeaderReqBthDoubleReth {
    pub bth: BTH,
    pub reth: RETH,
    pub secondary_reth: RETH,
}

impl RdmaHeaderReqBthDoubleReth {
    pub open spec fn view_bytes(&self) -> Seq<u8> {
        self.bth.view_bytes() + self.reth.view_bytes() + self.secondary_reth.view_bytes()
    }

    /// Copies the headers out of the front of `bytes`.
    pub fn from_bytes(bytes: &[u8]) -> (r: Self)
        requires
            bytes@.len() >= 44,
        ensures
            r.view_bytes() == bytes@.subrange(0, 44),
    {
        let bth = BTH::from_bytes(bytes);
        let reth = RETH::from_bytes(vstd::slice::slice_subrange(bytes, 12, 28));
        let secondary_reth = RETH::from_bytes(vstd::slice::slice_subrange(bytes, 28, 44));
        let r = RdmaHeaderReqBthDoubleReth { bth, reth, secondary_reth };
        assert(r.view_bytes() =~= bytes@.subrange(0, 44));
        r
    }

    /// Appends the headers' bytes to `buf`.
    pub fn write_to(&self, buf: &mut Vec<u8>)
        ensures
            final(buf)@ == old(buf)@ + self.view_bytes(),
    {
        self.bth.write_to(buf);
        self.reth.write_to(buf);
        self.secondary_reth.write_to(buf);
        assert(buf@ =~= old(buf)@ + self.view_bytes());
    }

    /// Decodes the message whose headers these are; `buf` is the whole packet
    /// after the UDP header, these headers first.
    pub fn to_rdma_message(&self, buf: &[u8]) -> (r: Result<RdmaMessage, PacketError>)
        requires
            buf@.len() >= 44,
            self.view_bytes() == buf@.subrange(0, 44),
        ensures
            parsed_as(r, parse_with_layout(HeaderLayout::BthDoubleReth, buf@)),
    {
        proof {
            lemma_subrange_of_concat(
                self.bth.view_bytes() + self.reth.view_bytes(),
                self.secondary_reth.view_bytes(),
                buf@,
                0,
            );
            lemma_subrange_of_concat(self.bth.view_bytes(), self.reth.view_bytes(), buf@, 0);
        }
        let meta = match RdmaGeneralMeta::new_from_packet(&self.bth, &self.reth, None, Some(&self.secondary_reth)) {
            Ok(m) => m,
            Err(e) => return Err(e),
        };
        match payload_after(buf, 44, &self.bth) {
            Ok(payload) => Ok(RdmaMessage { meta_data: Metadata::General(meta), payload }),
            Err(e) => Err(e),
        }
    }

    /// Writes the headers of `message`; the number of header bytes on success.
    pub fn set_from_rdma_message(&mut self, message: &RdmaMessage) -> (r: Result<usize, PacketError>)
        ensures
            match layout_wire(HeaderLayout::BthDoubleReth, message.meta_data, pad_of(message.payload@.len())) {
                Ok(h) => r == Ok::<usize, PacketError>(44) && final(self).view_bytes() == h,
                Err(e) => r == Err::<usize, PacketError>(e),
            },
    {
        match &message.meta_data {
            Metadata::General(header) => {
                let sec = match &header.secondary_reth {
                    Some(s) => s,
                    None => return Err(PacketError::InvalidMetadataType),
                };
                let pad = message.payload.get_pad_cnt();
                let mut bth = BTH::new();
                bth.set_from_common_meta(&header.common_meta, pad);
                let mut reth = RETH::new();
                reth.set_from_reth_header(&header.reth);
                let mut secondary_reth = RETH::new();
                secondary_reth.set_from_reth_header(sec);
                proof {
                    lemma_bth_bytes(bth, header.common_meta, pad as nat);
                    lemma_reth_bytes(reth, header.reth);
                    lemma_reth_bytes(secondary_reth, *sec);
                }
                self.bth = bth;
                self.reth = reth;
                self.secondary_reth = secondary_reth;
                Ok(BTH_SIZE + RETH_SIZE + RETH_SIZE)
            },
            Metadata::Acknowledge(_) => Err(PacketError::InvalidMetadataType),
        }
    }
}

/// A composite packet header layout that contains the BTH, the RETH and the immediate value.
#[derive(Debug, Clone, Copy)]
pub struct RdmaHeaderReqBthRethImm {
    pub bth: BTH,
    pub reth: RETH,
    pub imm: Immediate,
}

impl RdmaHeaderReqBthRethImm {
    pub open spec fn view_bytes(&self) -> Seq<u8> {
        self.bth.view_bytes() + self.reth.view_bytes() + self.imm.view_bytes()
    }

    /// Copies the headers out of the front of `bytes`.
    pub fn from_bytes(bytes: &[u8]) -> (r: Self)
        requires
            bytes@.len() >= 32,
        ensures
            r.view_bytes() == bytes@.subrange(0, 32),
    {
        let bth = BTH::from_bytes(bytes);
        let reth = RETH::from_bytes(vstd::slice::slice_subrange(bytes, 12, 28));
        let imm = Immediate::from_bytes(vstd::slice::slice_subrange(bytes, 28, 32));
        let r = RdmaHeaderReqBthRethImm { bth, reth, imm };
        assert(r.view_bytes() =~= bytes@.subrange(0, 32));
        r
    }

    /// Appends the headers' bytes to `buf`.
    pub fn write_to(&self, buf: &mut Vec<u8>)
        ensures
            final(buf)@ == old(buf)@ + self.view_bytes(),
    {
        self.bth.write_to(buf);
        self.reth.write_to(buf);
        self.imm.write_to(buf);
        assert(buf@ =~= old(buf)@ + self.view_bytes());
    }

    /// Decodes the message whose headers these are; `buf` is the whole packet
    /// after the UDP header, these headers first.
    pub fn to_rdma_message(&self, buf: &[u8]) -> (r: Result<RdmaMessage, PacketError>)
        requires
            buf@.len() >= 32,
            self.view_bytes() == buf@.subrange(0, 32),
        ensures
            parsed_as(r, parse_with_layout(HeaderLayout::BthRethImm, buf@)),
    {
        proof {
            lemma_subrange_of_concat(self.bth.view_bytes() + self.reth.view_bytes(), self.imm.view_bytes(), buf@, 0);
            lemma_subrange_of_concat(self.bth.view_bytes(), self.reth.view_bytes(), buf@, 0);
        }
        let meta = match RdmaGeneralMeta::new_from_packet(&self.bth, &self.reth, Some(&self.imm), None) {
            Ok(m) => m,
            Err(e) => return Err(e),
        };
        match payload_after(buf, 32, &self.bth) {
            Ok(payload) => Ok(RdmaMessage { meta_data: Metadata::General(meta), payload }),
            Err(e) => Err(e),
        }
    }

    /// Writes the headers of `message`; the number of header bytes on success.
    pub fn set_from_rdma_message(&mut self, message: &RdmaMessage) -> (r: Result<usize, PacketError>)
        ensures
            match layout_wire(HeaderLayout::BthRethImm, message.meta_data, pad_of(message.payload@.len())) {
                Ok(h) => r == Ok::<usize, PacketError>(32) && final(self).view_bytes() == h,
                Err(e) => r == Err::<usize, PacketError>(e),
            },
    {
        match &message.meta_data {
            Metadata::General(header) => {
                let imm_value = match header.imm {
                    Some(i) => i,
                    None => return Err(PacketError::InvalidMetadataType),
                };
                let pad = message.payload.get_pad_cnt();
                let mut bth = BTH::new();
                bth.set_from_common_meta(&header.common_meta, pad);
                let mut reth = RETH::new();
                reth.set_from_reth_header(&header.reth);
                let mut imm = Immediate([0; 4]);
                imm.set(imm_value);
                proof {
                    lemma_bth_bytes(bth, header.common_meta, pad as nat);
                    lemma_reth_bytes(reth, header.reth);
                    crate::utils::lemma_be_bytes_of_value(imm.0@);
                }
                self.bth = bth;
                self.reth = reth;
                self.imm = imm;
                Ok(BTH_SIZE + RETH_SIZE + IMM_SIZE)
            },
            Metadata::Acknowledge(_) => Err(PacketError::InvalidMetadataType),
        }
    }
}

/// A composite packet header layout that contains the BTH and the AETH.
#[derive(Debug, Clone, Copy)]
pub struct RdmaHeaderRespBthAeth {
    pub bth: BTH,
    pub aeth: AETH,
}

impl RdmaHeaderRespBthAeth {
    pub open spec fn view_bytes(&self) -> Seq<u8> {
        self.bth.view_bytes() + self.aeth.view_bytes()
    }

    /// Copies the headers out of the front of `bytes`.
    pub fn from_bytes(bytes: &[u8]) -> (r: Self)
        requires
            bytes@.len() >= 16,
        ensures
            r.view_bytes() == bytes@.subrange(0, 16),
    {
        let bth = BTH::from_bytes(bytes);
        let aeth = AETH::from_bytes(vstd::slice::slice_subrange(bytes, 12, 16));
        let r = RdmaHeaderRespBthAeth { bth, aeth };
        assert(r.view_bytes() =~= bytes@.subrange(0, 16));
        r
    }

    /// Appends the headers' bytes to `buf`.
    pub fn write_to(&self, buf: &mut Vec<u8>)
        ensures
            final(buf)@ == old(buf)@ + self.view_bytes(),
    {
        self.bth.write_to(buf);
        self.aeth.write_to(buf);
        assert(buf@ =~= old(buf)@ + self.view_bytes());
    }

    /// Decodes the message whose headers these are; `buf` is the whole packet
    /// after the UDP header, these headers first.
    pub fn to_rdma_message(&self, buf: &[u8]) -> (r: Result<RdmaMessage, PacketError>)
        requires
            buf@.len() >= 16,
            self.view_bytes() == buf@.subrange(0, 16),
        ensures
            parsed_as(r, parse_with_layout(HeaderLayout::BthAeth, buf@)),
    {
        proof {
            lemma_subrange_of_concat(self.bth.view_bytes(), self.aeth.view_bytes(), buf@, 0);
        }
        let meta = match AethHeader::new_from_packet(&self.bth, &self.aeth) {
            Ok(m) => m,
            Err(e) => return Err(e),
        };
        match payload_after(buf, 16, &self.bth) {
            Ok(payload) => Ok(RdmaMessage { meta_data: Metadata::Acknowledge(meta), payload }),
            Err(e) => Err(e),
        }
    }

    /// Writes the headers of `message`; the number of header bytes on success.
    /// The AETH value is reduced to its five bits.
    pub fn set_from_rdma_message(&mut self, message: &RdmaMessage) -> (r: Result<usize, PacketError>)
        ensures
            match layout_wire(HeaderLayout::BthAeth, message.meta_data, pad_of(message.payload@.len())) {
                Ok(h) => r == Ok::<usize, PacketError>(16) && final(self).view_bytes() == h,
                Err(e) => r == Err::<usize, PacketError>(e),
            },
    {
        match &message.meta_data {
            Metadata::Acknowledge(header) => {
                let pad = message.payload.get_pad_cnt();
                let mut bth = BTH::new();
                bth.set_from_common_meta(&header.common_meta, pad);
                let mut aeth = AETH::new();
                aeth.set_aeth_code_and_value(header.aeth_code.to_u8(), header.aeth_value % 32);
                aeth.set_msn(header.msn);
                proof {
                    lemma_bth_bytes(bth, header.common_meta, pad as nat);
                    lemma_aeth_bytes(aeth, *header);
                }
                self.bth = bth;
                self.aeth = aeth;
                Ok(BTH_SIZE + AETH_SIZE)
            },
            Metadata::General(_) => Err(PacketError::InvalidMetadataType),
        }
    }
}

/// Converts between RDMA messages and the bytes that follow the UDP header.
pub struct PacketProcessor;

impl PacketProcessor {
    /// Decodes the packet `buf`: the headers that its opcode selects, then the
    /// payload without its padding.
    pub fn to_rdma_message(buf: &[u8]) -> (r: Result<RdmaMessage, PacketError>)
        ensures
            parsed_as(r, parse_message(buf@)),
    {
        if buf.len() < BTH_SIZE {
            return Err(PacketError::BufferTooShort);
        }
        let bth = BTH::from_bytes(buf);
        assert(bth.view_bytes()[0] == bth.tran_type_and_opcode);
        assert(buf@.subrange(0, 12)[0] == buf@[0]);
        let opcode = match ToHostWorkRbDescOpcode::from_u8(bth.get_opcode()) {
            Ok(o) => o,
            Err(e) => return Err(e),
        };
        let layout = header_layout(opcode);
        if buf.len() < header_size(layout) {
            return Err(PacketError::BufferTooShort);
        }
        match layout {
            HeaderLayout::BthReth => RdmaHeaderReqBthReth::from_bytes(buf).to_rdma_message(buf),
            HeaderLayout::BthRethImm => RdmaHeaderReqBthRethImm::from_bytes(buf).to_rdma_message(buf),
            HeaderLayout::BthDoubleReth => RdmaHeaderReqBthDoubleReth::from_bytes(buf).to_rdma_message(buf),
            HeaderLayout::BthAeth => RdmaHeaderRespBthAeth::from_bytes(buf).to_rdma_message(buf),
        }
    }

    /// The header bytes of `message`, in the layout that its opcode selects.
    pub fn header_bytes(message: &RdmaMessage) -> (r: Result<Vec<u8>, PacketError>)
        ensures
            match header_wire(message.meta_data, pad_of(message.payload@.len())) {
                Ok(h) => r matches Ok(v) && v@ == h,
                Err(e) => r == Err::<Vec<u8>, PacketError>(e),
            },
    {
        let opcode = match &message.meta_data {
            Metadata::General(g) => g.common_meta.opcode,
            Metadata::Acknowledge(a) => a.common_meta.opcode,
        };
        let mut out: Vec<u8> = Vec::new();
        match header_layout(opcode) {
            HeaderLayout::BthReth => {
                let mut h = RdmaHeaderReqBthReth { bth: BTH::new(), reth: RETH::new() };
                match h.set_from_rdma_message(message) {
                    Ok(_) => h.write_to(&mut out),
                    Err(e) => return Err(e),
                }
            },
            HeaderLayout::BthRethImm => {
                let mut h = RdmaHeaderReqBthRethImm { bth: BTH::new(), reth: RETH::new(), imm: Immediate([0; 4]) };
                match h.set_from_rdma_message(message) {
                    Ok(_) => h.write_to(&mut out),
                    Err(e) => return Err(e),
                }
            },
            HeaderLayout::BthDoubleReth => {
                let mut h = RdmaHeaderReqBthDoubleReth {
                    bth: BTH::new(),
                    reth: RETH::new(),
                    secondary_reth: RETH::new(),
                };
                match h.set_from_rdma_message(message) {
                    Ok(_) => h.write_to(&mut out),
                    Err(e) => return Err(e),
                }
            },
            HeaderLayout::BthAeth => {
                let mut h = RdmaHeaderRespBthAeth { bth: BTH::new(), aeth: AETH::new() };
                match h.set_from_rdma_message(message) {
                    Ok(_) => h.write_to(&mut out),
                    Err(e) => return Err(e),
                }
            },
        }
        assert(out@ =~= Seq::<u8>::empty() + out@);
        Ok(out)
    }

    /// Writes the headers of `message` over the front of `buf`; the number of
    /// header bytes on success. `buf` is left as it was on failure.
    pub fn set_from_rdma_message(buf: &mut Vec<u8>, message: &RdmaMessage) -> (r: Result<usize, PacketError>)
        ensures
            match header_wire(message.meta_data, pad_of(message.payload@.len())) {
                Ok(h) => if old(buf)@.len() < h.len() {
                    r == Err::<usize, PacketError>(PacketError::BufferTooShort) && final(buf)@ == old(buf)@
                } else {
                    r == Ok::<usize, PacketError>(h.len() as usize) && final(buf)@ == h + old(buf)@.subrange(
                        h.len() as int,
                        old(buf)@.len() as int,
                    )
                },
                Err(e) => r == Err::<usize, PacketError>(e) && final(buf)@ == old(buf)@,
            },
    {
        let header = match PacketProcessor::header_bytes(message) {
            Ok(h) => h,
            Err(e) => return Err(e),
        };
        let n = header.len();
        if buf.len() < n {
            return Err(PacketError::BufferTooShort);
        }
        let mut i: usize = 0;
        while i < n
            invariant
                n == header@.len(),
                i <= n <= old(buf)@.len(),
                buf@.len() == old(buf)@.len(),
                forall|k: int| 0 <= k < i ==> buf@[k] == header@[k],
                forall|k: int| i <= k < buf@.len() ==> buf@[k] == old(buf)@[k],
            decreases n - i,
        {
            buf.set(i, header[i]);
            i = i + 1;
        }
        assert(buf@ =~= header@ + old(buf)@.subrange(n as int, old(buf)@.len() as int));
        Ok(n)
    }

    /// The bytes of the packet for `message` after the UDP header, without the
    /// ICRC: headers, payload, and zero padding to a multiple of four.
    pub fn to_packet_bytes(message: &RdmaMessage) -> (r: Result<Vec<u8>, PacketError>)
        ensures
            match packet_wire(message.meta_data, message.payload@) {
                Ok(b) => r matches Ok(v) && v@ == b,
                Err(e) => r == Err::<Vec<u8>, PacketError>(e),
            },
    {
        let mut out = match PacketProcessor::header_bytes(message) {
            Ok(h) => h,
            Err(e) => return Err(e),
        };
        let ghost h = out@;
        let payload = message.payload.as_slice();
        let mut i: usize = 0;
        while i < payload.len()
            invariant
                i <= payload@.len(),
                payload@ == message.payload@,
                out@ == h + payload@.subrange(0, i as int),
            decreases payload@.len() - i,
        {
            out.push(payload[i]);
            assert(payload@.subrange(0, i + 1) =~= payload@.subrange(0, i as int).push(payload[i as int]));
            i = i + 1;
        }
        assert(payload@.subrange(0, i as int) =~= payload@);
        let pad = message.payload.get_pad_cnt();
        let mut j: usize = 0;
        while j < pad
            invariant
                j <= pad,
                pad == pad_of(message.payload@.len()),
                out@ == h + message.payload@ + Seq::new(j as nat, |k: int| 0u8),
            decreases pad - j,
        {
            out.push(0u8);
            assert(Seq::new((j + 1) as nat, |k: int| 0u8) =~= Seq::new(j as nat, |k: int| 0u8).push(0u8));
            j = j + 1;
        }
        Ok(out)
    }
}

/// The frame facts shared by every layout: where the headers, the payload and
/// the padding stand in `bth_wire(c, pad) + tail + payload + padding`.
proof fn lemma_frame_parts(c: RdmaMessageMetaCommon, tail: Seq<u8>, payload: Seq<u8>)
    requires
        c.dqpn < 0x100_0000,
        c.psn < 0x100_0000,
        tail.len() + 12 == layout_len(layout_of(c.opcode)),
    ensures
        ({
            let pad = pad_of(payload.len());
            let n = layout_len(layout_of(c.opcode));
            let b = bth_wire(c, pad) + tail + payload + Seq::new(pad, |i: int| 0u8);
            &&& b.len() == n + payload.len() + pad
            &&& opcode_of_code((b[0] % 32) as u8) == Some(c.opcode)
            &&& wire_common(b.subrange(0, 12)) == Ok::<RdmaMessageMetaCommon, PacketError>(c)
            &&& wire_pad_cnt(b) == pad
            &&& b.subrange(12, n as int) == tail
            &&& b.subrange(n as int, b.len() - pad) == payload
        }),
{
    let pad = pad_of(payload.len());
    let n = layout_len(layout_of(c.opcode));
    let z = Seq::new(pad, |i: int| 0u8);
    let rest = tail + payload + z;
    let b = bth_wire(c, pad) + tail + payload + z;
    assert(b =~= bth_wire(c, pad) + rest);
    lemma_bth_wire_parse(c, pad, rest);
    crate::packet::lemma_opcode_code_inverse(c.opcode);
    assert(b.subrange(12, n as int) =~= tail);
    assert(b.subrange(n as int, b.len() - pad) =~= payload);
}

/// Round trip of the codec: the packet bytes of well-formed metadata with any
/// payload decode to that metadata and that payload, for every layout.
pub proof fn lemma_codec_round_trip(m: Metadata, payload: Seq<u8>)
    requires
        wf_metadata(m),
    ensures
        packet_wire(m, payload) is Ok,
        parse_message(packet_wire(m, payload)->Ok_0) == Ok::<(Metadata, Seq<u8>), PacketError>((m, payload)),
{
    let pad = pad_of(payload.len());
    let z = Seq::new(pad, |i: int| 0u8);
    match m {
        Metadata::General(g) => {
            let c = g.common_meta;
            lemma_reth_wire_parse(g.reth);
            match layout_of(c.opcode) {
                HeaderLayout::BthReth => {
                    let tail = reth_wire(g.reth);
                    lemma_frame_parts(c, tail, payload);
                },
                HeaderLayout::BthRethImm => {
                    let i = g.imm->Some_0;
                    let tail = reth_wire(g.reth) + be_bytes(i as nat, 4);
                    crate::message::lemma_pow256_small();
                    lemma_be_value_of_bytes(i as nat, 4);
                    lemma_frame_parts(c, tail, payload);
                    assert(tail.subrange(0, 16) =~= reth_wire(g.reth));
                    assert(tail.subrange(16, 20) =~= be_bytes(i as nat, 4));
                    let b = bth_wire(c, pad) + tail + payload + z;
                    assert(b.subrange(12, 28) =~= tail.subrange(0, 16));
                    assert(b.subrange(28, 32) =~= tail.subrange(16, 20));
                    assert(bth_wire(c, pad) + reth_wire(g.reth) + be_bytes(i as nat, 4) =~= bth_wire(c, pad) + tail);
                },
                HeaderLayout::BthDoubleReth => {
                    let r2 = g.secondary_reth->Some_0;
                    let tail = reth_wire(g.reth) + reth_wire(r2);
                    lemma_reth_wire_parse(r2);
                    lemma_frame_parts(c, tail, payload);
                    assert(tail.subrange(0, 16) =~= reth_wire(g.reth));
                    assert(tail.subrange(16, 32) =~= reth_wire(r2));
                    let b = bth_wire(c, pad) + tail + payload + z;
                    assert(b.subrange(12, 28) =~= tail.subrange(0, 16));
                    assert(b.subrange(28, 44) =~= tail.subrange(16, 32));
                    assert(bth_wire(c, pad) + reth_wire(g.reth) + reth_wire(r2) =~= bth_wire(c, pad) + tail);
                },
                HeaderLayout::BthAeth => {},
            }
        },
        Metadata::Acknowledge(a) => {
            let tail = aeth_wire(a);
            lemma_aeth_wire_parse(a);
            lemma_frame_parts(a.common_meta, tail, payload);
        },
    }
}

/// Every packet holds at least the sixteen bytes of the shortest layout.
pub proof fn lemma_packet_wire_len(m: Metadata, payload: Seq<u8>)
    ensures
        packet_wire(m, payload) matches Ok(b) ==> b.len() >= 16,
{
    let pad = pad_of(payload.len());
    let c = match m {
        Metadata::General(g) => g.common_meta,
        Metadata::Acknowledge(a) => a.common_meta,
    };
    crate::utils::lemma_be_bytes_len(c.pkey as nat, 2);
    crate::utils::lemma_be_bytes_len((c.dqpn % 0x100_0000) as nat, 3);
    crate::utils::lemma_be_bytes_len((c.psn % 0x100_0000) as nat, 3);
    assert(bth_wire(c, pad).len() == 12);
    match m {
        Metadata::General(g) => {
            crate::utils::lemma_be_bytes_len(g.reth.va as nat, 8);
            crate::utils::lemma_be_bytes_len(g.reth.rkey as nat, 4);
            crate::utils::lemma_be_bytes_len(g.reth.len as nat, 4);
        },
        Metadata::Acknowledge(a) => {
            crate::utils::lemma_be_bytes_len((a.msn % 0x100_0000) as nat, 3);
        },
    }
}

} // verus!
