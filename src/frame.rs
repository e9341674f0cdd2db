//! Whole frames on the raw socket: IPv4 and UDP headers around the RDMA
//! packet, and the ICRC trailer.
use vstd::prelude::*;

use crate::codec::{packet_wire, parse_message, PacketProcessor};
use crate::icrc::{compute_icrc, crc32_spec, icrc_bytes, icrc_input, is_icrc_valid, le32, MIN_FRAME_SIZE};
use crate::message::RdmaMessage;
use crate::packet::{
    Ipv4Header, PacketError, UdpHeader, ICRC_SIZE, IPV4_HEADER_SIZE, UDP_HEADER_SIZE,
};
use crate::utils::be_value;

verus! {

/// UDP port of RoCEv2.
pub const ROCE_UDP_PORT: u16 = 4791;

/// Flags and fragment offset of every frame: do not fragment.
pub const IPV4_FLAGS_DONT_FRAGMENT: u16 = 0x4000;

/// Sum of the first `n` big-endian 16-bit words of `h`.
pub open spec fn word_sum(h: Seq<u8>, n: nat) -> nat
    decreases n,
{
    if n == 0 {
        0
    } else {
        (word_sum(h, (n - 1) as nat) + h[2 * (n - 1)] * 256 + h[2 * (n - 1) + 1]) as nat
    }
}

/// One end-around-carry fold of a ones' complement sum.
pub open spec fn fold16(x: nat) -> nat {
    x % 0x1_0000 + x / 0x1_0000
}

/// The IPv4 header checksum of twenty header bytes whose checksum field is zero.
pub open spec fn ipv4_checksum_spec(h: Seq<u8>) -> int {
    0xffff - fold16(fold16(word_sum(h, 10)))
}

/// The IPv4 header checksum of twenty header bytes whose checksum field is zero.
pub fn ipv4_checksum(h: &[u8]) -> (r: u16)
    requires
        h@.len() == IPV4_HEADER_SIZE,
    ensures
        r == ipv4_checksum_spec(h@),
{
    let mut sum: u32 = 0;
    let mut i: usize = 0;
    while i < 10
        invariant
            i <= 10,
            h@.len() == 20,
            sum == word_sum(h@, i as nat),
            sum <= i * 0xffff,
        decreases 10 - i,
    {
        sum = sum + (h[2 * i] as u32) * 256 + h[2 * i + 1] as u32;
        i = i + 1;
    }
    let f1 = sum % 0x1_0000 + sum / 0x1_0000;
    let f2 = f1 % 0x1_0000 + f1 / 0x1_0000;
    proof {
        assert(f2 <= 0xffff) by (nonlinear_arith)
            requires
                sum <= 10 * 0xffff,
                f1 == sum % 0x1_0000 + sum / 0x1_0000,
                f2 == f1 % 0x1_0000 + f1 / 0x1_0000,
        ;
    }
    (0xffff - f2) as u16
}

/// What the receive path makes of a frame.
#[derive(Debug, Clone, Copy, PartialEq, Eq, Structural)]
pub enum RecvError {
    /// Shorter than the IPv4, UDP and base transport headers and the ICRC.
    TooShort,
    /// The ICRC does not match.
    BadIcrc,
    /// The RDMA packet inside does not decode.
    Packet(PacketError),
}

/// Checks a received frame and decodes the RDMA message inside it: frames
/// that are too short or whose ICRC does not match are refused.
pub fn process_received_frame(frame: &[u8]) -> (r: Result<RdmaMessage, RecvError>)
    ensures
        frame@.len() < MIN_FRAME_SIZE ==> r == Err::<RdmaMessage, RecvError>(RecvError::TooShort),
        frame@.len() >= MIN_FRAME_SIZE && le32(frame@.subrange(frame@.len() - 4, frame@.len() as int))
            != crc32_spec(icrc_input(frame@)) ==> r == Err::<RdmaMessage, RecvError>(RecvError::BadIcrc),
        frame@.len() >= MIN_FRAME_SIZE && le32(frame@.subrange(frame@.len() - 4, frame@.len() as int))
            == crc32_spec(icrc_input(frame@)) ==> match parse_message(
            frame@.subrange((IPV4_HEADER_SIZE + UDP_HEADER_SIZE) as int, frame@.len() - ICRC_SIZE),
        ) {
            Ok((meta, payload)) => r matches Ok(m) && m.meta_data == meta && m.payload@ == payload,
            Err(e) => r == Err::<RdmaMessage, RecvError>(RecvError::Packet(e)),
        },
{
    if frame.len() < MIN_FRAME_SIZE {
        return Err(RecvError::TooShort);
    }
    if !is_icrc_valid(frame) {
        return Err(RecvError::BadIcrc);
    }
    let offset = IPV4_HEADER_SIZE + UDP_HEADER_SIZE;
    let data = vstd::slice::slice_subrange(frame, offset, frame.len() - ICRC_SIZE);
    match PacketProcessor::to_rdma_message(data) {
        Ok(m) => Ok(m),
        Err(e) => Err(RecvError::Packet(e)),
    }
}

/// The IPv4 and UDP headers of a frame of `total` bytes.
fn ip_udp_headers(src_addr: [u8; 4], src_port: u16, dest_addr: [u8; 4], dest_port: u16, ip_id: u16, total: u16) -> (r:
    Vec<u8>)
    requires
        total >= 28,
    ensures
        r@.len() == 28,
        r@[0] == 0x45 && r@[1] == 0 && r@[8] == 64 && r@[9] == 0x11,
        be_value(r@.subrange(2, 4)) == total,
        be_value(r@.subrange(4, 6)) == ip_id,
        be_value(r@.subrange(6, 8)) == IPV4_FLAGS_DONT_FRAGMENT,
        be_value(r@.subrange(10, 12)) == ipv4_checksum_spec(r@.subrange(0, 10) + seq![0u8, 0u8] + r@.subrange(12, 20)),
        r@.subrange(12, 16) == src_addr@,
        r@.subrange(16, 20) == dest_addr@,
        be_value(r@.subrange(20, 22)) == src_port,
        be_value(r@.subrange(22, 24)) == dest_port,
        be_value(r@.subrange(24, 26)) == total - 20,
        r@[26] == 0 && r@[27] == 0,
{
    let mut ip = Ipv4Header::new();
    ip.set_default_header();
    ip.set_total_length(total);
    ip.set_identification(ip_id);
    ip.set_flags_fragment_offset(IPV4_FLAGS_DONT_FRAGMENT);
    ip.set_source(src_addr);
    ip.set_destination(dest_addr);
    let mut hdr: Vec<u8> = Vec::new();
    ip.write_to(&mut hdr);
    assert(hdr@ =~= ip.view_bytes());
    let checksum = ipv4_checksum(hdr.as_slice());
    let ghost unsummed = ip;
    ip.set_checksum(checksum);
    let mut udp = UdpHeader::new();
    udp.set_source_port(src_port);
    udp.set_dest_port(dest_port);
    udp.set_length(total - 20);
    let mut out: Vec<u8> = Vec::new();
    ip.write_to(&mut out);
    udp.write_to(&mut out);
    proof {
        assert(out@.subrange(2, 4) =~= ip.total_length@);
        assert(out@.subrange(4, 6) =~= ip.identification@);
        assert(out@.subrange(6, 8) =~= ip.flags_fragment_offset@);
        assert(out@.subrange(10, 12) =~= ip.checksum@);
        assert(out@.subrange(12, 16) =~= src_addr@);
        assert(out@.subrange(16, 20) =~= dest_addr@);
        assert(out@.subrange(20, 22) =~= udp.source_port@);
        assert(out@.subrange(22, 24) =~= udp.dest_port@);
        assert(out@.subrange(24, 26) =~= udp.length@);
        assert(out@[26] == udp.checksum[0] && out@[27] == udp.checksum[1]);
        assert(unsummed.checksum@ =~= seq![0u8, 0u8]);
        assert(out@.subrange(0, 10) + seq![0u8, 0u8] + out@.subrange(12, 20) =~= hdr@);
    }
    out
}

/// Appends the ICRC of the frame `out`, whose last four bytes are still to come.
fn append_icrc(out: &mut Vec<u8>)
    requires
        old(out)@.len() + 4 >= MIN_FRAME_SIZE,
    ensures
        final(out)@.len() == old(out)@.len() + 4,
        final(out)@.subrange(0, old(out)@.len() as int) == old(out)@,
        le32(final(out)@.subrange(old(out)@.len() as int, final(out)@.len() as int)) == crc32_spec(
            icrc_input(final(out)@),
        ),
{
    out.push(0);
    out.push(0);
    out.push(0);
    out.push(0);
    let icrc = compute_icrc(out.as_slice());
    let t = icrc_bytes(icrc);
    let n = out.len();
    let ghost before = out@;
    out.set(n - 4, t[0]);
    out.set(n - 3, t[1]);
    out.set(n - 2, t[2]);
    out.set(n - 1, t[3]);
    assert(icrc_input(out@) =~= icrc_input(before));
    assert(out@.subrange(n - 4, n as int) =~= t@);
    assert(out@.subrange(0, n - 4) =~= old(out)@);
}

/// Builds the frame that carries `message` from `src_addr:src_port` to
/// `dest_addr:dest_port`: IPv4 header with its checksum, UDP header without
/// one, the RDMA packet, and the ICRC.
pub fn write_frame(
    src_addr: [u8; 4],
    src_port: u16,
    dest_addr: [u8; 4],
    dest_port: u16,
    ip_id: u16,
    message: &RdmaMessage,
) -> (r: Result<Vec<u8>, PacketError>)
    ensures
        match packet_wire(message.meta_data, message.payload@) {
            Err(e) => r == Err::<Vec<u8>, PacketError>(e),
            Ok(p) => if p.len() + 32 > 0xffff {
                r == Err::<Vec<u8>, PacketError>(PacketError::FrameTooLong)
            } else {
                r matches Ok(v) && {
                    &&& v@.len() == p.len() + 32
                    &&& v@.subrange(28, v@.len() - 4) == p
                    &&& v@[0] == 0x45 && v@[1] == 0 && v@[8] == 64 && v@[9] == 0x11
                    &&& be_value(v@.subrange(2, 4)) == v@.len()
                    &&& be_value(v@.subrange(4, 6)) == ip_id
                    &&& be_value(v@.subrange(6, 8)) == IPV4_FLAGS_DONT_FRAGMENT
                    &&& be_value(v@.subrange(10, 12)) == ipv4_checksum_spec(
                        v@.subrange(0, 10) + seq![0u8, 0u8] + v@.subrange(12, 20),
                    )
                    &&& v@.subrange(12, 16) == src_addr@
                    &&& v@.subrange(16, 20) == dest_addr@
                    &&& be_value(v@.subrange(20, 22)) == src_port
                    &&& be_value(v@.subrange(22, 24)) == dest_port
                    &&& be_value(v@.subrange(24, 26)) == v@.len() - 20
                    &&& v@[26] == 0 && v@[27] == 0
                    &&& le32(v@.subrange(v@.len() - 4, v@.len() as int)) == crc32_spec(icrc_input(v@))
                }
            },
        },
{
    let rdma = match PacketProcessor::to_packet_bytes(message) {
        Ok(b) => b,
        Err(e) => return Err(e),
    };
    proof {
        crate::codec::lemma_packet_wire_len(message.meta_data, message.payload@);
    }
    if rdma.len() > 0xffff - 32 {
        return Err(PacketError::FrameTooLong);
    }
    let total = (rdma.len() + 32) as u16;
    let mut out = ip_udp_headers(src_addr, src_port, dest_addr, dest_port, ip_id, total);
    let ghost head = out@;
    let mut i: usize = 0;
    while i < rdma.len()
        invariant
            i <= rdma@.len(),
            out@ == head + rdma@.subrange(0, i as int),
        decreases rdma@.len() - i,
    {
        out.push(rdma[i]);
        assert(rdma@.subrange(0, i + 1) =~= rdma@.subrange(0, i as int).push(rdma@[i as int]));
        i = i + 1;
    }
    assert(rdma@.subrange(0, i as int) =~= rdma@);
    let ghost body = out@;
    append_icrc(&mut out);
    proof {
        let v = out@;
        assert(v.subrange(28, v.len() - 4) =~= body.subrange(28, body.len() as int));
        assert(body.subrange(28, body.len() as int) =~= rdma@);
        assert(v.subrange(0, 28) =~= head);
        assert(v.subrange(2, 4) =~= head.subrange(2, 4));
        assert(v.subrange(4, 6) =~= head.subrange(4, 6));
        assert(v.subrange(6, 8) =~= head.subrange(6, 8));
        assert(v.subrange(10, 12) =~= head.subrange(10, 12));
        assert(v.subrange(12, 16) =~= head.subrange(12, 16));
        assert(v.subrange(16, 20) =~= head.subrange(16, 20));
        assert(v.subrange(20, 22) =~= head.subrange(20, 22));
        assert(v.subrange(22, 24) =~= head.subrange(22, 24));
        assert(v.subrange(24, 26) =~= head.subrange(24, 26));
        assert(v.subrange(0, 10) + seq![0u8, 0u8] + v.subrange(12, 20) =~= head.subrange(0, 10) + seq![0u8, 0u8]
            + head.subrange(12, 20));
    }
    Ok(out)
}

} // verus!
