//! The invariant CRC of RoCEv2 frames and the IPv4 header checksum.
use vstd::prelude::*;

use crate::packet::ICRC_SIZE;

verus! {

/// The reflected IEEE 802.3 CRC-32 polynomial.
pub const CRC32_POLY: u32 = 0xEDB8_8320;

/// One bit step of the reflected CRC-32.
pub open spec fn crc_step(c: u32) -> u32 {
    if c & 1 == 1 {
        (c >> 1) ^ CRC32_POLY
    } else {
        c >> 1
    }
}

/// `n` bit steps of the reflected CRC-32.
pub open spec fn crc_bits(c: u32, n: nat) -> u32
    decreases n,
{
    if n == 0 {
        c
    } else {
        crc_bits(crc_step(c), (n - 1) as nat)
    }
}

/// The CRC register after the bytes `s`, from register value `c`.
pub open spec fn crc_update(c: u32, s: Seq<u8>) -> u32
    decreases s.len(),
{
    if s.len() == 0 {
        c
    } else {
        crc_bits(crc_update(c, s.drop_last()) ^ (s.last() as u32), 8)
    }
}

/// CRC-32 (IEEE) of `s`: initial register all ones, result inverted.
pub open spec fn crc32_spec(s: Seq<u8>) -> u32 {
    crc_update(0xFFFF_FFFF, s) ^ 0xFFFF_FFFF
}

/// CRC-32 (IEEE) of `data`.
pub fn crc32(data: &[u8]) -> (r: u32)
    ensures
        r == crc32_spec(data@),
{
    let mut c: u32 = 0xFFFF_FFFF;
    let mut i: usize = 0;
    while i < data.len()
        invariant
            i <= data@.len(),
            c == crc_update(0xFFFF_FFFF, data@.subrange(0, i as int)),
        decreases data@.len() - i,
    {
        let ghost prefix = data@.subrange(0, i + 1);
        assert(prefix.drop_last() =~= data@.subrange(0, i as int));
        let mut x: u32 = c ^ (data[i] as u32);
        let ghost x0 = x;
        let mut k: u32 = 0;
        while k < 8
            invariant
                k <= 8,
                crc_bits(x, (8 - k) as nat) == crc_bits(x0, 8),
            decreases 8 - k,
        {
            x = if x & 1 == 1 {
                (x >> 1) ^ CRC32_POLY
            } else {
                x >> 1
            };
            k = k + 1;
        }
        c = x;
        i = i + 1;
    }
    assert(data@.subrange(0, i as int) =~= data@);
    c ^ 0xFFFF_FFFF
}

/// Offsets in a frame of the IP DSCP/ECN byte, the TTL, the IP header
/// checksum, the UDP checksum and the reserved byte above the BTH destination
/// QPN: the fields that the ICRC sees as all ones.
pub const ICRC_MASK_DSCP_ECN: usize = 1;

pub const ICRC_MASK_TTL: usize = 8;

pub const ICRC_MASK_IP_CHECKSUM: usize = 10;

pub const ICRC_MASK_UDP_CHECKSUM: usize = 26;

pub const ICRC_MASK_BTH_RESV: usize = 32;

/// Smallest frame that holds IPv4, UDP and BTH headers and the ICRC.
pub const MIN_FRAME_SIZE: usize = 44;

/// Whether byte `i` of a frame is masked to all ones for the ICRC.
pub open spec fn icrc_masked(i: int) -> bool {
    i == 1 || i == 8 || i == 10 || i == 11 || i == 26 || i == 27 || i == 32
}

/// The bytes that the ICRC of a frame covers: eight bytes of all ones, then
/// the frame up to its trailer with the variant fields set to all ones.
pub open spec fn icrc_input(frame: Seq<u8>) -> Seq<u8> {
    Seq::new(8, |i: int| 0xffu8) + Seq::new(
        (frame.len() - ICRC_SIZE) as nat,
        |i: int|
            if icrc_masked(i) {
                0xffu8
            } else {
                frame[i]
            },
    )
}

/// The ICRC of a frame of at least `MIN_FRAME_SIZE` bytes.
pub fn compute_icrc(frame: &[u8]) -> (r: u32)
    requires
        frame@.len() >= MIN_FRAME_SIZE,
    ensures
        r == crc32_spec(icrc_input(frame@)),
{
    let n = frame.len() - ICRC_SIZE;
    let mut buf: Vec<u8> = Vec::new();
    let mut i: usize = 0;
    while i < 8
        invariant
            i <= 8,
            buf@ == Seq::new(i as nat, |k: int| 0xffu8),
        decreases 8 - i,
    {
        buf.push(0xff);
        assert(buf@ =~= Seq::new((i + 1) as nat, |k: int| 0xffu8));
        i = i + 1;
    }
    let ghost masked = Seq::new(
        (frame@.len() - ICRC_SIZE) as nat,
        |k: int|
            if icrc_masked(k) {
                0xffu8
            } else {
                frame@[k]
            },
    );
    let mut j: usize = 0;
    while j < n
        invariant
            n == frame@.len() - ICRC_SIZE,
            j <= n,
            masked.len() == n,
            masked == Seq::new(
                (frame@.len() - ICRC_SIZE) as nat,
                |k: int|
                    if icrc_masked(k) {
                        0xffu8
                    } else {
                        frame@[k]
                    },
            ),
            buf@ == Seq::new(8, |k: int| 0xffu8) + masked.subrange(0, j as int),
        decreases n - j,
    {
        let b = if j == ICRC_MASK_DSCP_ECN || j == ICRC_MASK_TTL || j == ICRC_MASK_IP_CHECKSUM || j
            == ICRC_MASK_IP_CHECKSUM + 1 || j == ICRC_MASK_UDP_CHECKSUM || j == ICRC_MASK_UDP_CHECKSUM + 1 || j
            == ICRC_MASK_BTH_RESV {
            0xffu8
        } else {
            frame[j]
        };
        buf.push(b);
        assert(masked.subrange(0, j + 1) =~= masked.subrange(0, j as int).push(masked[j as int]));
        j = j + 1;
    }
    assert(masked.subrange(0, n as int) =~= masked);
    crc32(buf.as_slice())
}

/// The little-endian value of four bytes.
pub open spec fn le32(s: Seq<u8>) -> int {
    s[0] + s[1] * 0x100 + s[2] * 0x1_0000 + s[3] * 0x100_0000
}

/// Whether the trailer of `frame` holds its ICRC, least significant byte first.
pub fn is_icrc_valid(frame: &[u8]) -> (r: bool)
    requires
        frame@.len() >= MIN_FRAME_SIZE,
    ensures
        r == (le32(frame@.subrange(frame@.len() - 4, frame@.len() as int)) == crc32_spec(icrc_input(frame@))),
{
    let icrc = compute_icrc(frame);
    let n = frame.len();
    let stored = frame[n - 4] as u32 + (frame[n - 3] as u32) * 0x100 + (frame[n - 2] as u32) * 0x1_0000 + (frame[n
        - 1] as u32) * 0x100_0000;
    stored == icrc
}

/// The four trailer bytes that hold `icrc`, least significant first.
pub fn icrc_bytes(icrc: u32) -> (r: [u8; 4])
    ensures
        le32(r@) == icrc,
{
    let b0: u32 = icrc & 0xff;
    let b1: u32 = (icrc >> 8u32) & 0xff;
    let b2: u32 = (icrc >> 16u32) & 0xff;
    let b3: u32 = icrc >> 24u32;
    assert(b0 < 256 && b1 < 256 && b2 < 256 && b3 < 256 && icrc == b0 + b1 * 0x100 + b2 * 0x1_0000 + b3
        * 0x100_0000) by (bit_vector)
        requires
            b0 == icrc & 0xff,
            b1 == (icrc >> 8u32) & 0xff,
            b2 == (icrc >> 16u32) & 0xff,
            b3 == icrc >> 24u32,
    ;
    [b0 as u8, b1 as u8, b2 as u8, b3 as u8]
}

} // verus!
