//! Arithmetic helpers of the descriptor splitter and the page allocator.
use vstd::prelude::*;

use crate::types::{pmtu_bytes, Pmtu};
use crate::PAGE_SIZE;

verus! {

/// The first packet of a transfer ends at the next `pmtu` boundary of `va`.
pub open spec fn first_packet_max_length_spec(va: u64, pmtu: u32) -> int
    recommends
        pmtu > 0,
{
    pmtu - (va % pmtu as u64)
}

/// Number of packets that a transfer of `total_len` bytes to `raddr` is split into.
pub open spec fn packet_count_spec(raddr: u64, total_len: u32, pmtu: u32) -> int
    recommends
        pmtu > 0,
{
    let first = if total_len < first_packet_max_length_spec(raddr, pmtu) {
        total_len as int
    } else {
        first_packet_max_length_spec(raddr, pmtu)
    };
    1 + ceil_div(total_len - first, pmtu as int)
}

/// `a / b` rounded up.
pub open spec fn ceil_div(a: int, b: int) -> int
    recommends
        b > 0,
{
    (a + b - 1) / b
}

/// Get the length of the first packet.
///
/// A buffer is divided into packets at every `pmtu` boundary: with `pmtu = 256`
/// and `va = 254` the first packet holds at most 2 bytes, with `va = 256` it
/// holds at most 256.
pub fn get_first_packet_max_length(va: u64, pmtu: u32) -> (r: u32)
    requires
        pmtu > 0,
    ensures
        r == first_packet_max_length_spec(va, pmtu),
        0 < r <= pmtu,
{
    let offset = (va % (pmtu as u64)) as u32;
    pmtu - offset
}

/// Number of packets that a transfer of `total_len` bytes to `raddr` is split into.
pub fn calculate_packet_cnt(pmtu: Pmtu, raddr: u64, total_len: u32) -> (r: u32)
    ensures
        r == packet_count_spec(raddr, total_len, pmtu_bytes(pmtu)),
{
    let mtu = pmtu.to_u32();
    let first_pkt_max_len = get_first_packet_max_length(raddr, mtu);
    let first_pkt_len = if total_len < first_pkt_max_len {
        total_len
    } else {
        first_pkt_max_len
    };
    let rest = total_len - first_pkt_len;
    let extra = rest / mtu + if rest % mtu == 0 {
        0u32
    } else {
        1u32
    };
    proof {
        lemma_ceil_div(rest as int, mtu as int);
    }
    1 + extra
}

/// `ceil_div` agrees with the quotient plus one for a non-zero remainder.
proof fn lemma_ceil_div(a: int, b: int)
    requires
        a >= 0,
        b > 0,
    ensures
        ceil_div(a, b) == a / b + if a % b == 0 {
            0int
        } else {
            1int
        },
        ceil_div(a, b) <= a,
{
    vstd::arithmetic::div_mod::lemma_fundamental_div_mod(a, b);
    vstd::arithmetic::div_mod::lemma_fundamental_div_mod(a + b - 1, b);
    assert(ceil_div(a, b) == a / b + if a % b == 0 { 0int } else { 1int }) by (nonlinear_arith)
        requires
            a == b * (a / b) + a % b,
            a + b - 1 == b * ((a + b - 1) / b) + (a + b - 1) % b,
            0 <= a % b < b,
            0 <= (a + b - 1) % b < b,
            ceil_div(a, b) == (a + b - 1) / b,
    ;
    assert(ceil_div(a, b) <= a) by (nonlinear_arith)
        requires
            a == b * (a / b) + a % b,
            0 <= a % b < b,
            b >= 1,
            a >= 0,
            ceil_div(a, b) == a / b + if a % b == 0 { 0int } else { 1int },
    ;
}

/// Big-endian value of a byte sequence.
pub open spec fn be_value(s: Seq<u8>) -> nat
    decreases s.len(),
{
    if s.len() == 0 {
        0
    } else {
        be_value(s.drop_last()) * 256 + s.last() as nat
    }
}

/// Reads up to eight bytes as a big-endian integer.
pub fn u8_slice_to_u64(slice: &[u8]) -> (r: u64)
    requires
        slice@.len() <= 8,
    ensures
        r == be_value(slice@),
{
    let mut acc: u64 = 0;
    let mut i: usize = 0;
    while i < slice.len()
        invariant
            i <= slice@.len() <= 8,
            acc == be_value(slice@.subrange(0, i as int)),
            acc < pow256(i as nat),
        decreases slice@.len() - i,
    {
        proof {
            lemma_pow256_bound(i as nat);
            assert(slice@.subrange(0, i + 1).drop_last() =~= slice@.subrange(0, i as int));
        }
        assert(acc * 256 + slice[i as int] < pow256((i + 1) as nat)) by (nonlinear_arith)
            requires
                acc < pow256(i as nat),
                pow256((i + 1) as nat) == pow256(i as nat) * 256,
                slice[i as int] < 256,
        ;
        acc = acc * 256 + slice[i] as u64;
        i = i + 1;
    }
    assert(slice@.subrange(0, i as int) =~= slice@);
    acc
}

/// `256` to the power `n`.
pub open spec fn pow256(n: nat) -> nat
    decreases n,
{
    if n == 0 {
        1
    } else {
        pow256((n - 1) as nat) * 256
    }
}

proof fn lemma_pow256_bound(n: nat)
    requires
        n < 8,
    ensures
        pow256(n + 1) == pow256(n) * 256,
        pow256(n + 1) <= 0x1_0000_0000_0000_0000,
{
    lemma_pow256_monotonic(n + 1, 8);
    reveal_with_fuel(pow256, 9);
}

proof fn lemma_pow256_monotonic(n: nat, m: nat)
    requires
        n <= m,
    ensures
        pow256(n) <= pow256(m),
    decreases m,
{
    if n < m {
        lemma_pow256_monotonic(n, (m - 1) as nat);
    }
}

/// Rounds `addr` up to a multiple of `PAGE`.
pub fn align_up<const PAGE: usize>(addr: usize) -> (r: usize)
    requires
        PAGE > 0,
        addr + PAGE - 1 <= usize::MAX,
    ensures
        r == ceil_div(addr as int, PAGE as int) * PAGE,
        r >= addr,
        r % PAGE == 0,
        r < addr + PAGE,
{
    let sum = addr + (PAGE - 1);
    let q = sum / PAGE;
    proof {
        vstd::arithmetic::div_mod::lemma_fundamental_div_mod(sum as int, PAGE as int);
        vstd::arithmetic::div_mod::lemma_mod_multiples_basic(q as int, PAGE as int);
    }
    assert(q * PAGE <= sum && q * PAGE >= addr) by (nonlinear_arith)
        requires
            sum == PAGE * q + sum % PAGE,
            0 <= sum % PAGE < PAGE,
            sum == addr + PAGE - 1,
    ;
    q * PAGE
}

} // verus!

verus! {

/// The two bytes of `v`, most significant first.
pub fn u16_to_be(v: u16) -> (r: [u8; 2])
    ensures
        be_value(r@) == v,
{
    let b0: u16 = v >> 8u16;
    let b1: u16 = v & 0xff;
    assert(b0 < 256 && b1 < 256 && v == b0 * 256 + b1) by (bit_vector)
        requires
            b0 == v >> 8u16,
            b1 == v & 0xff,
    ;
    let r = [b0 as u8, b1 as u8];
    proof {
        reveal_with_fuel(be_value, 3);
        assert(r@.drop_last() =~= seq![r[0]]);
        assert(seq![r[0]].drop_last() =~= Seq::<u8>::empty());
    }
    r
}

/// The four bytes of `v`, most significant first.
pub fn u32_to_be(v: u32) -> (r: [u8; 4])
    ensures
        be_value(r@) == v,
{
    let b0: u32 = v >> 24u32;
    let b1: u32 = (v >> 16u32) & 0xff;
    let b2: u32 = (v >> 8u32) & 0xff;
    let b3: u32 = v & 0xff;
    assert(b0 < 256 && b1 < 256 && b2 < 256 && b3 < 256 && v == ((b0 * 256 + b1) * 256 + b2) * 256 + b3)
        by (bit_vector)
        requires
            b0 == v >> 24u32,
            b1 == (v >> 16u32) & 0xff,
            b2 == (v >> 8u32) & 0xff,
            b3 == v & 0xff,
    ;
    let r = [b0 as u8, b1 as u8, b2 as u8, b3 as u8];
    proof {
        lemma_be_value_4(r@);
    }
    r
}

/// The eight bytes of `v`, most significant first.
pub fn u64_to_be(v: u64) -> (r: [u8; 8])
    ensures
        be_value(r@) == v,
{
    let b0: u64 = v >> 56u64;
    let b1: u64 = (v >> 48u64) & 0xff;
    let b2: u64 = (v >> 40u64) & 0xff;
    let b3: u64 = (v >> 32u64) & 0xff;
    let b4: u64 = (v >> 24u64) & 0xff;
    let b5: u64 = (v >> 16u64) & 0xff;
    let b6: u64 = (v >> 8u64) & 0xff;
    let b7: u64 = v & 0xff;
    assert(b0 < 256 && b1 < 256 && b2 < 256 && b3 < 256 && b4 < 256 && b5 < 256 && b6 < 256 && b7 < 256
        && v == ((((((b0 * 256 + b1) * 256 + b2) * 256 + b3) * 256 + b4) * 256 + b5) * 256 + b6) * 256
        + b7) by (bit_vector)
        requires
            b0 == v >> 56u64,
            b1 == (v >> 48u64) & 0xff,
            b2 == (v >> 40u64) & 0xff,
            b3 == (v >> 32u64) & 0xff,
            b4 == (v >> 24u64) & 0xff,
            b5 == (v >> 16u64) & 0xff,
            b6 == (v >> 8u64) & 0xff,
            b7 == v & 0xff,
    ;
    let r = [b0 as u8, b1 as u8, b2 as u8, b3 as u8, b4 as u8, b5 as u8, b6 as u8, b7 as u8];
    proof {
        lemma_be_value_8(r@);
    }
    r
}

/// `be_value` of four bytes, written out.
pub proof fn lemma_be_value_4(s: Seq<u8>)
    requires
        s.len() == 4,
    ensures
        be_value(s) == ((s[0] * 256 + s[1]) * 256 + s[2]) * 256 + s[3],
{
    reveal_with_fuel(be_value, 5);
    assert(s.drop_last() =~= seq![s[0], s[1], s[2]]);
    assert(seq![s[0], s[1], s[2]].drop_last() =~= seq![s[0], s[1]]);
    assert(seq![s[0], s[1]].drop_last() =~= seq![s[0]]);
    assert(seq![s[0]].drop_last() =~= Seq::<u8>::empty());
}

/// `be_value` of eight bytes, written out.
pub proof fn lemma_be_value_8(s: Seq<u8>)
    requires
        s.len() == 8,
    ensures
        be_value(s) == ((((((s[0] * 256 + s[1]) * 256 + s[2]) * 256 + s[3]) * 256 + s[4]) * 256 + s[5]) * 256
            + s[6]) * 256 + s[7],
{
    let t = s.subrange(0, 4);
    lemma_be_value_4(t);
    assert(t[0] == s[0] && t[1] == s[1] && t[2] == s[2] && t[3] == s[3]);
    lemma_be_value_step(s, 4);
    lemma_be_value_step(s, 5);
    lemma_be_value_step(s, 6);
    lemma_be_value_step(s, 7);
    assert(s.subrange(0, 8) =~= s);
}

/// Appending one byte to a big-endian prefix shifts it by one byte.
pub proof fn lemma_be_value_step(s: Seq<u8>, k: int)
    requires
        0 <= k < s.len(),
    ensures
        be_value(s.subrange(0, k + 1)) == be_value(s.subrange(0, k)) * 256 + s[k],
{
    assert(s.subrange(0, k + 1).drop_last() =~= s.subrange(0, k));
}

/// The `n` bytes of `v` modulo `256^n`, most significant first.
pub open spec fn be_bytes(v: nat, n: nat) -> Seq<u8>
    decreases n,
{
    if n == 0 {
        Seq::empty()
    } else {
        be_bytes(v / 256, (n - 1) as nat).push((v % 256) as u8)
    }
}

/// Decoding the encoding of a value that fits gives the value back.
pub proof fn lemma_be_value_of_bytes(v: nat, n: nat)
    requires
        v < pow256(n),
    ensures
        be_bytes(v, n).len() == n,
        be_value(be_bytes(v, n)) == v,
    decreases n,
{
    if n > 0 {
        let q = v / 256;
        vstd::arithmetic::div_mod::lemma_fundamental_div_mod(v as int, 256);
        assert(q < pow256((n - 1) as nat)) by (nonlinear_arith)
            requires
                v < pow256((n - 1) as nat) * 256,
                v == 256 * q + v % 256,
                0 <= v % 256 < 256,
        ;
        lemma_be_value_of_bytes(q, (n - 1) as nat);
        assert(be_bytes(v, n).drop_last() =~= be_bytes(q, (n - 1) as nat));
    }
}

/// Encoding the value of a byte sequence gives the sequence back.
pub proof fn lemma_be_bytes_of_value(s: Seq<u8>)
    ensures
        be_value(s) < pow256(s.len()),
        be_bytes(be_value(s), s.len()) == s,
    decreases s.len(),
{
    if s.len() > 0 {
        let p = s.drop_last();
        lemma_be_bytes_of_value(p);
        let v = be_value(s);
        assert(v < pow256(s.len())) by (nonlinear_arith)
            requires
                v == be_value(p) * 256 + s.last(),
                be_value(p) < pow256(p.len()),
                pow256(s.len()) == pow256(p.len()) * 256,
                s.last() < 256,
        ;
        vstd::arithmetic::div_mod::lemma_fundamental_div_mod_converse(
            v as int,
            256,
            be_value(p) as int,
            s.last() as int,
        );
        assert(be_bytes(v, s.len()) =~= s);
    }
}

/// The two parts of a concatenation that equals a range of `s` are the two
/// consecutive ranges of `s`.
pub proof fn lemma_subrange_of_concat(a: Seq<u8>, b: Seq<u8>, s: Seq<u8>, lo: int)
    requires
        0 <= lo,
        lo + a.len() + b.len() <= s.len(),
        a + b == s.subrange(lo, lo + a.len() + b.len()),
    ensures
        a == s.subrange(lo, lo + a.len()),
        b == s.subrange(lo + a.len(), lo + a.len() + b.len()),
{
    assert forall|i: int| 0 <= i < a.len() implies a[i] == s[lo + i] by {
        assert((a + b)[i] == a[i]);
    }
    assert forall|i: int| 0 <= i < b.len() implies b[i] == s[lo + a.len() + i] by {
        assert((a + b)[a.len() + i] == b[i]);
    }
    assert(a =~= s.subrange(lo, lo + a.len()));
    assert(b =~= s.subrange(lo + a.len(), lo + a.len() + b.len()));
}

/// An encoding of `n` bytes has `n` bytes.
pub proof fn lemma_be_bytes_len(v: nat, n: nat)
    ensures
        be_bytes(v, n).len() == n,
    decreases n,
{
    if n > 0 {
        lemma_be_bytes_len(v / 256, (n - 1) as nat);
    }
}

/// A mapping of huge pages: its first address and its size, a whole number of
/// huge pages. The mapping itself is made and released by the caller.
#[derive(Debug)]
pub struct HugePage {
    size: usize,
    addr: usize,
}

impl HugePage {
    pub closed spec fn spec_size(&self) -> usize {
        self.size
    }

    pub closed spec fn spec_addr(&self) -> usize {
        self.addr
    }

    /// Size of the mapping that holds `size` bytes: `size` rounded up to whole
    /// huge pages; `None` when that does not fit a `usize`.
    pub fn mapping_size(size: usize) -> (r: Option<usize>)
        ensures
            size + PAGE_SIZE - 1 <= usize::MAX ==> r == Some(
                (ceil_div(size as int, PAGE_SIZE as int) * PAGE_SIZE) as usize,
            ),
            size + PAGE_SIZE - 1 > usize::MAX ==> r is None,
    {
        if size > usize::MAX - (PAGE_SIZE - 1) {
            None
        } else {
            Some(align_up::<PAGE_SIZE>(size))
        }
    }

    /// The description of the mapping of `size` bytes at `addr`.
    pub fn from_mapping(addr: usize, size: usize) -> (r: HugePage)
        ensures
            r.spec_addr() == addr,
            r.spec_size() == size,
    {
        HugePage { size, addr }
    }

    /// Address of the first byte of the mapping.
    pub fn as_ptr(&self) -> (r: usize)
        ensures
            r == self.spec_addr(),
    {
        self.addr
    }

    /// Size of the mapping in bytes.
    pub fn size(&self) -> (r: usize)
        ensures
            r == self.spec_size(),
    {
        self.size
    }
}

} // verus!
