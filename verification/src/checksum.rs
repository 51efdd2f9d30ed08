//! The internet checksum: a 16 bit one's-complement sum over a byte
//! run, big-endian word by word, padding a final odd byte with a zero
//! low byte. The sum is kept folded (at most 0xFFFF) after every
//! step; the checksum is its bitwise complement.

use vstd::prelude::*;

use crate::bytes::{be16, be32_seq, be16_seq, push_slice, read_be16, write_be16, write_be32};

verus! {

broadcast use vstd::array::group_array_axioms;

/// The IPv4 pseudo-header prefixed to a transport checksum: source,
/// destination, a zero byte, the protocol, and the transport length.
pub open spec fn pseudo_header_v4(
    source: Seq<u8>,
    destination: Seq<u8>,
    protocol: u8,
    length: u16,
) -> Seq<u8> {
    source + destination + seq![0u8, protocol] + be16_seq(length)
}

/// The IPv6 pseudo-header prefixed to a transport checksum: source,
/// destination, the transport length as 32 bits, three zero bytes,
/// and the next-header value.
pub open spec fn pseudo_header_v6(
    source: Seq<u8>,
    destination: Seq<u8>,
    protocol: u8,
    length: u32,
) -> Seq<u8> {
    source + destination + be32_seq(length) + seq![0u8, 0u8, 0u8, protocol]
}

/// Build the IPv4 pseudo-header; 12 bytes.
pub fn build_pseudo_header_v4(
    source: &[u8; 4],
    destination: &[u8; 4],
    protocol: u8,
    length: u16,
) -> (r: Vec<u8>)
    ensures
        r@ == pseudo_header_v4(source@, destination@, protocol, length),
        r@.len() == 12,
{
    let mut r: Vec<u8> = Vec::new();
    push_slice(&mut r, source.as_slice());
    push_slice(&mut r, destination.as_slice());
    r.push(0);
    r.push(protocol);
    write_be16(&mut r, length);
    assert(r@ =~= pseudo_header_v4(source@, destination@, protocol, length));
    r
}

/// Build the IPv6 pseudo-header; 40 bytes.
pub fn build_pseudo_header_v6(
    source: &[u8; 16],
    destination: &[u8; 16],
    protocol: u8,
    length: u32,
) -> (r: Vec<u8>)
    ensures
        r@ == pseudo_header_v6(source@, destination@, protocol, length),
        r@.len() == 40,
{
    let mut r: Vec<u8> = Vec::new();
    push_slice(&mut r, source.as_slice());
    push_slice(&mut r, destination.as_slice());
    write_be32(&mut r, length);
    r.push(0);
    r.push(0);
    r.push(0);
    r.push(protocol);
    assert(r@ =~= pseudo_header_v6(source@, destination@, protocol, length));
    r
}

/// One's-complement addition of two folded 16 bit sums: add, then
/// fold the carry back in. The result is folded again.
pub open spec fn ones_add(a: u16, b: u16) -> u16 {
    if a + b > 0xFFFF {
        (a + b - 0xFFFF) as u16
    } else {
        (a + b) as u16
    }
}

/// One's-complement sum of a byte run folded into `acc`, two bytes
/// per word, a final odd byte padded with a zero low byte.
pub open spec fn sum16(b: Seq<u8>, acc: u16) -> u16
    decreases b.len(),
{
    if b.len() <= 0 {
        acc
    } else if b.len() == 1 {
        ones_add(acc, be16(b[0], 0))
    } else {
        sum16(b.skip(2), ones_add(acc, be16(b[0], b[1])))
    }
}

/// The checksum of a byte run: the complement of its folded
/// one's-complement sum.
pub open spec fn checksum16(b: Seq<u8>) -> u16 {
    (0xFFFF - sum16(b, 0)) as u16
}

/// One's-complement addition, executable.
pub fn ones_add_exec(a: u16, b: u16) -> (r: u16)
    ensures
        r == ones_add(a, b),
{
    let s: u32 = a as u32 + b as u32;
    if s > 0xFFFF {
        (s - 0xFFFF) as u16
    } else {
        s as u16
    }
}

/// Fold a whole slice into `acc`.
pub fn sum16_slice(b: &[u8], acc: u16) -> (r: u16)
    ensures
        r == sum16(b@, acc),
{
    let mut i: usize = 0;
    let mut sum: u16 = acc;
    proof {
        assert(b@.skip(0) =~= b@);
    }
    while i + 1 < b.len()
        invariant
            i <= b@.len(),
            i % 2 == 0,
            sum16(b@, acc) == sum16(b@.skip(i as int), sum),
        decreases b@.len() - i,
    {
        let w = read_be16(b, i);
        proof {
            assert(b@.skip(i as int).skip(2) =~= b@.skip(i + 2));
            assert(b@.skip(i as int)[0] == b@[i as int]);
            assert(b@.skip(i as int)[1] == b@[i + 1]);
        }
        sum = ones_add_exec(sum, w);
        i = i + 2;
    }
    if i < b.len() {
        proof {
            assert(b@.skip(i as int).len() == 1);
            assert(b@.skip(i as int)[0] == b@[i as int]);
        }
        sum = ones_add_exec(sum, (b[i] as u16) * 256);
    } else {
        proof {
            assert(b@.skip(i as int).len() == 0);
        }
    }
    sum
}

/// The final complement; a sum of `s` gives the checksum `!s`.
pub fn checksum_finalize(s: u16) -> (r: u16)
    ensures
        r == (0xFFFF - s) as u16,
{
    0xFFFF - s
}

/// Feeding a run that is the concatenation of an even-length run and
/// a second run equals feeding the two runs one after the other.
pub proof fn lemma_sum16_append(a: Seq<u8>, b: Seq<u8>, acc: u16)
    requires
        a.len() % 2 == 0,
    ensures
        sum16(a + b, acc) == sum16(b, sum16(a, acc)),
    decreases a.len(),
{
    if a.len() == 0 {
        assert(a + b =~= b);
    } else {
        let acc2 = ones_add(acc, be16(a[0], a[1]));
        assert((a + b).skip(2) =~= a.skip(2) + b);
        assert((a + b)[0] == a[0] && (a + b)[1] == a[1]);
        lemma_sum16_append(a.skip(2), b, acc2);
    }
}

/// One's-complement addition is commutative.
pub proof fn lemma_ones_add_comm(a: u16, b: u16)
    ensures
        ones_add(a, b) == ones_add(b, a),
{
}

/// One's-complement addition is associative.
pub proof fn lemma_ones_add_assoc(a: u16, b: u16, c: u16)
    ensures
        ones_add(ones_add(a, b), c) == ones_add(a, ones_add(b, c)),
{
}

/// A word folded into the accumulator before a run can instead be
/// one's-complement added to the sum of the run.
pub proof fn lemma_sum16_acc_pull(b: Seq<u8>, acc: u16, w: u16)
    ensures
        sum16(b, ones_add(acc, w)) == ones_add(w, sum16(b, acc)),
    decreases b.len(),
{
    if b.len() == 0 {
        lemma_ones_add_comm(acc, w);
    } else if b.len() == 1 {
        let x = be16(b[0], 0);
        lemma_ones_add_assoc(acc, w, x);
        lemma_ones_add_comm(w, x);
        lemma_ones_add_assoc(acc, x, w);
        lemma_ones_add_comm(ones_add(acc, x), w);
    } else {
        let x = be16(b[0], b[1]);
        lemma_ones_add_assoc(acc, w, x);
        lemma_ones_add_comm(w, x);
        lemma_ones_add_assoc(acc, x, w);
        lemma_sum16_acc_pull(b.skip(2), ones_add(acc, x), w);
    }
}

/// Replacing two zero bytes at an even position by the encoding of a
/// word `t` one's-complement adds `t` to the sum of the run.
pub proof fn lemma_sum16_patch(a: Seq<u8>, b: Seq<u8>, t: u16)
    requires
        a.len() % 2 == 0,
    ensures
        sum16(a + crate::bytes::be16_seq(t) + b, 0) == ones_add(
            t,
            sum16(a + seq![0u8, 0u8] + b, 0),
        ),
{
    let sa = sum16(a, 0);
    let w = crate::bytes::be16_seq(t);
    let z = seq![0u8, 0u8];
    assert(a + w + b =~= a + (w + b));
    assert(a + z + b =~= a + (z + b));
    lemma_sum16_append(a, w + b, 0);
    lemma_sum16_append(a, z + b, 0);
    assert((w + b).skip(2) =~= b);
    assert((z + b).skip(2) =~= b);
    assert((w + b)[0] == crate::bytes::be16_hi(t) && (w + b)[1] == crate::bytes::be16_lo(t));
    crate::bytes::lemma_be16_roundtrip(t);
    assert(sum16(w + b, sa) == sum16(b, ones_add(sa, t)));
    assert(be16(0, 0) == 0);
    assert(sum16(z + b, sa) == sum16(b, ones_add(sa, 0)));
    assert(ones_add(sa, 0) == sa);
    lemma_sum16_acc_pull(b, sa, t);
}

/// Writing the complement of a run's sum into a zeroed two byte field
/// of the run makes the run sum to 0xFFFF: recomputing the checksum
/// over it yields zero. The field may also hold 0xFFFF where the
/// complement came out zero, as UDP asks; the sum is 0xFFFF either
/// way.
pub proof fn lemma_checksum_verifies(a: Seq<u8>, b: Seq<u8>, t: u16)
    requires
        a.len() % 2 == 0,
        t == checksum16(a + seq![0u8, 0u8] + b) || (t == 0xFFFF && checksum16(
            a + seq![0u8, 0u8] + b,
        ) == 0),
    ensures
        sum16(a + crate::bytes::be16_seq(t) + b, 0) == 0xFFFF,
        checksum16(a + crate::bytes::be16_seq(t) + b) == 0,
{
    let s = sum16(a + seq![0u8, 0u8] + b, 0);
    lemma_sum16_patch(a, b, t);
}

} // verus!
