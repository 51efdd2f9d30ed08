//! Big-endian integer primitives: spec-level byte encodings of u16
//! and u32 values, executable readers and writers proved against
//! them, and helpers that move byte runs between slices and vectors.

use vstd::prelude::*;

verus! {

broadcast use vstd::array::group_array_axioms;

/// The value of two bytes read as a big-endian 16 bit integer.
pub open spec fn be16(hi: u8, lo: u8) -> u16 {
    (hi * 256 + lo) as u16
}

/// High byte of the big-endian encoding of `v`.
pub open spec fn be16_hi(v: u16) -> u8 {
    (v / 256) as u8
}

/// Low byte of the big-endian encoding of `v`.
pub open spec fn be16_lo(v: u16) -> u8 {
    (v % 256) as u8
}

/// Big-endian byte sequence of a u16.
pub open spec fn be16_seq(v: u16) -> Seq<u8> {
    seq![be16_hi(v), be16_lo(v)]
}

/// The value of four bytes read as a big-endian 32 bit integer.
pub open spec fn be32(b0: u8, b1: u8, b2: u8, b3: u8) -> u32 {
    (b0 * 0x1000000 + b1 * 0x10000 + b2 * 256 + b3) as u32
}

/// Big-endian byte sequence of a u32.
pub open spec fn be32_seq(v: u32) -> Seq<u8> {
    seq![
        (v / 0x1000000) as u8,
        ((v / 0x10000) % 256) as u8,
        ((v / 256) % 256) as u8,
        (v % 256) as u8,
    ]
}

/// Encoding then decoding a u16 gives the value back.
pub proof fn lemma_be16_roundtrip(v: u16)
    ensures
        be16(be16_hi(v), be16_lo(v)) == v,
{
}

/// Decoding then encoding two bytes gives the bytes back.
pub proof fn lemma_be16_bytes(hi: u8, lo: u8)
    ensures
        be16_hi(be16(hi, lo)) == hi,
        be16_lo(be16(hi, lo)) == lo,
{
    assert((hi * 256 + lo) / 256 == hi as int && (hi * 256 + lo) % 256 == lo as int)
        by (nonlinear_arith);
}

/// Encoding then decoding a u32 gives the value back.
pub proof fn lemma_be32_roundtrip(v: u32)
    ensures
        be32(
            be32_seq(v)[0],
            be32_seq(v)[1],
            be32_seq(v)[2],
            be32_seq(v)[3],
        ) == v,
{
    assert((v / 0x1000000) * 0x1000000 + ((v / 0x10000) % 256) * 0x10000 + ((v / 256) % 256)
        * 256 + v % 256 == v as int) by (nonlinear_arith);
}

/// Read a big-endian u16 at `off`.
pub fn read_be16(b: &[u8], off: usize) -> (r: u16)
    requires
        off + 2 <= b@.len(),
    ensures
        r == be16(b@[off as int], b@[off + 1]),
{
    (b[off] as u16) * 256 + (b[off + 1] as u16)
}

/// Read a big-endian u32 at `off`.
pub fn read_be32(b: &[u8], off: usize) -> (r: u32)
    requires
        off + 4 <= b@.len(),
    ensures
        r == be32(b@[off as int], b@[off + 1], b@[off + 2], b@[off + 3]),
{
    (b[off] as u32) * 0x1000000 + (b[off + 1] as u32) * 0x10000 + (b[off + 2] as u32) * 256 + (b[off
        + 3] as u32)
}

/// Append the big-endian encoding of a u16.
pub fn write_be16(buf: &mut Vec<u8>, v: u16)
    ensures
        final(buf)@ == old(buf)@ + be16_seq(v),
{
    buf.push((v / 256) as u8);
    buf.push((v % 256) as u8);
    assert(buf@ =~= old(buf)@ + be16_seq(v));
}

/// Append the big-endian encoding of a u32.
pub fn write_be32(buf: &mut Vec<u8>, v: u32)
    ensures
        final(buf)@ == old(buf)@ + be32_seq(v),
{
    buf.push((v / 0x1000000) as u8);
    buf.push(((v / 0x10000) % 256) as u8);
    buf.push(((v / 256) % 256) as u8);
    buf.push((v % 256) as u8);
    assert(buf@ =~= old(buf)@ + be32_seq(v));
}

/// Append every byte of a slice.
pub fn push_slice(buf: &mut Vec<u8>, b: &[u8])
    ensures
        final(buf)@ == old(buf)@ + b@,
{
    let mut i: usize = 0;
    while i < b.len()
        invariant
            i <= b@.len(),
            buf@ == old(buf)@ + b@.subrange(0, i as int),
        decreases b@.len() - i,
    {
        buf.push(b[i]);
        assert(buf@ =~= old(buf)@ + b@.subrange(0, i + 1));
        i = i + 1;
    }
    assert(buf@ =~= old(buf)@ + b@);
}

/// Copy `len` bytes at `off` into a zero-padded fixed buffer, the
/// shape the variable-length fields use.
pub fn read_padded<const N: usize>(b: &[u8], off: usize, len: usize) -> (r: [u8; N])
    requires
        off + len <= b@.len(),
        len <= N,
    ensures
        r@.take(len as int) == b@.subrange(off as int, off + len),
        forall|i: int| len <= i < N ==> r@[i] == 0,
{
    let mut r: [u8; N] = [0; N];
    let mut i: usize = 0;
    let blen: usize = b.len();
    while i < len
        invariant
            i <= len,
            len <= N,
            blen == b@.len(),
            off + len <= blen,
            forall|j: int| 0 <= j < i ==> r@[j] == b@[off + j],
            forall|j: int| i <= j < N ==> r@[j] == 0,
        decreases len - i,
    {
        r[i] = b[off + i];
        i = i + 1;
    }
    assert(r@.take(len as int) =~= b@.subrange(off as int, off + len));
    r
}

/// Copy four bytes at `off` into an array.
pub fn read_array4(b: &[u8], off: usize) -> (r: [u8; 4])
    requires
        off + 4 <= b@.len(),
    ensures
        r@ == b@.subrange(off as int, off + 4),
{
    let r: [u8; 4] = [b[off], b[off + 1], b[off + 2], b[off + 3]];
    assert(r@ =~= b@.subrange(off as int, off + 4));
    r
}

/// Copy six bytes at `off` into an array.
pub fn read_array6(b: &[u8], off: usize) -> (r: [u8; 6])
    requires
        off + 6 <= b@.len(),
    ensures
        r@ == b@.subrange(off as int, off + 6),
{
    let r: [u8; 6] = [b[off], b[off + 1], b[off + 2], b[off + 3], b[off + 4], b[off + 5]];
    assert(r@ =~= b@.subrange(off as int, off + 6));
    r
}

/// Copy sixteen bytes at `off` into an array.
pub fn read_array16(b: &[u8], off: usize) -> (r: [u8; 16])
    requires
        off + 16 <= b@.len(),
    ensures
        r@ == b@.subrange(off as int, off + 16),
{
    let r: [u8; 16] = [
        b[off],
        b[off + 1],
        b[off + 2],
        b[off + 3],
        b[off + 4],
        b[off + 5],
        b[off + 6],
        b[off + 7],
        b[off + 8],
        b[off + 9],
        b[off + 10],
        b[off + 11],
        b[off + 12],
        b[off + 13],
        b[off + 14],
        b[off + 15],
    ];
    assert(r@ =~= b@.subrange(off as int, off + 16));
    r
}

} // verus!
