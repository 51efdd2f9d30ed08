//! IPsec authentication header (AH): carried as an IPv4 extension
//! when the protocol is 51 and as an IPv6 extension header.

use vstd::prelude::*;

use crate::bytes::{
    be32, be32_seq, lemma_be32_roundtrip, push_slice, read_be32, read_padded, write_be32,
};
use crate::err::{ReadError, ValueError};
use vstd::slice::slice_subrange;

verus! {

broadcast use vstd::array::group_array_axioms;

/// The largest integrity check value the 8 bit length field leaves
/// room for: (0xFF - 1) * 4 bytes.
pub const MAX_ICV_LEN: usize = 1016;

/// IP authentication header: next header, security parameters index,
/// sequence number, and a variable integrity check value. Its length
/// field counts 4 byte units minus two; the header is 12 bytes plus
/// the ICV.
#[derive(Clone, Copy, Debug, PartialEq, Eq)]
pub struct IpAuthenticationHeader {
    pub next_header: u8,
    pub spi: u32,
    pub sequence_number: u32,
    /// Integrity check value bytes; only the first `raw_icv_len`
    /// count, the rest is zero padding.
    pub raw_icv_buf: [u8; 1016],
    /// Length of the ICV in bytes: at most 1016, a multiple of 4.
    pub raw_icv_len: u16,
}

impl IpAuthenticationHeader {
    /// The integrity check value bytes.
    pub open spec fn spec_raw_icv(self) -> Seq<u8> {
        self.raw_icv_buf@.take(self.raw_icv_len as int)
    }

    /// ICV length in range with zero padding.
    pub open spec fn wf(self) -> bool {
        &&& self.raw_icv_len <= 1016
        &&& self.raw_icv_len % 4 == 0
        &&& (forall|i: int| self.raw_icv_len <= i < 1016 ==> self.raw_icv_buf@[i] == 0)
    }

    /// Header length on the wire: 12 bytes plus the ICV.
    pub open spec fn spec_header_len(self) -> int {
        12 + self.raw_icv_len
    }

    /// Wire encoding: next header, length field, two reserved zero
    /// bytes, SPI, sequence number, ICV.
    pub open spec fn spec_bytes(self) -> Seq<u8> {
        seq![self.next_header, (1 + self.raw_icv_len / 4) as u8, 0u8, 0u8]
            + be32_seq(self.spi) + be32_seq(self.sequence_number) + self.spec_raw_icv()
    }

    /// True when this header is what the start of `b` decodes to.
    pub open spec fn spec_matches(self, b: Seq<u8>) -> bool {
        &&& b.len() >= 12
        &&& b[1] >= 1
        &&& b.len() >= (b[1] + 2) * 4
        &&& self.next_header == b[0]
        &&& self.raw_icv_len == (b[1] - 1) * 4
        &&& self.spi == be32(b[4], b[5], b[6], b[7])
        &&& self.sequence_number == be32(b[8], b[9], b[10], b[11])
        &&& self.spec_raw_icv() == b.subrange(12, (b[1] + 2) * 4)
        &&& (forall|i: int| self.raw_icv_len <= i < 1016 ==> self.raw_icv_buf@[i] == 0)
    }

    /// A header from its parts. Fails when the ICV is longer than
    /// 1016 bytes or not a multiple of 4.
    pub fn new(next_header: u8, spi: u32, sequence_number: u32, raw_icv: &[u8]) -> (r: Result<
        IpAuthenticationHeader,
        ValueError,
    >)
        ensures
            match r {
                Ok(h) => raw_icv@.len() <= 1016 && raw_icv@.len() % 4 == 0 && h.next_header
                    == next_header && h.spi == spi && h.sequence_number == sequence_number
                    && h.raw_icv_len == raw_icv@.len() && h.spec_raw_icv() == raw_icv@ && h.wf(),
                Err(e) => (raw_icv@.len() > 1016 || raw_icv@.len() % 4 != 0) && e
                    == ValueError::IpAuthenticationHeaderIcvTooBig(raw_icv@.len() as usize),
            },
    {
        if raw_icv.len() > MAX_ICV_LEN || raw_icv.len() % 4 != 0 {
            return Err(ValueError::IpAuthenticationHeaderIcvTooBig(raw_icv.len()));
        }
        let h = IpAuthenticationHeader {
            next_header,
            spi,
            sequence_number,
            raw_icv_buf: read_padded(raw_icv, 0, raw_icv.len()),
            raw_icv_len: raw_icv.len() as u16,
        };
        assert(h.spec_raw_icv() =~= raw_icv@);
        Ok(h)
    }

    /// The integrity check value bytes.
    pub fn raw_icv<'a>(&'a self) -> (r: &'a [u8])
        requires
            self.raw_icv_len <= 1016,
        ensures
            r@ == self.spec_raw_icv(),
    {
        let r = slice_subrange(self.raw_icv_buf.as_slice(), 0, self.raw_icv_len as usize);
        assert(r@ =~= self.spec_raw_icv());
        r
    }

    /// Number of bytes this header takes on the wire.
    pub fn header_len(&self) -> (r: usize)
        requires
            self.raw_icv_len <= 1016,
        ensures
            r == self.spec_header_len(),
            self.wf() ==> r == self.spec_bytes().len(),
    {
        12 + self.raw_icv_len as usize
    }

    /// Decode a header from the start of `slice`; the second value of
    /// the pair is the rest of the slice.
    pub fn from_slice<'a>(slice: &'a [u8]) -> (r: Result<
        (IpAuthenticationHeader, &'a [u8]),
        ReadError,
    >)
        ensures
            match r {
                Ok((h, rest)) => h.spec_matches(slice@) && rest@ == slice@.skip(
                    (slice@[1] + 2) * 4,
                ),
                Err(e) => match e {
                    ReadError::UnexpectedEndOfSlice(n) => slice@.len() < n && (n == 12 || (
                    slice@.len() >= 12 && slice@[1] >= 1 && n == (slice@[1] + 2) * 4)),
                    ReadError::IpAuthenticationHeaderTooSmall(l) => slice@.len() >= 12 && l
                        == slice@[1] && l < 1,
                    _ => false,
                },
            },
    {
        if slice.len() < 12 {
            return Err(ReadError::UnexpectedEndOfSlice(12));
        }
        let len_field = slice[1];
        if len_field < 1 {
            return Err(ReadError::IpAuthenticationHeaderTooSmall(len_field));
        }
        let total: usize = (len_field as usize + 2) * 4;
        if slice.len() < total {
            return Err(ReadError::UnexpectedEndOfSlice(total));
        }
        let h = IpAuthenticationHeader {
            next_header: slice[0],
            spi: read_be32(slice, 4),
            sequence_number: read_be32(slice, 8),
            raw_icv_buf: read_padded(slice, 12, total - 12),
            raw_icv_len: (total - 12) as u16,
        };
        let rest = slice_subrange(slice, total, slice.len());
        assert(rest@ =~= slice@.skip((slice@[1] + 2) * 4));
        assert(h.spec_raw_icv() =~= slice@.subrange(12, (slice@[1] + 2) * 4));
        Ok((h, rest))
    }

    /// Append the wire encoding to `buf`.
    pub fn write(&self, buf: &mut Vec<u8>)
        requires
            self.wf(),
        ensures
            final(buf)@ == old(buf)@ + self.spec_bytes(),
    {
        buf.push(self.next_header);
        buf.push(1 + (self.raw_icv_len / 4) as u8);
        buf.push(0);
        buf.push(0);
        write_be32(buf, self.spi);
        write_be32(buf, self.sequence_number);
        let icv = slice_subrange(self.raw_icv_buf.as_slice(), 0, self.raw_icv_len as usize);
        assert(icv@ =~= self.spec_raw_icv());
        push_slice(buf, icv);
        assert(buf@ =~= old(buf)@ + self.spec_bytes());
    }

    /// A buffer decodes to at most one header.
    pub proof fn lemma_matches_unique(
        h1: IpAuthenticationHeader,
        h2: IpAuthenticationHeader,
        b: Seq<u8>,
    )
        requires
            h1.spec_matches(b),
            h2.spec_matches(b),
        ensures
            h1 == h2,
    {
        assert(h1.spec_raw_icv() =~= h2.spec_raw_icv());
        assert forall|i: int| 0 <= i < 1016 implies h1.raw_icv_buf@[i] == h2.raw_icv_buf@[i] by {
            if i < h1.raw_icv_len {
                assert(h1.spec_raw_icv()[i] == h2.spec_raw_icv()[i]);
            }
        }
        assert(h1.raw_icv_buf =~= h2.raw_icv_buf);
    }

    /// Decoding the encoding of a header gives the header back.
    pub proof fn lemma_roundtrip(
        h: IpAuthenticationHeader,
        h2: IpAuthenticationHeader,
        tail: Seq<u8>,
    )
        requires
            h.wf(),
            h2.spec_matches(h.spec_bytes() + tail),
        ensures
            h2 == h,
    {
        let b = h.spec_bytes() + tail;
        let il = h.raw_icv_len;
        assert(b[1] == (1 + il / 4) as u8);
        assert(((1 + il / 4) - 1) * 4 == il as int) by (nonlinear_arith)
            requires
                il <= 1016 && il % 4 == 0,
        ;
        assert((b[1] + 2) * 4 == 12 + il);
        assert(b[4] == be32_seq(h.spi)[0] && b[5] == be32_seq(h.spi)[1] && b[6] == be32_seq(
            h.spi,
        )[2] && b[7] == be32_seq(h.spi)[3]);
        lemma_be32_roundtrip(h.spi);
        assert(b[8] == be32_seq(h.sequence_number)[0] && b[9] == be32_seq(h.sequence_number)[1]
            && b[10] == be32_seq(h.sequence_number)[2] && b[11] == be32_seq(
            h.sequence_number,
        )[3]);
        lemma_be32_roundtrip(h.sequence_number);
        assert(h2.spec_raw_icv() =~= h.spec_raw_icv());
        assert forall|i: int| 0 <= i < 1016 implies h2.raw_icv_buf@[i] == h.raw_icv_buf@[i] by {
            if i < il {
                assert(h2.spec_raw_icv()[i] == h.spec_raw_icv()[i]);
            }
        }
        assert(h2.raw_icv_buf =~= h.raw_icv_buf);
    }
}

} // verus!
