//! IPv6 base header: 40 bytes, fixed layout.

use vstd::prelude::*;

use crate::bytes::{
    be16, be16_hi, be16_lo, be16_seq, lemma_be16_bytes, push_slice, read_array16, read_be16,
    write_be16,
};
use crate::err::ReadError;
use vstd::slice::slice_subrange;

verus! {

broadcast use vstd::array::group_array_axioms;

/// IPv6 base header. The version field is always 6 and is not
/// stored.
#[derive(Clone, Copy, Debug, PartialEq, Eq)]
pub struct Ipv6Header {
    pub traffic_class: u8,
    /// Flow label, 20 bits.
    pub flow_label: u32,
    /// Length of everything after the base header: extensions,
    /// transport header and payload.
    pub payload_length: u16,
    pub next_header: u8,
    pub hop_limit: u8,
    pub source: [u8; 16],
    pub destination: [u8; 16],
}

impl Ipv6Header {
    /// Number of bytes this header takes on the wire.
    pub const SERIALIZED_SIZE: usize = 40;

    /// Field ranges that fit the packed first word.
    pub open spec fn wf(self) -> bool {
        self.flow_label < 0x100000
    }

    /// Wire encoding of the header.
    pub open spec fn spec_bytes(self) -> Seq<u8> {
        seq![
            (0x60 + self.traffic_class / 16) as u8,
            ((self.traffic_class % 16) * 16 + self.flow_label / 0x10000) as u8,
            ((self.flow_label / 256) % 256) as u8,
            (self.flow_label % 256) as u8,
        ] + be16_seq(self.payload_length) + seq![self.next_header, self.hop_limit]
            + self.source@ + self.destination@
    }

    /// True when this header is what the first 40 bytes of `b` decode
    /// to.
    pub open spec fn spec_matches(self, b: Seq<u8>) -> bool {
        &&& b.len() >= 40
        &&& b[0] / 16 == 6
        &&& self.traffic_class == (b[0] % 16) * 16 + b[1] / 16
        &&& self.flow_label == (b[1] % 16) * 0x10000 + b[2] * 256 + b[3]
        &&& self.payload_length == be16(b[4], b[5])
        &&& self.next_header == b[6]
        &&& self.hop_limit == b[7]
        &&& self.source@ == b.subrange(8, 24)
        &&& self.destination@ == b.subrange(24, 40)
    }

    /// Every decoded header satisfies the field ranges.
    pub proof fn lemma_matches_wf(self, b: Seq<u8>)
        requires
            self.spec_matches(b),
        ensures
            self.wf(),
    {
    }

    /// Decode a header from the start of `slice`; the second value of
    /// the pair is the rest of the slice.
    pub fn from_slice<'a>(slice: &'a [u8]) -> (r: Result<(Ipv6Header, &'a [u8]), ReadError>)
        ensures
            match r {
                Ok((h, rest)) => h.spec_matches(slice@) && rest@ == slice@.skip(40),
                Err(e) => match e {
                    ReadError::UnexpectedEndOfSlice(n) => n == 40 && slice@.len() < 40,
                    ReadError::Ipv6UnexpectedVersion(v) => slice@.len() >= 40 && v == slice@[0]
                        / 16 && v != 6,
                    _ => false,
                },
            },
    {
        if slice.len() < 40 {
            return Err(ReadError::UnexpectedEndOfSlice(40));
        }
        let version = slice[0] / 16;
        if version != 6 {
            return Err(ReadError::Ipv6UnexpectedVersion(version));
        }
        let traffic_class = (slice[0] % 16) * 16 + slice[1] / 16;
        let flow_label = ((slice[1] % 16) as u32) * 0x10000 + (slice[2] as u32) * 256 + (
        slice[3] as u32);
        let payload_length = read_be16(slice, 4);
        let next_header = slice[6];
        let hop_limit = slice[7];
        let source = read_array16(slice, 8);
        let destination = read_array16(slice, 24);
        let rest = slice_subrange(slice, 40, slice.len());
        assert(rest@ =~= slice@.skip(40));
        Ok(
            (
                Ipv6Header {
                    traffic_class,
                    flow_label,
                    payload_length,
                    next_header,
                    hop_limit,
                    source,
                    destination,
                },
                rest,
            ),
        )
    }

    /// Append the wire encoding to `buf`.
    pub fn write(&self, buf: &mut Vec<u8>)
        requires
            self.wf(),
        ensures
            final(buf)@ == old(buf)@ + self.spec_bytes(),
    {
        buf.push(0x60 + self.traffic_class / 16);
        buf.push((self.traffic_class % 16) * 16 + (self.flow_label / 0x10000) as u8);
        buf.push(((self.flow_label / 256) % 256) as u8);
        buf.push((self.flow_label % 256) as u8);
        write_be16(buf, self.payload_length);
        buf.push(self.next_header);
        buf.push(self.hop_limit);
        push_slice(buf, self.source.as_slice());
        push_slice(buf, self.destination.as_slice());
        assert(buf@ =~= old(buf)@ + self.spec_bytes());
    }

    /// Number of bytes this header takes on the wire.
    pub fn header_len(&self) -> (r: usize)
        ensures
            r == 40,
            self.wf() ==> r == self.spec_bytes().len(),
    {
        40
    }

    /// A header decodes from its own encoding, whatever follows it.
    pub proof fn lemma_matches_own_bytes(h: Ipv6Header, tail: Seq<u8>)
        requires
            h.wf(),
        ensures
            h.spec_matches(h.spec_bytes() + tail),
    {
        let b = h.spec_bytes() + tail;
        let tc = h.traffic_class;
        let fl = h.flow_label;
        assert(b[0] == (0x60 + tc / 16) as u8);
        assert(b[1] == ((tc % 16) * 16 + fl / 0x10000) as u8);
        assert(b[2] == ((fl / 256) % 256) as u8);
        assert(b[3] == (fl % 256) as u8);
        assert((0x60 + tc / 16) / 16 == 6) by (nonlinear_arith);
        assert(((0x60 + tc / 16) % 16) * 16 + ((tc % 16) * 16 + fl / 0x10000) / 16 == tc as int)
            by (nonlinear_arith)
            requires
                fl < 0x100000,
        ;
        assert((((tc % 16) * 16 + fl / 0x10000) % 16) * 0x10000 + ((fl / 256) % 256) * 256 + fl
            % 256 == fl as int) by (nonlinear_arith)
            requires
                fl < 0x100000,
        ;
        assert(b[4] == be16_hi(h.payload_length) && b[5] == be16_lo(h.payload_length));
        crate::bytes::lemma_be16_roundtrip(h.payload_length);
        assert(h.source@ =~= b.subrange(8, 24));
        assert(h.destination@ =~= b.subrange(24, 40));
    }

    /// A buffer decodes to at most one header.
    pub proof fn lemma_matches_unique(h1: Ipv6Header, h2: Ipv6Header, b: Seq<u8>)
        requires
            h1.spec_matches(b),
            h2.spec_matches(b),
        ensures
            h1 == h2,
    {
        assert(h1.source@ =~= h2.source@);
        assert(h1.destination@ =~= h2.destination@);
        assert(h1.source =~= h2.source);
        assert(h1.destination =~= h2.destination);
    }

    /// Decoding the encoding of a header gives the header back.
    pub proof fn lemma_roundtrip(h: Ipv6Header, h2: Ipv6Header, tail: Seq<u8>)
        requires
            h.wf(),
            h2.spec_matches(h.spec_bytes() + tail),
        ensures
            h2 == h,
    {
        let b = h.spec_bytes() + tail;
        let tc = h.traffic_class;
        let fl = h.flow_label;
        assert(b[0] == (0x60 + tc / 16) as u8);
        assert(b[1] == ((tc % 16) * 16 + fl / 0x10000) as u8);
        assert(b[2] == ((fl / 256) % 256) as u8);
        assert(b[3] == (fl % 256) as u8);
        assert(((0x60 + tc / 16) % 16) * 16 + ((tc % 16) * 16 + fl / 0x10000) / 16 == tc as int)
            by (nonlinear_arith)
            requires
                fl < 0x100000,
        ;
        assert((((tc % 16) * 16 + fl / 0x10000) % 16) * 0x10000 + ((fl / 256) % 256) * 256 + fl
            % 256 == fl as int) by (nonlinear_arith)
            requires
                fl < 0x100000,
        ;
        assert(b[4] == be16_hi(h.payload_length) && b[5] == be16_lo(h.payload_length));
        lemma_be16_bytes(be16_hi(h.payload_length), be16_lo(h.payload_length));
        assert(h2.source@ =~= h.source@);
        assert(h2.destination@ =~= h.destination@);
        assert(h2.source =~= h.source);
        assert(h2.destination =~= h.destination);
    }
}

} // verus!
