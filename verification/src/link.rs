//! Link layer: Ethernet II and IEEE 802.1Q VLAN tagging, single and
//! double.

use vstd::prelude::*;

use crate::bytes::{
    be16, be16_hi, be16_lo, be16_seq, push_slice, read_array6, read_be16, write_be16,
    lemma_be16_bytes,
};
use crate::err::ReadError;
use crate::ether_type;
use vstd::slice::slice_subrange;

verus! {

broadcast use vstd::array::group_array_axioms;

/// Ethernet II header: destination, source, ether-type; 14 bytes on
/// the wire, destination first.
#[derive(Clone, Copy, Debug, PartialEq, Eq)]
pub struct Ethernet2Header {
    pub source: [u8; 6],
    pub destination: [u8; 6],
    pub ether_type: u16,
}

impl Ethernet2Header {
    /// Number of bytes this header takes on the wire.
    pub const SERIALIZED_SIZE: usize = 14;

    /// Wire encoding of the header.
    pub open spec fn spec_bytes(self) -> Seq<u8> {
        self.destination@ + self.source@ + be16_seq(self.ether_type)
    }

    /// True when this header is what the first 14 bytes of `b` decode
    /// to.
    pub open spec fn spec_matches(self, b: Seq<u8>) -> bool {
        &&& b.len() >= 14
        &&& self.destination@ == b.subrange(0, 6)
        &&& self.source@ == b.subrange(6, 12)
        &&& self.ether_type == be16(b[12], b[13])
    }

    /// Decode a header from the start of `slice`; the second value of
    /// the pair is the rest of the slice.
    pub fn from_slice<'a>(slice: &'a [u8]) -> (r: Result<(Ethernet2Header, &'a [u8]), ReadError>)
        ensures
            match r {
                Ok((h, rest)) => h.spec_matches(slice@) && rest@ == slice@.skip(14),
                Err(e) => slice@.len() < 14 && e == ReadError::UnexpectedEndOfSlice(14),
            },
    {
        if slice.len() < 14 {
            return Err(ReadError::UnexpectedEndOfSlice(14));
        }
        let destination = read_array6(slice, 0);
        let source = read_array6(slice, 6);
        let ether_type = read_be16(slice, 12);
        let rest = slice_subrange(slice, 14, slice.len());
        assert(rest@ =~= slice@.skip(14));
        Ok((Ethernet2Header { source, destination, ether_type }, rest))
    }

    /// Append the wire encoding to `buf`.
    pub fn write(&self, buf: &mut Vec<u8>)
        ensures
            final(buf)@ == old(buf)@ + self.spec_bytes(),
    {
        push_slice(buf, self.destination.as_slice());
        push_slice(buf, self.source.as_slice());
        write_be16(buf, self.ether_type);
        assert(buf@ =~= old(buf)@ + self.spec_bytes());
    }

    /// Number of bytes this header takes on the wire.
    pub fn header_len(&self) -> (r: usize)
        ensures
            r == self.spec_bytes().len(),
    {
        14
    }

    /// A header decodes from its own encoding, whatever follows it.
    pub proof fn lemma_matches_own_bytes(h: Ethernet2Header, tail: Seq<u8>)
        ensures
            h.spec_matches(h.spec_bytes() + tail),
    {
        let b = h.spec_bytes() + tail;
        assert(h.destination@ =~= b.subrange(0, 6));
        assert(h.source@ =~= b.subrange(6, 12));
        assert(b[12] == be16_hi(h.ether_type) && b[13] == be16_lo(h.ether_type));
        crate::bytes::lemma_be16_roundtrip(h.ether_type);
    }

    /// A buffer decodes to at most one header: two headers that both
    /// match the same bytes are equal.
    pub proof fn lemma_matches_unique(h1: Ethernet2Header, h2: Ethernet2Header, b: Seq<u8>)
        requires
            h1.spec_matches(b),
            h2.spec_matches(b),
        ensures
            h1 == h2,
    {
        assert(h1.destination@ =~= h2.destination@);
        assert(h1.source@ =~= h2.source@);
        assert(h1.destination =~= h2.destination);
        assert(h1.source =~= h2.source);
    }

    /// Decoding the encoding of a header gives the header back: if
    /// `h2` is what a buffer starting with the bytes of `h` decodes
    /// to, then `h2` is `h`.
    pub proof fn lemma_roundtrip(h: Ethernet2Header, h2: Ethernet2Header, tail: Seq<u8>)
        requires
            h2.spec_matches(h.spec_bytes() + tail),
        ensures
            h2 == h,
    {
        let b = h.spec_bytes() + tail;
        assert(h2.destination@ =~= h.destination@);
        assert(h2.source@ =~= h.source@);
        assert(h2.destination =~= h.destination);
        assert(h2.source =~= h.source);
        assert(b[12] == be16_hi(h.ether_type) && b[13] == be16_lo(h.ether_type));
        lemma_be16_bytes(be16_hi(h.ether_type), be16_lo(h.ether_type));
    }
}

/// A single IEEE 802.1Q VLAN tag: 2 bytes of tag control information
/// (priority, drop eligible, identifier) and the ether-type of what
/// follows; 4 bytes on the wire.
#[derive(Clone, Copy, Debug, PartialEq, Eq)]
pub struct SingleVlanHeader {
    /// Priority code point, 3 bits.
    pub priority_code_point: u8,
    /// Drop eligible indicator, 1 bit.
    pub drop_eligible_indicator: bool,
    /// VLAN identifier, 12 bits.
    pub vlan_identifier: u16,
    /// Ether-type of the layer that follows the tag.
    pub ether_type: u16,
}

impl SingleVlanHeader {
    /// Number of bytes this header takes on the wire.
    pub const SERIALIZED_SIZE: usize = 4;

    /// Field ranges that fit the packed tag control word.
    pub open spec fn wf(self) -> bool {
        self.priority_code_point < 8 && self.vlan_identifier < 0x1000
    }

    /// Wire encoding of the header.
    pub open spec fn spec_bytes(self) -> Seq<u8> {
        seq![
            (self.priority_code_point * 32 + (if self.drop_eligible_indicator {
                16u8
            } else {
                0u8
            }) + self.vlan_identifier / 256) as u8,
            (self.vlan_identifier % 256) as u8,
        ] + be16_seq(self.ether_type)
    }

    /// True when this header is what the first 4 bytes of `b` decode
    /// to.
    pub open spec fn spec_matches(self, b: Seq<u8>) -> bool {
        &&& b.len() >= 4
        &&& self.priority_code_point == b[0] / 32
        &&& self.drop_eligible_indicator == ((b[0] / 16) % 2 == 1)
        &&& self.vlan_identifier == (b[0] % 16) * 256 + b[1]
        &&& self.ether_type == be16(b[2], b[3])
    }

    /// Every decoded header satisfies the field ranges.
    pub proof fn lemma_matches_wf(self, b: Seq<u8>)
        requires
            self.spec_matches(b),
        ensures
            self.wf(),
    {
    }

    /// Decode a header from the start of `slice`; the second value of
    /// the pair is the rest of the slice.
    pub fn from_slice<'a>(slice: &'a [u8]) -> (r: Result<(SingleVlanHeader, &'a [u8]), ReadError>)
        ensures
            match r {
                Ok((h, rest)) => h.spec_matches(slice@) && rest@ == slice@.skip(4),
                Err(e) => slice@.len() < 4 && e == ReadError::UnexpectedEndOfSlice(4),
            },
    {
        if slice.len() < 4 {
            return Err(ReadError::UnexpectedEndOfSlice(4));
        }
        let b0 = slice[0];
        let b1 = slice[1];
        let priority_code_point = b0 / 32;
        let drop_eligible_indicator = (b0 / 16) % 2 == 1;
        let vlan_identifier = ((b0 % 16) as u16) * 256 + (b1 as u16);
        let ether_type = read_be16(slice, 2);
        let rest = slice_subrange(slice, 4, slice.len());
        assert(rest@ =~= slice@.skip(4));
        Ok(
            (
                SingleVlanHeader {
                    priority_code_point,
                    drop_eligible_indicator,
                    vlan_identifier,
                    ether_type,
                },
                rest,
            ),
        )
    }

    /// Append the wire encoding to `buf`.
    pub fn write(&self, buf: &mut Vec<u8>)
        requires
            self.wf(),
        ensures
            final(buf)@ == old(buf)@ + self.spec_bytes(),
    {
        let dei: u8 = if self.drop_eligible_indicator {
            16
        } else {
            0
        };
        buf.push(self.priority_code_point * 32 + dei + (self.vlan_identifier / 256) as u8);
        buf.push((self.vlan_identifier % 256) as u8);
        write_be16(buf, self.ether_type);
        assert(buf@ =~= old(buf)@ + self.spec_bytes());
    }

    /// Number of bytes this header takes on the wire.
    pub fn header_len(&self) -> (r: usize)
        requires
            self.wf(),
        ensures
            r == self.spec_bytes().len(),
    {
        4
    }

    /// A buffer decodes to at most one header.
    pub proof fn lemma_matches_unique(h1: SingleVlanHeader, h2: SingleVlanHeader, b: Seq<u8>)
        requires
            h1.spec_matches(b),
            h2.spec_matches(b),
        ensures
            h1 == h2,
    {
    }

    /// Decoding the encoding of a header gives the header back.
    pub proof fn lemma_roundtrip(h: SingleVlanHeader, h2: SingleVlanHeader, tail: Seq<u8>)
        requires
            h.wf(),
            h2.spec_matches(h.spec_bytes() + tail),
        ensures
            h2 == h,
    {
        let b = h.spec_bytes() + tail;
        let dei: u8 = if h.drop_eligible_indicator {
            16u8
        } else {
            0u8
        };
        let pcp = h.priority_code_point;
        let vid = h.vlan_identifier;
        assert(b[0] == (pcp * 32 + dei + vid / 256) as u8);
        assert(b[1] == (vid % 256) as u8);
        assert(pcp < 8 && dei <= 16 && vid < 0x1000);
        assert((pcp * 32 + dei + vid / 256) / 32 == pcp as int) by (nonlinear_arith)
            requires
                pcp < 8,
                dei == 0 || dei == 16,
                vid < 0x1000,
        ;
        assert(((pcp * 32 + dei + vid / 256) / 16) % 2 == dei as int / 16) by (nonlinear_arith)
            requires
                pcp < 8,
                dei == 0 || dei == 16,
                vid < 0x1000,
        ;
        assert((pcp * 32 + dei + vid / 256) % 16 == vid as int / 256) by (nonlinear_arith)
            requires
                pcp < 8,
                dei == 0 || dei == 16,
                vid < 0x1000,
        ;
        assert((vid / 256) * 256 + vid % 256 == vid as int);
        assert(b[2] == be16_hi(h.ether_type) && b[3] == be16_lo(h.ether_type));
        lemma_be16_bytes(be16_hi(h.ether_type), be16_lo(h.ether_type));
    }
}

/// A double VLAN tag: the outer tag carries one of the recognized
/// tagging ether-types, the inner tag describes the payload.
#[derive(Clone, Copy, Debug, PartialEq, Eq)]
pub struct DoubleVlanHeader {
    pub outer: SingleVlanHeader,
    pub inner: SingleVlanHeader,
}

impl DoubleVlanHeader {
    /// Number of bytes this header takes on the wire.
    pub const SERIALIZED_SIZE: usize = 8;

    /// Both tags in range, and the outer ether-type one under which a
    /// second tag follows.
    pub open spec fn wf(self) -> bool {
        &&& self.outer.wf()
        &&& self.inner.wf()
        &&& ether_type::spec_is_vlan_ether_type(self.outer.ether_type)
    }

    /// Wire encoding of the header.
    pub open spec fn spec_bytes(self) -> Seq<u8> {
        self.outer.spec_bytes() + self.inner.spec_bytes()
    }

    /// True when this header is what the first 8 bytes of `b` decode
    /// to.
    pub open spec fn spec_matches(self, b: Seq<u8>) -> bool {
        &&& b.len() >= 8
        &&& self.outer.spec_matches(b)
        &&& self.inner.spec_matches(b.skip(4))
    }

    /// Decode a header from the start of `slice`; the second value of
    /// the pair is the rest of the slice. The outer ether-type is not
    /// checked here: the slicer only enters a second tag under a
    /// recognized tagging ether-type.
    pub fn from_slice<'a>(slice: &'a [u8]) -> (r: Result<(DoubleVlanHeader, &'a [u8]), ReadError>)
        ensures
            match r {
                Ok((h, rest)) => h.spec_matches(slice@) && rest@ == slice@.skip(8),
                Err(e) => slice@.len() < 8 && e matches ReadError::UnexpectedEndOfSlice(_),
            },
    {
        if slice.len() < 8 {
            return Err(ReadError::UnexpectedEndOfSlice(8));
        }
        let (outer, rest) = match SingleVlanHeader::from_slice(slice) {
            Ok(v) => v,
            Err(e) => {
                return Err(e);
            },
        };
        let (inner, rest2) = match SingleVlanHeader::from_slice(rest) {
            Ok(v) => v,
            Err(e) => {
                return Err(e);
            },
        };
        assert(rest2@ =~= slice@.skip(8));
        Ok((DoubleVlanHeader { outer, inner }, rest2))
    }

    /// Append the wire encoding to `buf`.
    pub fn write(&self, buf: &mut Vec<u8>)
        requires
            self.outer.wf(),
            self.inner.wf(),
        ensures
            final(buf)@ == old(buf)@ + self.spec_bytes(),
    {
        self.outer.write(buf);
        self.inner.write(buf);
        assert(buf@ =~= old(buf)@ + self.spec_bytes());
    }

    /// Number of bytes this header takes on the wire.
    pub fn header_len(&self) -> (r: usize)
        requires
            self.outer.wf(),
            self.inner.wf(),
        ensures
            r == self.spec_bytes().len(),
    {
        8
    }

    /// A buffer decodes to at most one header.
    pub proof fn lemma_matches_unique(h1: DoubleVlanHeader, h2: DoubleVlanHeader, b: Seq<u8>)
        requires
            h1.spec_matches(b),
            h2.spec_matches(b),
        ensures
            h1 == h2,
    {
        SingleVlanHeader::lemma_matches_unique(h1.outer, h2.outer, b);
        SingleVlanHeader::lemma_matches_unique(h1.inner, h2.inner, b.skip(4));
    }

    /// Decoding the encoding of a header gives the header back.
    pub proof fn lemma_roundtrip(h: DoubleVlanHeader, h2: DoubleVlanHeader, tail: Seq<u8>)
        requires
            h.outer.wf(),
            h.inner.wf(),
            h2.spec_matches(h.spec_bytes() + tail),
        ensures
            h2 == h,
    {
        let b = h.spec_bytes() + tail;
        assert(b.take(4) =~= h.outer.spec_bytes().take(4));
        SingleVlanHeader::lemma_roundtrip(h.outer, h2.outer, b.skip(4));
        assert(h.outer.spec_bytes() + (h.inner.spec_bytes() + tail) =~= b);
        assert(b.skip(4) =~= h.inner.spec_bytes() + tail);
        SingleVlanHeader::lemma_roundtrip(h.inner, h2.inner, tail);
    }
}

/// A link layer VLAN tagging: one tag or two.
#[derive(Clone, Copy, Debug, PartialEq, Eq)]
pub enum VlanHeader {
    Single(SingleVlanHeader),
    Double(DoubleVlanHeader),
}

impl VlanHeader {
    /// Field ranges of the tags inside.
    pub open spec fn wf(self) -> bool {
        match self {
            VlanHeader::Single(s) => s.wf(),
            VlanHeader::Double(d) => d.wf(),
        }
    }

    /// Wire encoding of the tagging.
    pub open spec fn spec_bytes(self) -> Seq<u8> {
        match self {
            VlanHeader::Single(s) => s.spec_bytes(),
            VlanHeader::Double(d) => d.spec_bytes(),
        }
    }

    /// Append the wire encoding to `buf`.
    pub fn write(&self, buf: &mut Vec<u8>)
        requires
            self.wf(),
        ensures
            final(buf)@ == old(buf)@ + self.spec_bytes(),
    {
        match self {
            VlanHeader::Single(s) => s.write(buf),
            VlanHeader::Double(d) => d.write(buf),
        }
    }

    /// Number of bytes this tagging takes on the wire.
    pub fn header_len(&self) -> (r: usize)
        requires
            self.wf(),
        ensures
            r == self.spec_bytes().len(),
    {
        match self {
            VlanHeader::Single(s) => s.header_len(),
            VlanHeader::Double(d) => d.header_len(),
        }
    }
}

} // verus!
