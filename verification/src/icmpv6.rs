//! ICMPv6: an 8 byte base header whose last four bytes are read
//! through the type. The checksum covers the IPv6 pseudo-header,
//! the header and the payload.

use vstd::prelude::*;

use crate::bytes::{
    be16, be16_hi, be16_lo, be16_seq, be32, be32_seq, lemma_be16_bytes, lemma_be32_roundtrip,
    push_slice, read_array4, read_be16, read_be32, write_be16, write_be32,
};
use crate::checksum::{
    build_pseudo_header_v6, checksum16, checksum_finalize, lemma_checksum_verifies,
    lemma_sum16_append, pseudo_header_v6, sum16_slice,
};
use crate::err::{ReadError, ValueError};
use crate::icmp::IcmpEchoHeader;
use crate::ip_number;
use crate::ipv6::Ipv6Header;
use vstd::slice::slice_subrange;

verus! {

broadcast use vstd::array::group_array_axioms;

/// Type values of the variants below.
pub const TYPE_DEST_UNREACH: u8 = 1;
pub const TYPE_PACKET_TOO_BIG: u8 = 2;
pub const TYPE_TIME_EXCEEDED: u8 = 3;
pub const TYPE_PARAMETER_PROBLEM: u8 = 4;
pub const TYPE_ECHO_REQUEST: u8 = 128;
pub const TYPE_ECHO_REPLY: u8 = 129;
pub const TYPE_ROUTER_SOLICITATION: u8 = 133;
pub const TYPE_ROUTER_ADVERTISEMENT: u8 = 134;
pub const TYPE_NEIGHBOR_SOLICITATION: u8 = 135;
pub const TYPE_NEIGHBOR_ADVERTISEMENT: u8 = 136;
pub const TYPE_REDIRECT: u8 = 137;

/// The typed ICMPv6 variants. The neighbor discovery messages keep
/// their four type-specific bytes raw; their bodies follow as
/// payload. Unrecognized type and code pairs are kept raw in
/// `Unknown`.
#[derive(Clone, Copy, Debug, PartialEq, Eq)]
pub enum Icmpv6Type {
    Unknown { type_u8: u8, code_u8: u8, bytes5to8: [u8; 4] },
    DestinationUnreachable { code_u8: u8 },
    PacketTooBig { mtu: u32 },
    TimeExceeded { code_u8: u8 },
    ParameterProblem { code_u8: u8, pointer: u32 },
    EchoRequest(IcmpEchoHeader),
    EchoReply(IcmpEchoHeader),
    RouterSolicitation { bytes5to8: [u8; 4] },
    RouterAdvertisement { bytes5to8: [u8; 4] },
    NeighborSolicitation { bytes5to8: [u8; 4] },
    NeighborAdvertisement { bytes5to8: [u8; 4] },
    Redirect { bytes5to8: [u8; 4] },
}

/// True when a type and code pair decodes to no typed variant and
/// stays `Unknown`.
pub open spec fn spec_is_unknown(type_u8: u8, code_u8: u8) -> bool {
    &&& type_u8 != TYPE_DEST_UNREACH
    &&& !(type_u8 == TYPE_PACKET_TOO_BIG && code_u8 == 0)
    &&& type_u8 != TYPE_TIME_EXCEEDED
    &&& type_u8 != TYPE_PARAMETER_PROBLEM
    &&& !(type_u8 == TYPE_ECHO_REQUEST && code_u8 == 0)
    &&& !(type_u8 == TYPE_ECHO_REPLY && code_u8 == 0)
    &&& !(type_u8 == TYPE_ROUTER_SOLICITATION && code_u8 == 0)
    &&& !(type_u8 == TYPE_ROUTER_ADVERTISEMENT && code_u8 == 0)
    &&& !(type_u8 == TYPE_NEIGHBOR_SOLICITATION && code_u8 == 0)
    &&& !(type_u8 == TYPE_NEIGHBOR_ADVERTISEMENT && code_u8 == 0)
    &&& !(type_u8 == TYPE_REDIRECT && code_u8 == 0)
}

impl Icmpv6Type {
    /// An `Unknown` that could not have decoded to a typed variant.
    pub open spec fn wf(self) -> bool {
        match self {
            Icmpv6Type::Unknown { type_u8, code_u8, .. } => spec_is_unknown(type_u8, code_u8),
            _ => true,
        }
    }

    /// The type byte on the wire.
    pub open spec fn spec_type_u8(self) -> u8 {
        match self {
            Icmpv6Type::Unknown { type_u8, .. } => type_u8,
            Icmpv6Type::DestinationUnreachable { .. } => TYPE_DEST_UNREACH,
            Icmpv6Type::PacketTooBig { .. } => TYPE_PACKET_TOO_BIG,
            Icmpv6Type::TimeExceeded { .. } => TYPE_TIME_EXCEEDED,
            Icmpv6Type::ParameterProblem { .. } => TYPE_PARAMETER_PROBLEM,
            Icmpv6Type::EchoRequest(_) => TYPE_ECHO_REQUEST,
            Icmpv6Type::EchoReply(_) => TYPE_ECHO_REPLY,
            Icmpv6Type::RouterSolicitation { .. } => TYPE_ROUTER_SOLICITATION,
            Icmpv6Type::RouterAdvertisement { .. } => TYPE_ROUTER_ADVERTISEMENT,
            Icmpv6Type::NeighborSolicitation { .. } => TYPE_NEIGHBOR_SOLICITATION,
            Icmpv6Type::NeighborAdvertisement { .. } => TYPE_NEIGHBOR_ADVERTISEMENT,
            Icmpv6Type::Redirect { .. } => TYPE_REDIRECT,
        }
    }

    /// The code byte on the wire.
    pub open spec fn spec_code_u8(self) -> u8 {
        match self {
            Icmpv6Type::Unknown { code_u8, .. } => code_u8,
            Icmpv6Type::DestinationUnreachable { code_u8 } => code_u8,
            Icmpv6Type::TimeExceeded { code_u8 } => code_u8,
            Icmpv6Type::ParameterProblem { code_u8, .. } => code_u8,
            _ => 0,
        }
    }

    /// The four type-specific bytes of the base header.
    pub open spec fn spec_bytes5to8(self) -> Seq<u8> {
        match self {
            Icmpv6Type::Unknown { bytes5to8, .. } => bytes5to8@,
            Icmpv6Type::DestinationUnreachable { .. } => seq![0u8, 0u8, 0u8, 0u8],
            Icmpv6Type::PacketTooBig { mtu } => be32_seq(mtu),
            Icmpv6Type::TimeExceeded { .. } => seq![0u8, 0u8, 0u8, 0u8],
            Icmpv6Type::ParameterProblem { pointer, .. } => be32_seq(pointer),
            Icmpv6Type::EchoRequest(e) => e.spec_bytes(),
            Icmpv6Type::EchoReply(e) => e.spec_bytes(),
            Icmpv6Type::RouterSolicitation { bytes5to8 } => bytes5to8@,
            Icmpv6Type::RouterAdvertisement { bytes5to8 } => bytes5to8@,
            Icmpv6Type::NeighborSolicitation { bytes5to8 } => bytes5to8@,
            Icmpv6Type::NeighborAdvertisement { bytes5to8 } => bytes5to8@,
            Icmpv6Type::Redirect { bytes5to8 } => bytes5to8@,
        }
    }

    /// Number of header bytes on the wire: always the 8 byte base.
    pub open spec fn spec_header_len(self) -> int {
        8
    }

    /// Number of header bytes on the wire.
    pub fn header_len(&self) -> (r: usize)
        ensures
            r == self.spec_header_len(),
    {
        8
    }

    /// True when this variant is what the ICMPv6 section `b` decodes
    /// to.
    pub open spec fn spec_matches(self, b: Seq<u8>) -> bool {
        b.len() >= 8 && match self {
            Icmpv6Type::Unknown { type_u8, code_u8, bytes5to8 } => {
                &&& type_u8 == b[0]
                &&& code_u8 == b[1]
                &&& bytes5to8@ == b.subrange(4, 8)
                &&& spec_is_unknown(b[0], b[1])
            },
            Icmpv6Type::DestinationUnreachable { code_u8 } => b[0] == TYPE_DEST_UNREACH && code_u8
                == b[1],
            Icmpv6Type::PacketTooBig { mtu } => b[0] == TYPE_PACKET_TOO_BIG && b[1] == 0 && mtu
                == be32(b[4], b[5], b[6], b[7]),
            Icmpv6Type::TimeExceeded { code_u8 } => b[0] == TYPE_TIME_EXCEEDED && code_u8 == b[1],
            Icmpv6Type::ParameterProblem { code_u8, pointer } => b[0] == TYPE_PARAMETER_PROBLEM
                && code_u8 == b[1] && pointer == be32(b[4], b[5], b[6], b[7]),
            Icmpv6Type::EchoRequest(e) => b[0] == TYPE_ECHO_REQUEST && b[1] == 0 && e.id == be16(
                b[4],
                b[5],
            ) && e.seq == be16(b[6], b[7]),
            Icmpv6Type::EchoReply(e) => b[0] == TYPE_ECHO_REPLY && b[1] == 0 && e.id == be16(
                b[4],
                b[5],
            ) && e.seq == be16(b[6], b[7]),
            Icmpv6Type::RouterSolicitation { bytes5to8 } => b[0] == TYPE_ROUTER_SOLICITATION
                && b[1] == 0 && bytes5to8@ == b.subrange(4, 8),
            Icmpv6Type::RouterAdvertisement { bytes5to8 } => b[0] == TYPE_ROUTER_ADVERTISEMENT
                && b[1] == 0 && bytes5to8@ == b.subrange(4, 8),
            Icmpv6Type::NeighborSolicitation { bytes5to8 } => b[0] == TYPE_NEIGHBOR_SOLICITATION
                && b[1] == 0 && bytes5to8@ == b.subrange(4, 8),
            Icmpv6Type::NeighborAdvertisement { bytes5to8 } => b[0] == TYPE_NEIGHBOR_ADVERTISEMENT
                && b[1] == 0 && bytes5to8@ == b.subrange(4, 8),
            Icmpv6Type::Redirect { bytes5to8 } => b[0] == TYPE_REDIRECT && b[1] == 0 && bytes5to8@
                == b.subrange(4, 8),
        }
    }
}

/// ICMPv6 header: the typed variant and the checksum.
#[derive(Clone, Copy, Debug, PartialEq, Eq)]
pub struct Icmpv6Header {
    pub icmp_type: Icmpv6Type,
    pub checksum: u16,
}

impl Icmpv6Header {
    /// The variant well formed.
    pub open spec fn wf(self) -> bool {
        self.icmp_type.wf()
    }

    /// Wire encoding with the checksum field set to `ck`.
    pub open spec fn spec_bytes_with_checksum(self, ck: u16) -> Seq<u8> {
        seq![self.icmp_type.spec_type_u8(), self.icmp_type.spec_code_u8()] + be16_seq(ck)
            + self.icmp_type.spec_bytes5to8()
    }

    /// Wire encoding of the header.
    pub open spec fn spec_bytes(self) -> Seq<u8> {
        self.spec_bytes_with_checksum(self.checksum)
    }

    /// The checksum of an ICMPv6 message: the internet checksum over
    /// the IPv6 pseudo-header (whose length field holds the message
    /// length), the header with a zeroed checksum field, and the
    /// payload.
    pub open spec fn spec_checksum(
        self,
        source: Seq<u8>,
        destination: Seq<u8>,
        payload: Seq<u8>,
    ) -> u16 {
        checksum16(
            pseudo_header_v6(source, destination, ip_number::IPV6_ICMP, (8 + payload.len()) as u32)
                + self.spec_bytes_with_checksum(0) + payload,
        )
    }

    /// True when this header is what the ICMPv6 section `b` decodes
    /// to.
    pub open spec fn spec_matches(self, b: Seq<u8>) -> bool {
        &&& b.len() >= 8
        &&& self.checksum == be16(b[2], b[3])
        &&& self.icmp_type.spec_matches(b)
    }

    /// Number of bytes this header takes on the wire.
    pub fn header_len(&self) -> (r: usize)
        ensures
            r == self.icmp_type.spec_header_len(),
            r == self.spec_bytes().len(),
    {
        8
    }

    /// Append the wire encoding to `buf`.
    pub fn write(&self, buf: &mut Vec<u8>)
        ensures
            final(buf)@ == old(buf)@ + self.spec_bytes(),
    {
        self.write_with_checksum(buf, self.checksum);
    }

    /// Append the wire encoding with the checksum field `ck`.
    fn write_with_checksum(&self, buf: &mut Vec<u8>, ck: u16)
        ensures
            final(buf)@ == old(buf)@ + self.spec_bytes_with_checksum(ck),
    {
        buf.push(self.icmp_type_u8());
        buf.push(self.icmp_code_u8());
        write_be16(buf, ck);
        match &self.icmp_type {
            Icmpv6Type::Unknown { bytes5to8, .. } => push_slice(buf, bytes5to8.as_slice()),
            Icmpv6Type::DestinationUnreachable { .. } => write_be32(buf, 0),
            Icmpv6Type::PacketTooBig { mtu } => write_be32(buf, *mtu),
            Icmpv6Type::TimeExceeded { .. } => write_be32(buf, 0),
            Icmpv6Type::ParameterProblem { pointer, .. } => write_be32(buf, *pointer),
            Icmpv6Type::EchoRequest(e) => {
                write_be16(buf, e.id);
                write_be16(buf, e.seq);
            },
            Icmpv6Type::EchoReply(e) => {
                write_be16(buf, e.id);
                write_be16(buf, e.seq);
            },
            Icmpv6Type::RouterSolicitation { bytes5to8 } => push_slice(buf, bytes5to8.as_slice()),
            Icmpv6Type::RouterAdvertisement { bytes5to8 } => push_slice(buf, bytes5to8.as_slice()),
            Icmpv6Type::NeighborSolicitation { bytes5to8 } => push_slice(
                buf,
                bytes5to8.as_slice(),
            ),
            Icmpv6Type::NeighborAdvertisement { bytes5to8 } => push_slice(
                buf,
                bytes5to8.as_slice(),
            ),
            Icmpv6Type::Redirect { bytes5to8 } => push_slice(buf, bytes5to8.as_slice()),
        }
        assert(buf@ =~= old(buf)@ + self.spec_bytes_with_checksum(ck));
    }

    /// The type byte on the wire.
    fn icmp_type_u8(&self) -> (r: u8)
        ensures
            r == self.icmp_type.spec_type_u8(),
    {
        match &self.icmp_type {
            Icmpv6Type::Unknown { type_u8, .. } => *type_u8,
            Icmpv6Type::DestinationUnreachable { .. } => TYPE_DEST_UNREACH,
            Icmpv6Type::PacketTooBig { .. } => TYPE_PACKET_TOO_BIG,
            Icmpv6Type::TimeExceeded { .. } => TYPE_TIME_EXCEEDED,
            Icmpv6Type::ParameterProblem { .. } => TYPE_PARAMETER_PROBLEM,
            Icmpv6Type::EchoRequest(_) => TYPE_ECHO_REQUEST,
            Icmpv6Type::EchoReply(_) => TYPE_ECHO_REPLY,
            Icmpv6Type::RouterSolicitation { .. } => TYPE_ROUTER_SOLICITATION,
            Icmpv6Type::RouterAdvertisement { .. } => TYPE_ROUTER_ADVERTISEMENT,
            Icmpv6Type::NeighborSolicitation { .. } => TYPE_NEIGHBOR_SOLICITATION,
            Icmpv6Type::NeighborAdvertisement { .. } => TYPE_NEIGHBOR_ADVERTISEMENT,
            Icmpv6Type::Redirect { .. } => TYPE_REDIRECT,
        }
    }

    /// The code byte on the wire.
    fn icmp_code_u8(&self) -> (r: u8)
        ensures
            r == self.icmp_type.spec_code_u8(),
    {
        match &self.icmp_type {
            Icmpv6Type::Unknown { code_u8, .. } => *code_u8,
            Icmpv6Type::DestinationUnreachable { code_u8 } => *code_u8,
            Icmpv6Type::TimeExceeded { code_u8 } => *code_u8,
            Icmpv6Type::ParameterProblem { code_u8, .. } => *code_u8,
            _ => 0,
        }
    }

    /// Compute and store the checksum for a message sent between the
    /// addresses of `ip`. Fails when the message would not fit the
    /// pseudo-header's length field.
    pub fn update_checksum(&mut self, ip: &Ipv6Header, payload: &[u8]) -> (r: Result<
        (),
        ValueError,
    >)
        ensures
            match r {
                Ok(()) => payload@.len() + 8 <= u32::MAX && *final(self) == (Icmpv6Header {
                    checksum: old(self).spec_checksum(ip.source@, ip.destination@, payload@),
                    ..*old(self)
                }),
                Err(e) => payload@.len() + 8 > u32::MAX && e
                    == ValueError::Ipv6PayloadLengthTooLarge(payload@.len() as usize)
                    && *final(self) == *old(self),
            },
    {
        match self.calc_checksum(ip.source, ip.destination, payload) {
            Ok(c) => {
                self.checksum = c;
                Ok(())
            },
            Err(e) => Err(e),
        }
    }

    /// The checksum for a message sent between the given addresses.
    /// Fails when the message would not fit the pseudo-header's
    /// length field.
    pub fn calc_checksum(&self, source: [u8; 16], destination: [u8; 16], payload: &[u8]) -> (r:
        Result<u16, ValueError>)
        ensures
            match r {
                Ok(c) => payload@.len() + 8 <= u32::MAX && c == self.spec_checksum(
                    source@,
                    destination@,
                    payload@,
                ),
                Err(e) => payload@.len() + 8 > u32::MAX && e
                    == ValueError::Ipv6PayloadLengthTooLarge(payload@.len() as usize),
            },
    {
        if payload.len() > (u32::MAX - 8) as usize {
            return Err(ValueError::Ipv6PayloadLengthTooLarge(payload.len()));
        }
        let pseudo = build_pseudo_header_v6(
            &source,
            &destination,
            ip_number::IPV6_ICMP,
            (payload.len() + 8) as u32,
        );
        let mut hdr: Vec<u8> = Vec::new();
        self.write_with_checksum(&mut hdr, 0);
        let s1 = sum16_slice(pseudo.as_slice(), 0);
        let s2 = sum16_slice(hdr.as_slice(), s1);
        let s3 = sum16_slice(payload, s2);
        proof {
            let p = pseudo@;
            let h0 = self.spec_bytes_with_checksum(0);
            lemma_sum16_append(p, h0 + payload@, 0);
            lemma_sum16_append(h0, payload@, s1);
            assert(p + (h0 + payload@) =~= p + h0 + payload@);
        }
        Ok(checksum_finalize(s3))
    }

    /// A header with its checksum computed for a message sent
    /// between the given addresses. Fails when the message would not
    /// fit the pseudo-header's length field.
    pub fn with_checksum(
        icmp_type: Icmpv6Type,
        source: [u8; 16],
        destination: [u8; 16],
        payload: &[u8],
    ) -> (r: Result<Icmpv6Header, ValueError>)
        ensures
            match r {
                Ok(h) => payload@.len() + 8 <= u32::MAX && h.icmp_type == icmp_type && h.checksum
                    == h.spec_checksum(source@, destination@, payload@),
                Err(e) => payload@.len() + 8 > u32::MAX && e
                    == ValueError::Ipv6PayloadLengthTooLarge(payload@.len() as usize),
            },
    {
        let mut h = Icmpv6Header { icmp_type, checksum: 0 };
        match h.calc_checksum(source, destination, payload) {
            Ok(c) => {
                h.checksum = c;
                Ok(h)
            },
            Err(e) => Err(e),
        }
    }

    /// Decode a header from the start of the ICMPv6 section; the
    /// second value of the pair is the message payload after the
    /// header.
    pub fn from_slice<'a>(slice: &'a [u8]) -> (r: Result<(Icmpv6Header, &'a [u8]), ReadError>)
        ensures
            match r {
                Ok((h, rest)) => h.spec_matches(slice@) && rest@ == slice@.skip(8),
                Err(e) => slice@.len() < 8 && e == ReadError::UnexpectedEndOfSlice(8),
            },
    {
        if slice.len() < 8 {
            return Err(ReadError::UnexpectedEndOfSlice(8));
        }
        let type_u8 = slice[0];
        let code_u8 = slice[1];
        let checksum = read_be16(slice, 2);
        let icmp_type: Icmpv6Type = if type_u8 == TYPE_DEST_UNREACH {
            Icmpv6Type::DestinationUnreachable { code_u8 }
        } else if type_u8 == TYPE_PACKET_TOO_BIG && code_u8 == 0 {
            Icmpv6Type::PacketTooBig { mtu: read_be32(slice, 4) }
        } else if type_u8 == TYPE_TIME_EXCEEDED {
            Icmpv6Type::TimeExceeded { code_u8 }
        } else if type_u8 == TYPE_PARAMETER_PROBLEM {
            Icmpv6Type::ParameterProblem { code_u8, pointer: read_be32(slice, 4) }
        } else if type_u8 == TYPE_ECHO_REQUEST && code_u8 == 0 {
            Icmpv6Type::EchoRequest(
                IcmpEchoHeader { id: read_be16(slice, 4), seq: read_be16(slice, 6) },
            )
        } else if type_u8 == TYPE_ECHO_REPLY && code_u8 == 0 {
            Icmpv6Type::EchoReply(
                IcmpEchoHeader { id: read_be16(slice, 4), seq: read_be16(slice, 6) },
            )
        } else if type_u8 == TYPE_ROUTER_SOLICITATION && code_u8 == 0 {
            Icmpv6Type::RouterSolicitation { bytes5to8: read_array4(slice, 4) }
        } else if type_u8 == TYPE_ROUTER_ADVERTISEMENT && code_u8 == 0 {
            Icmpv6Type::RouterAdvertisement { bytes5to8: read_array4(slice, 4) }
        } else if type_u8 == TYPE_NEIGHBOR_SOLICITATION && code_u8 == 0 {
            Icmpv6Type::NeighborSolicitation { bytes5to8: read_array4(slice, 4) }
        } else if type_u8 == TYPE_NEIGHBOR_ADVERTISEMENT && code_u8 == 0 {
            Icmpv6Type::NeighborAdvertisement { bytes5to8: read_array4(slice, 4) }
        } else if type_u8 == TYPE_REDIRECT && code_u8 == 0 {
            Icmpv6Type::Redirect { bytes5to8: read_array4(slice, 4) }
        } else {
            Icmpv6Type::Unknown { type_u8, code_u8, bytes5to8: read_array4(slice, 4) }
        };
        let rest = slice_subrange(slice, 8, slice.len());
        assert(rest@ =~= slice@.skip(8));
        Ok((Icmpv6Header { icmp_type, checksum }, rest))
    }

    /// A buffer decodes to at most one header: the type and code
    /// bytes force the variant, the variant forces the fields.
    pub proof fn lemma_matches_unique(h1: Icmpv6Header, h2: Icmpv6Header, b: Seq<u8>)
        requires
            h1.spec_matches(b),
            h2.spec_matches(b),
        ensures
            h1 == h2,
    {
        match (h1.icmp_type, h2.icmp_type) {
            (
                Icmpv6Type::Unknown { bytes5to8: x, .. },
                Icmpv6Type::Unknown { bytes5to8: y, .. },
            ) => {
                assert(x@ =~= y@);
                assert(x =~= y);
            },
            (
                Icmpv6Type::RouterSolicitation { bytes5to8: x },
                Icmpv6Type::RouterSolicitation { bytes5to8: y },
            ) => {
                assert(x@ =~= y@);
                assert(x =~= y);
            },
            (
                Icmpv6Type::RouterAdvertisement { bytes5to8: x },
                Icmpv6Type::RouterAdvertisement { bytes5to8: y },
            ) => {
                assert(x@ =~= y@);
                assert(x =~= y);
            },
            (
                Icmpv6Type::NeighborSolicitation { bytes5to8: x },
                Icmpv6Type::NeighborSolicitation { bytes5to8: y },
            ) => {
                assert(x@ =~= y@);
                assert(x =~= y);
            },
            (
                Icmpv6Type::NeighborAdvertisement { bytes5to8: x },
                Icmpv6Type::NeighborAdvertisement { bytes5to8: y },
            ) => {
                assert(x@ =~= y@);
                assert(x =~= y);
            },
            (
                Icmpv6Type::Redirect { bytes5to8: x },
                Icmpv6Type::Redirect { bytes5to8: y },
            ) => {
                assert(x@ =~= y@);
                assert(x =~= y);
            },
            _ => {},
        }
    }

    /// Decoding the encoding of a header gives the header back.
    pub proof fn lemma_roundtrip(h: Icmpv6Header, h2: Icmpv6Header, tail: Seq<u8>)
        requires
            h.wf(),
            h2.spec_matches(h.spec_bytes() + tail),
        ensures
            h2 == h,
    {
        let b = h.spec_bytes() + tail;
        lemma_be16_bytes(be16_hi(h.checksum), be16_lo(h.checksum));
        let b5 = h.icmp_type.spec_bytes5to8();
        assert(b.subrange(4, 8) =~= b5);
        match h.icmp_type {
            Icmpv6Type::Unknown { type_u8, code_u8, bytes5to8 } => {
                match h2.icmp_type {
                    Icmpv6Type::Unknown { bytes5to8: b2, .. } => {
                        assert(b2@ =~= bytes5to8@);
                        assert(b2 =~= bytes5to8);
                    },
                    _ => {},
                }
            },
            Icmpv6Type::DestinationUnreachable { .. } => {},
            Icmpv6Type::PacketTooBig { mtu } => {
                lemma_be32_roundtrip(mtu);
            },
            Icmpv6Type::TimeExceeded { .. } => {},
            Icmpv6Type::ParameterProblem { pointer, .. } => {
                lemma_be32_roundtrip(pointer);
            },
            Icmpv6Type::EchoRequest(e) => {
                lemma_be16_bytes(be16_hi(e.id), be16_lo(e.id));
                lemma_be16_bytes(be16_hi(e.seq), be16_lo(e.seq));
            },
            Icmpv6Type::EchoReply(e) => {
                lemma_be16_bytes(be16_hi(e.id), be16_lo(e.id));
                lemma_be16_bytes(be16_hi(e.seq), be16_lo(e.seq));
            },
            Icmpv6Type::RouterSolicitation { bytes5to8 } => {
                match h2.icmp_type {
                    Icmpv6Type::RouterSolicitation { bytes5to8: b2 } => {
                        assert(b2@ =~= bytes5to8@);
                        assert(b2 =~= bytes5to8);
                    },
                    _ => {},
                }
            },
            Icmpv6Type::RouterAdvertisement { bytes5to8 } => {
                match h2.icmp_type {
                    Icmpv6Type::RouterAdvertisement { bytes5to8: b2 } => {
                        assert(b2@ =~= bytes5to8@);
                        assert(b2 =~= bytes5to8);
                    },
                    _ => {},
                }
            },
            Icmpv6Type::NeighborSolicitation { bytes5to8 } => {
                match h2.icmp_type {
                    Icmpv6Type::NeighborSolicitation { bytes5to8: b2 } => {
                        assert(b2@ =~= bytes5to8@);
                        assert(b2 =~= bytes5to8);
                    },
                    _ => {},
                }
            },
            Icmpv6Type::NeighborAdvertisement { bytes5to8 } => {
                match h2.icmp_type {
                    Icmpv6Type::NeighborAdvertisement { bytes5to8: b2 } => {
                        assert(b2@ =~= bytes5to8@);
                        assert(b2 =~= bytes5to8);
                    },
                    _ => {},
                }
            },
            Icmpv6Type::Redirect { bytes5to8 } => {
                match h2.icmp_type {
                    Icmpv6Type::Redirect { bytes5to8: b2 } => {
                        assert(b2@ =~= bytes5to8@);
                        assert(b2 =~= bytes5to8);
                    },
                    _ => {},
                }
            },
        }
    }

    /// A header whose checksum field holds the checksum this message
    /// calls for makes pseudo-header, header and payload sum to
    /// 0xFFFF: recomputing the checksum over them yields zero.
    pub proof fn lemma_checksum_verifies(
        h: Icmpv6Header,
        source: Seq<u8>,
        destination: Seq<u8>,
        payload: Seq<u8>,
    )
        requires
            source.len() == 16,
            destination.len() == 16,
            h.checksum == h.spec_checksum(source, destination, payload),
        ensures
            checksum16(
                pseudo_header_v6(
                    source,
                    destination,
                    ip_number::IPV6_ICMP,
                    (8 + payload.len()) as u32,
                ) + h.spec_bytes() + payload,
            ) == 0,
    {
        let p = pseudo_header_v6(
            source,
            destination,
            ip_number::IPV6_ICMP,
            (8 + payload.len()) as u32,
        );
        let a = p + seq![h.icmp_type.spec_type_u8(), h.icmp_type.spec_code_u8()];
        let s = h.icmp_type.spec_bytes5to8() + payload;
        assert(be16_seq(0) =~= seq![0u8, 0u8]);
        assert(p + h.spec_bytes_with_checksum(0) + payload =~= a + seq![0u8, 0u8] + s);
        assert(p + h.spec_bytes() + payload =~= a + be16_seq(h.checksum) + s);
        assert(a.len() % 2 == 0);
        lemma_checksum_verifies(a, s, h.checksum);
    }
}

} // verus!
