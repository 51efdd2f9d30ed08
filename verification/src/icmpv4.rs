//! ICMPv4: an 8 byte base header whose last four bytes are read
//! through the type, plus a 12 byte timestamp block for the
//! timestamp variants. The checksum covers header and message
//! payload; no pseudo-header.

use vstd::prelude::*;

use crate::bytes::{
    be16, be16_hi, be16_lo, be16_seq, be32, be32_seq, lemma_be16_bytes, lemma_be32_roundtrip,
    push_slice, read_array4, read_be16, read_be32, write_be16, write_be32,
};
use crate::checksum::{
    checksum16, checksum_finalize, lemma_checksum_verifies, lemma_sum16_append, sum16_slice,
};
use crate::err::{ReadError, ValueError};
use crate::icmp::IcmpEchoHeader;
use vstd::slice::slice_subrange;

verus! {

broadcast use vstd::array::group_array_axioms;

/// The timestamp message body: identifier, sequence number, and
/// three 32 bit timestamps that follow the base header.
#[derive(Clone, Copy, Debug, PartialEq, Eq)]
pub struct TimestampMessage {
    pub id: u16,
    pub seq: u16,
    pub originate_timestamp: u32,
    pub receive_timestamp: u32,
    pub transmit_timestamp: u32,
}

/// The typed ICMPv4 variants. Unrecognized type and code pairs are
/// kept raw in `Unknown`.
#[derive(Clone, Copy, Debug, PartialEq, Eq)]
pub enum Icmpv4Type {
    Unknown { type_u8: u8, code_u8: u8, bytes5to8: [u8; 4] },
    EchoReply(IcmpEchoHeader),
    DestinationUnreachable { code_u8: u8 },
    Redirect { code_u8: u8, gateway: [u8; 4] },
    EchoRequest(IcmpEchoHeader),
    TimeExceeded { code_u8: u8 },
    ParameterProblem { code_u8: u8, pointer: u8 },
    TimestampRequest(TimestampMessage),
    TimestampReply(TimestampMessage),
}

/// Type values of the variants above.
pub const TYPE_ECHO_REPLY: u8 = 0;
pub const TYPE_DEST_UNREACH: u8 = 3;
pub const TYPE_REDIRECT: u8 = 5;
pub const TYPE_ECHO_REQUEST: u8 = 8;
pub const TYPE_TIME_EXCEEDED: u8 = 11;
pub const TYPE_PARAMETER_PROBLEM: u8 = 12;
pub const TYPE_TIMESTAMP: u8 = 13;
pub const TYPE_TIMESTAMP_REPLY: u8 = 14;

/// True when a type and code pair (with the length of the ICMP
/// section) decodes to no typed variant and stays `Unknown`.
pub open spec fn spec_is_unknown(type_u8: u8, code_u8: u8, len: int) -> bool {
    &&& !(type_u8 == TYPE_ECHO_REPLY && code_u8 == 0)
    &&& type_u8 != TYPE_DEST_UNREACH
    &&& type_u8 != TYPE_REDIRECT
    &&& !(type_u8 == TYPE_ECHO_REQUEST && code_u8 == 0)
    &&& type_u8 != TYPE_TIME_EXCEEDED
    &&& type_u8 != TYPE_PARAMETER_PROBLEM
    &&& !(type_u8 == TYPE_TIMESTAMP && code_u8 == 0 && len >= 20)
    &&& !(type_u8 == TYPE_TIMESTAMP_REPLY && code_u8 == 0 && len >= 20)
}

impl Icmpv4Type {
    /// An `Unknown` that could not have decoded to a typed variant,
    /// whatever follows it.
    pub open spec fn wf(self) -> bool {
        match self {
            Icmpv4Type::Unknown { type_u8, code_u8, .. } => {
                &&& !(type_u8 == TYPE_ECHO_REPLY && code_u8 == 0)
                &&& type_u8 != TYPE_DEST_UNREACH
                &&& type_u8 != TYPE_REDIRECT
                &&& !(type_u8 == TYPE_ECHO_REQUEST && code_u8 == 0)
                &&& type_u8 != TYPE_TIME_EXCEEDED
                &&& type_u8 != TYPE_PARAMETER_PROBLEM
                &&& !(type_u8 == TYPE_TIMESTAMP && code_u8 == 0)
                &&& !(type_u8 == TYPE_TIMESTAMP_REPLY && code_u8 == 0)
            },
            _ => true,
        }
    }

    /// The type byte on the wire.
    pub open spec fn spec_type_u8(self) -> u8 {
        match self {
            Icmpv4Type::Unknown { type_u8, .. } => type_u8,
            Icmpv4Type::EchoReply(_) => TYPE_ECHO_REPLY,
            Icmpv4Type::DestinationUnreachable { .. } => TYPE_DEST_UNREACH,
            Icmpv4Type::Redirect { .. } => TYPE_REDIRECT,
            Icmpv4Type::EchoRequest(_) => TYPE_ECHO_REQUEST,
            Icmpv4Type::TimeExceeded { .. } => TYPE_TIME_EXCEEDED,
            Icmpv4Type::ParameterProblem { .. } => TYPE_PARAMETER_PROBLEM,
            Icmpv4Type::TimestampRequest(_) => TYPE_TIMESTAMP,
            Icmpv4Type::TimestampReply(_) => TYPE_TIMESTAMP_REPLY,
        }
    }

    /// The code byte on the wire.
    pub open spec fn spec_code_u8(self) -> u8 {
        match self {
            Icmpv4Type::Unknown { code_u8, .. } => code_u8,
            Icmpv4Type::DestinationUnreachable { code_u8 } => code_u8,
            Icmpv4Type::Redirect { code_u8, .. } => code_u8,
            Icmpv4Type::TimeExceeded { code_u8 } => code_u8,
            Icmpv4Type::ParameterProblem { code_u8, .. } => code_u8,
            _ => 0,
        }
    }

    /// The four type-specific bytes of the base header.
    pub open spec fn spec_bytes5to8(self) -> Seq<u8> {
        match self {
            Icmpv4Type::Unknown { bytes5to8, .. } => bytes5to8@,
            Icmpv4Type::EchoReply(e) => e.spec_bytes(),
            Icmpv4Type::DestinationUnreachable { .. } => seq![0u8, 0u8, 0u8, 0u8],
            Icmpv4Type::Redirect { gateway, .. } => gateway@,
            Icmpv4Type::EchoRequest(e) => e.spec_bytes(),
            Icmpv4Type::TimeExceeded { .. } => seq![0u8, 0u8, 0u8, 0u8],
            Icmpv4Type::ParameterProblem { pointer, .. } => seq![pointer, 0u8, 0u8, 0u8],
            Icmpv4Type::TimestampRequest(m) => be16_seq(m.id) + be16_seq(m.seq),
            Icmpv4Type::TimestampReply(m) => be16_seq(m.id) + be16_seq(m.seq),
        }
    }

    /// The bytes after the base header that still belong to the
    /// message: the three timestamps for the timestamp variants,
    /// nothing otherwise.
    pub open spec fn spec_trailing(self) -> Seq<u8> {
        match self {
            Icmpv4Type::TimestampRequest(m) => be32_seq(m.originate_timestamp) + be32_seq(
                m.receive_timestamp,
            ) + be32_seq(m.transmit_timestamp),
            Icmpv4Type::TimestampReply(m) => be32_seq(m.originate_timestamp) + be32_seq(
                m.receive_timestamp,
            ) + be32_seq(m.transmit_timestamp),
            _ => Seq::<u8>::empty(),
        }
    }

    /// Number of header bytes this variant takes on the wire: 8, or
    /// 20 for the timestamp variants.
    pub open spec fn spec_header_len(self) -> int {
        8 + self.spec_trailing().len() as int
    }

    /// Number of header bytes this variant takes on the wire.
    pub fn header_len(&self) -> (r: usize)
        ensures
            r == self.spec_header_len(),
    {
        match self {
            Icmpv4Type::TimestampRequest(_) => 20,
            Icmpv4Type::TimestampReply(_) => 20,
            _ => 8,
        }
    }

    /// The number of bytes after the base header that are part of
    /// the message for variants of a fixed size: the timestamp block.
    pub fn fixed_payload_size(&self) -> (r: Option<usize>)
        ensures
            match self {
                Icmpv4Type::TimestampRequest(_) => r == Some(12usize),
                Icmpv4Type::TimestampReply(_) => r == Some(12usize),
                _ => r is None,
            },
    {
        match self {
            Icmpv4Type::TimestampRequest(_) => Some(12),
            Icmpv4Type::TimestampReply(_) => Some(12),
            _ => None,
        }
    }

    /// True when this variant is what the ICMP section `b` decodes
    /// to.
    pub open spec fn spec_matches(self, b: Seq<u8>) -> bool {
        b.len() >= 8 && match self {
            Icmpv4Type::Unknown { type_u8, code_u8, bytes5to8 } => {
                &&& type_u8 == b[0]
                &&& code_u8 == b[1]
                &&& bytes5to8@ == b.subrange(4, 8)
                &&& spec_is_unknown(b[0], b[1], b.len() as int)
            },
            Icmpv4Type::EchoReply(e) => b[0] == TYPE_ECHO_REPLY && b[1] == 0 && e.id == be16(
                b[4],
                b[5],
            ) && e.seq == be16(b[6], b[7]),
            Icmpv4Type::DestinationUnreachable { code_u8 } => b[0] == TYPE_DEST_UNREACH && code_u8
                == b[1],
            Icmpv4Type::Redirect { code_u8, gateway } => b[0] == TYPE_REDIRECT && code_u8 == b[1]
                && gateway@ == b.subrange(4, 8),
            Icmpv4Type::EchoRequest(e) => b[0] == TYPE_ECHO_REQUEST && b[1] == 0 && e.id == be16(
                b[4],
                b[5],
            ) && e.seq == be16(b[6], b[7]),
            Icmpv4Type::TimeExceeded { code_u8 } => b[0] == TYPE_TIME_EXCEEDED && code_u8 == b[1],
            Icmpv4Type::ParameterProblem { code_u8, pointer } => b[0] == TYPE_PARAMETER_PROBLEM
                && code_u8 == b[1] && pointer == b[4],
            Icmpv4Type::TimestampRequest(m) => b[0] == TYPE_TIMESTAMP && b[1] == 0 && b.len() >= 20
                && m.id == be16(b[4], b[5]) && m.seq == be16(b[6], b[7]) && m.originate_timestamp
                == be32(b[8], b[9], b[10], b[11]) && m.receive_timestamp == be32(
                b[12],
                b[13],
                b[14],
                b[15],
            ) && m.transmit_timestamp == be32(b[16], b[17], b[18], b[19]),
            Icmpv4Type::TimestampReply(m) => b[0] == TYPE_TIMESTAMP_REPLY && b[1] == 0 && b.len()
                >= 20 && m.id == be16(b[4], b[5]) && m.seq == be16(b[6], b[7])
                && m.originate_timestamp == be32(b[8], b[9], b[10], b[11]) && m.receive_timestamp
                == be32(b[12], b[13], b[14], b[15]) && m.transmit_timestamp == be32(
                b[16],
                b[17],
                b[18],
                b[19],
            ),
        }
    }
}

/// ICMPv4 header: the typed variant and the checksum.
#[derive(Clone, Copy, Debug, PartialEq, Eq)]
pub struct Icmpv4Header {
    pub icmp_type: Icmpv4Type,
    pub checksum: u16,
}

impl Icmpv4Header {
    /// The variant well formed.
    pub open spec fn wf(self) -> bool {
        self.icmp_type.wf()
    }

    /// Wire encoding with the checksum field set to `ck`.
    pub open spec fn spec_bytes_with_checksum(self, ck: u16) -> Seq<u8> {
        seq![self.icmp_type.spec_type_u8(), self.icmp_type.spec_code_u8()] + be16_seq(ck)
            + self.icmp_type.spec_bytes5to8() + self.icmp_type.spec_trailing()
    }

    /// Wire encoding of the header.
    pub open spec fn spec_bytes(self) -> Seq<u8> {
        self.spec_bytes_with_checksum(self.checksum)
    }

    /// The checksum of an ICMPv4 message: the internet checksum over
    /// the header with a zeroed checksum field and the payload; no
    /// pseudo-header.
    pub open spec fn spec_checksum(self, payload: Seq<u8>) -> u16 {
        checksum16(self.spec_bytes_with_checksum(0) + payload)
    }

    /// True when this header is what the ICMP section `b` decodes
    /// to.
    pub open spec fn spec_matches(self, b: Seq<u8>) -> bool {
        &&& b.len() >= 8
        &&& self.checksum == be16(b[2], b[3])
        &&& self.icmp_type.spec_matches(b)
    }

    /// Number of bytes this header takes on the wire.
    pub fn header_len(&self) -> (r: usize)
        ensures
            r == self.icmp_type.spec_header_len(),
            r == self.spec_bytes().len(),
    {
        self.icmp_type.header_len()
    }

    /// Append the wire encoding to `buf`.
    pub fn write(&self, buf: &mut Vec<u8>)
        ensures
            final(buf)@ == old(buf)@ + self.spec_bytes(),
    {
        self.write_with_checksum(buf, self.checksum);
    }

    /// Append the wire encoding with the checksum field `ck`.
    fn write_with_checksum(&self, buf: &mut Vec<u8>, ck: u16)
        ensures
            final(buf)@ == old(buf)@ + self.spec_bytes_with_checksum(ck),
    {
        match &self.icmp_type {
            Icmpv4Type::Unknown { type_u8, code_u8, bytes5to8 } => {
                buf.push(*type_u8);
                buf.push(*code_u8);
                write_be16(buf, ck);
                push_slice(buf, bytes5to8.as_slice());
            },
            Icmpv4Type::EchoReply(e) => {
                buf.push(TYPE_ECHO_REPLY);
                buf.push(0);
                write_be16(buf, ck);
                write_be16(buf, e.id);
                write_be16(buf, e.seq);
            },
            Icmpv4Type::DestinationUnreachable { code_u8 } => {
                buf.push(TYPE_DEST_UNREACH);
                buf.push(*code_u8);
                write_be16(buf, ck);
                write_be32(buf, 0);
            },
            Icmpv4Type::Redirect { code_u8, gateway } => {
                buf.push(TYPE_REDIRECT);
                buf.push(*code_u8);
                write_be16(buf, ck);
                push_slice(buf, gateway.as_slice());
            },
            Icmpv4Type::EchoRequest(e) => {
                buf.push(TYPE_ECHO_REQUEST);
                buf.push(0);
                write_be16(buf, ck);
                write_be16(buf, e.id);
                write_be16(buf, e.seq);
            },
            Icmpv4Type::TimeExceeded { code_u8 } => {
                buf.push(TYPE_TIME_EXCEEDED);
                buf.push(*code_u8);
                write_be16(buf, ck);
                write_be32(buf, 0);
            },
            Icmpv4Type::ParameterProblem { code_u8, pointer } => {
                buf.push(TYPE_PARAMETER_PROBLEM);
                buf.push(*code_u8);
                write_be16(buf, ck);
                buf.push(*pointer);
                buf.push(0);
                buf.push(0);
                buf.push(0);
            },
            Icmpv4Type::TimestampRequest(m) => {
                buf.push(TYPE_TIMESTAMP);
                buf.push(0);
                write_be16(buf, ck);
                write_be16(buf, m.id);
                write_be16(buf, m.seq);
                write_be32(buf, m.originate_timestamp);
                write_be32(buf, m.receive_timestamp);
                write_be32(buf, m.transmit_timestamp);
            },
            Icmpv4Type::TimestampReply(m) => {
                buf.push(TYPE_TIMESTAMP_REPLY);
                buf.push(0);
                write_be16(buf, ck);
                write_be16(buf, m.id);
                write_be16(buf, m.seq);
                write_be32(buf, m.originate_timestamp);
                write_be32(buf, m.receive_timestamp);
                write_be32(buf, m.transmit_timestamp);
            },
        }
        assert(buf@ =~= old(buf)@ + self.spec_bytes_with_checksum(ck));
    }

    /// The checksum over the header with a zeroed checksum field and
    /// the payload.
    pub fn calc_checksum_ipv4(&self, payload: &[u8]) -> (r: Result<u16, ValueError>)
        ensures
            r == Result::<u16, ValueError>::Ok(self.spec_checksum(payload@)),
    {
        let mut hdr: Vec<u8> = Vec::new();
        self.write_with_checksum(&mut hdr, 0);
        let s1 = sum16_slice(hdr.as_slice(), 0);
        let s2 = sum16_slice(payload, s1);
        proof {
            lemma_sum16_append(self.spec_bytes_with_checksum(0), payload@, 0);
        }
        Ok(checksum_finalize(s2))
    }

    /// A header with its checksum computed over the message and the
    /// payload.
    pub fn with_checksum(icmp_type: Icmpv4Type, payload: &[u8]) -> (r: Icmpv4Header)
        ensures
            r.icmp_type == icmp_type,
            r.checksum == r.spec_checksum(payload@),
    {
        let mut h = Icmpv4Header { icmp_type, checksum: 0 };
        let c = match h.calc_checksum_ipv4(payload) {
            Ok(c) => c,
            Err(_) => 0,
        };
        h.checksum = c;
        h
    }

    /// Decode a header from the start of the ICMP section; the
    /// second value of the pair is the message payload after the
    /// header.
    pub fn from_slice<'a>(slice: &'a [u8]) -> (r: Result<(Icmpv4Header, &'a [u8]), ReadError>)
        ensures
            match r {
                Ok((h, rest)) => h.spec_matches(slice@) && rest@ == slice@.skip(
                    h.icmp_type.spec_header_len(),
                ),
                Err(e) => slice@.len() < 8 && e == ReadError::UnexpectedEndOfSlice(8),
            },
    {
        if slice.len() < 8 {
            return Err(ReadError::UnexpectedEndOfSlice(8));
        }
        let type_u8 = slice[0];
        let code_u8 = slice[1];
        let checksum = read_be16(slice, 2);
        let icmp_type: Icmpv4Type = if type_u8 == TYPE_ECHO_REPLY && code_u8 == 0 {
            Icmpv4Type::EchoReply(
                IcmpEchoHeader { id: read_be16(slice, 4), seq: read_be16(slice, 6) },
            )
        } else if type_u8 == TYPE_DEST_UNREACH {
            Icmpv4Type::DestinationUnreachable { code_u8 }
        } else if type_u8 == TYPE_REDIRECT {
            Icmpv4Type::Redirect { code_u8, gateway: read_array4(slice, 4) }
        } else if type_u8 == TYPE_ECHO_REQUEST && code_u8 == 0 {
            Icmpv4Type::EchoRequest(
                IcmpEchoHeader { id: read_be16(slice, 4), seq: read_be16(slice, 6) },
            )
        } else if type_u8 == TYPE_TIME_EXCEEDED {
            Icmpv4Type::TimeExceeded { code_u8 }
        } else if type_u8 == TYPE_PARAMETER_PROBLEM {
            Icmpv4Type::ParameterProblem { code_u8, pointer: slice[4] }
        } else if type_u8 == TYPE_TIMESTAMP && code_u8 == 0 && slice.len() >= 20 {
            Icmpv4Type::TimestampRequest(
                TimestampMessage {
                    id: read_be16(slice, 4),
                    seq: read_be16(slice, 6),
                    originate_timestamp: read_be32(slice, 8),
                    receive_timestamp: read_be32(slice, 12),
                    transmit_timestamp: read_be32(slice, 16),
                },
            )
        } else if type_u8 == TYPE_TIMESTAMP_REPLY && code_u8 == 0 && slice.len() >= 20 {
            Icmpv4Type::TimestampReply(
                TimestampMessage {
                    id: read_be16(slice, 4),
                    seq: read_be16(slice, 6),
                    originate_timestamp: read_be32(slice, 8),
                    receive_timestamp: read_be32(slice, 12),
                    transmit_timestamp: read_be32(slice, 16),
                },
            )
        } else {
            Icmpv4Type::Unknown { type_u8, code_u8, bytes5to8: read_array4(slice, 4) }
        };
        let hl = icmp_type.header_len();
        let rest = slice_subrange(slice, hl, slice.len());
        assert(rest@ =~= slice@.skip(icmp_type.spec_header_len()));
        Ok((Icmpv4Header { icmp_type, checksum }, rest))
    }

    /// A well-formed header decodes from its own encoding, whatever
    /// follows it.
    pub proof fn lemma_matches_own_bytes(h: Icmpv4Header, tail: Seq<u8>)
        requires
            h.wf(),
        ensures
            h.spec_matches(h.spec_bytes() + tail),
    {
        let b = h.spec_bytes() + tail;
        crate::bytes::lemma_be16_roundtrip(h.checksum);
        assert(b[2] == be16_hi(h.checksum) && b[3] == be16_lo(h.checksum));
        assert(b.subrange(4, 8) =~= h.icmp_type.spec_bytes5to8());
        match h.icmp_type {
            Icmpv4Type::Unknown { type_u8, code_u8, bytes5to8 } => {
                assert(bytes5to8@ =~= b.subrange(4, 8));
            },
            Icmpv4Type::EchoReply(e) => {
                crate::bytes::lemma_be16_roundtrip(e.id);
                crate::bytes::lemma_be16_roundtrip(e.seq);
            },
            Icmpv4Type::DestinationUnreachable { .. } => {},
            Icmpv4Type::Redirect { code_u8, gateway } => {
                assert(gateway@ =~= b.subrange(4, 8));
            },
            Icmpv4Type::EchoRequest(e) => {
                crate::bytes::lemma_be16_roundtrip(e.id);
                crate::bytes::lemma_be16_roundtrip(e.seq);
            },
            Icmpv4Type::TimeExceeded { .. } => {},
            Icmpv4Type::ParameterProblem { .. } => {},
            Icmpv4Type::TimestampRequest(m) => {
                crate::bytes::lemma_be16_roundtrip(m.id);
                crate::bytes::lemma_be16_roundtrip(m.seq);
                assert(b[8] == be32_seq(m.originate_timestamp)[0] && b[9] == be32_seq(
                    m.originate_timestamp,
                )[1] && b[10] == be32_seq(m.originate_timestamp)[2] && b[11] == be32_seq(
                    m.originate_timestamp,
                )[3]);
                lemma_be32_roundtrip(m.originate_timestamp);
                assert(b[12] == be32_seq(m.receive_timestamp)[0] && b[13] == be32_seq(
                    m.receive_timestamp,
                )[1] && b[14] == be32_seq(m.receive_timestamp)[2] && b[15] == be32_seq(
                    m.receive_timestamp,
                )[3]);
                lemma_be32_roundtrip(m.receive_timestamp);
                assert(b[16] == be32_seq(m.transmit_timestamp)[0] && b[17] == be32_seq(
                    m.transmit_timestamp,
                )[1] && b[18] == be32_seq(m.transmit_timestamp)[2] && b[19] == be32_seq(
                    m.transmit_timestamp,
                )[3]);
                lemma_be32_roundtrip(m.transmit_timestamp);
            },
            Icmpv4Type::TimestampReply(m) => {
                crate::bytes::lemma_be16_roundtrip(m.id);
                crate::bytes::lemma_be16_roundtrip(m.seq);
                assert(b[8] == be32_seq(m.originate_timestamp)[0] && b[9] == be32_seq(
                    m.originate_timestamp,
                )[1] && b[10] == be32_seq(m.originate_timestamp)[2] && b[11] == be32_seq(
                    m.originate_timestamp,
                )[3]);
                lemma_be32_roundtrip(m.originate_timestamp);
                assert(b[12] == be32_seq(m.receive_timestamp)[0] && b[13] == be32_seq(
                    m.receive_timestamp,
                )[1] && b[14] == be32_seq(m.receive_timestamp)[2] && b[15] == be32_seq(
                    m.receive_timestamp,
                )[3]);
                lemma_be32_roundtrip(m.receive_timestamp);
                assert(b[16] == be32_seq(m.transmit_timestamp)[0] && b[17] == be32_seq(
                    m.transmit_timestamp,
                )[1] && b[18] == be32_seq(m.transmit_timestamp)[2] && b[19] == be32_seq(
                    m.transmit_timestamp,
                )[3]);
                lemma_be32_roundtrip(m.transmit_timestamp);
            },
        }
    }

    /// A buffer decodes to at most one header: the type and code
    /// bytes force the variant, the variant forces the fields.
    pub proof fn lemma_matches_unique(h1: Icmpv4Header, h2: Icmpv4Header, b: Seq<u8>)
        requires
            h1.spec_matches(b),
            h2.spec_matches(b),
        ensures
            h1 == h2,
    {
        match (h1.icmp_type, h2.icmp_type) {
            (
                Icmpv4Type::Unknown { bytes5to8: x, .. },
                Icmpv4Type::Unknown { bytes5to8: y, .. },
            ) => {
                assert(x@ =~= y@);
                assert(x =~= y);
            },
            (
                Icmpv4Type::Redirect { gateway: x, .. },
                Icmpv4Type::Redirect { gateway: y, .. },
            ) => {
                assert(x@ =~= y@);
                assert(x =~= y);
            },
            _ => {},
        }
    }

    /// Decoding the encoding of a header gives the header back.
    pub proof fn lemma_roundtrip(h: Icmpv4Header, h2: Icmpv4Header, tail: Seq<u8>)
        requires
            h.wf(),
            h2.spec_matches(h.spec_bytes() + tail),
        ensures
            h2 == h,
    {
        let b = h.spec_bytes() + tail;
        lemma_be16_bytes(be16_hi(h.checksum), be16_lo(h.checksum));
        match h.icmp_type {
            Icmpv4Type::Unknown { type_u8, code_u8, bytes5to8 } => {
                match h2.icmp_type {
                    Icmpv4Type::Unknown { type_u8: t2, code_u8: c2, bytes5to8: b2 } => {
                        assert(b2@ =~= bytes5to8@);
                        assert(b2 =~= bytes5to8);
                    },
                    _ => {},
                }
            },
            Icmpv4Type::EchoReply(e) => {
                lemma_be16_bytes(be16_hi(e.id), be16_lo(e.id));
                lemma_be16_bytes(be16_hi(e.seq), be16_lo(e.seq));
            },
            Icmpv4Type::DestinationUnreachable { .. } => {},
            Icmpv4Type::Redirect { code_u8, gateway } => {
                match h2.icmp_type {
                    Icmpv4Type::Redirect { code_u8: c2, gateway: g2 } => {
                        assert(g2@ =~= gateway@);
                        assert(g2 =~= gateway);
                    },
                    _ => {},
                }
            },
            Icmpv4Type::EchoRequest(e) => {
                lemma_be16_bytes(be16_hi(e.id), be16_lo(e.id));
                lemma_be16_bytes(be16_hi(e.seq), be16_lo(e.seq));
            },
            Icmpv4Type::TimeExceeded { .. } => {},
            Icmpv4Type::ParameterProblem { .. } => {},
            Icmpv4Type::TimestampRequest(m) => {
                lemma_be16_bytes(be16_hi(m.id), be16_lo(m.id));
                lemma_be16_bytes(be16_hi(m.seq), be16_lo(m.seq));
                assert(b[8] == be32_seq(m.originate_timestamp)[0] && b[9] == be32_seq(
                    m.originate_timestamp,
                )[1] && b[10] == be32_seq(m.originate_timestamp)[2] && b[11] == be32_seq(
                    m.originate_timestamp,
                )[3]);
                lemma_be32_roundtrip(m.originate_timestamp);
                assert(b[12] == be32_seq(m.receive_timestamp)[0] && b[13] == be32_seq(
                    m.receive_timestamp,
                )[1] && b[14] == be32_seq(m.receive_timestamp)[2] && b[15] == be32_seq(
                    m.receive_timestamp,
                )[3]);
                lemma_be32_roundtrip(m.receive_timestamp);
                assert(b[16] == be32_seq(m.transmit_timestamp)[0] && b[17] == be32_seq(
                    m.transmit_timestamp,
                )[1] && b[18] == be32_seq(m.transmit_timestamp)[2] && b[19] == be32_seq(
                    m.transmit_timestamp,
                )[3]);
                lemma_be32_roundtrip(m.transmit_timestamp);
            },
            Icmpv4Type::TimestampReply(m) => {
                lemma_be16_bytes(be16_hi(m.id), be16_lo(m.id));
                lemma_be16_bytes(be16_hi(m.seq), be16_lo(m.seq));
                assert(b[8] == be32_seq(m.originate_timestamp)[0] && b[9] == be32_seq(
                    m.originate_timestamp,
                )[1] && b[10] == be32_seq(m.originate_timestamp)[2] && b[11] == be32_seq(
                    m.originate_timestamp,
                )[3]);
                lemma_be32_roundtrip(m.originate_timestamp);
                assert(b[12] == be32_seq(m.receive_timestamp)[0] && b[13] == be32_seq(
                    m.receive_timestamp,
                )[1] && b[14] == be32_seq(m.receive_timestamp)[2] && b[15] == be32_seq(
                    m.receive_timestamp,
                )[3]);
                lemma_be32_roundtrip(m.receive_timestamp);
                assert(b[16] == be32_seq(m.transmit_timestamp)[0] && b[17] == be32_seq(
                    m.transmit_timestamp,
                )[1] && b[18] == be32_seq(m.transmit_timestamp)[2] && b[19] == be32_seq(
                    m.transmit_timestamp,
                )[3]);
                lemma_be32_roundtrip(m.transmit_timestamp);
            },
        }
    }

    /// A header whose checksum field holds the checksum of message
    /// and payload makes them sum to 0xFFFF: recomputing the
    /// checksum over the emitted bytes yields zero.
    pub proof fn lemma_checksum_verifies(h: Icmpv4Header, payload: Seq<u8>)
        requires
            h.checksum == h.spec_checksum(payload),
        ensures
            checksum16(h.spec_bytes() + payload) == 0,
    {
        let a = seq![h.icmp_type.spec_type_u8(), h.icmp_type.spec_code_u8()];
        let s = h.icmp_type.spec_bytes5to8() + h.icmp_type.spec_trailing() + payload;
        assert(be16_seq(0) =~= seq![0u8, 0u8]);
        assert(h.spec_bytes_with_checksum(0) + payload =~= a + seq![0u8, 0u8] + s);
        assert(h.spec_bytes() + payload =~= a + be16_seq(h.checksum) + s);
        lemma_checksum_verifies(a, s, h.checksum);
    }
}

} // verus!
