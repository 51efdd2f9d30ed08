//! UDP header: 8 fixed bytes, with checksums over the IPv4 or IPv6
//! pseudo-header.

use vstd::prelude::*;

use crate::bytes::{be16, be16_hi, be16_lo, be16_seq, lemma_be16_bytes, read_be16, write_be16};
use crate::checksum::{
    build_pseudo_header_v4, build_pseudo_header_v6, checksum16, checksum_finalize,
    lemma_checksum_verifies, lemma_sum16_append, pseudo_header_v4, pseudo_header_v6, sum16_slice,
};
use crate::err::{ReadError, ValueError};
use crate::ip_number;
use crate::ipv4::Ipv4Header;
use crate::ipv6::Ipv6Header;
use vstd::slice::slice_subrange;

verus! {

/// UDP header: ports, length of header plus payload, checksum.
#[derive(Clone, Copy, Debug, PartialEq, Eq)]
pub struct UdpHeader {
    pub source_port: u16,
    pub destination_port: u16,
    /// Length of the header plus the payload.
    pub length: u16,
    pub checksum: u16,
}

impl UdpHeader {
    /// Number of bytes this header takes on the wire.
    pub const SERIALIZED_SIZE: usize = 8;

    /// Wire encoding with the checksum field set to `ck`.
    pub open spec fn spec_bytes_with_checksum(self, ck: u16) -> Seq<u8> {
        be16_seq(self.source_port) + be16_seq(self.destination_port) + be16_seq(self.length)
            + be16_seq(ck)
    }

    /// Wire encoding of the header.
    pub open spec fn spec_bytes(self) -> Seq<u8> {
        self.spec_bytes_with_checksum(self.checksum)
    }

    /// True when this header is what the first 8 bytes of `b` decode
    /// to.
    pub open spec fn spec_matches(self, b: Seq<u8>) -> bool {
        &&& b.len() >= 8
        &&& self.source_port == be16(b[0], b[1])
        &&& self.destination_port == be16(b[2], b[3])
        &&& self.length == be16(b[4], b[5])
        &&& self.checksum == be16(b[6], b[7])
    }

    /// The checksum of this header over the IPv4 pseudo-header with
    /// the given addresses: a zero fold is sent as 0xFFFF, since a
    /// zero field means "no checksum" on IPv4.
    pub open spec fn spec_checksum_v4(
        self,
        source: Seq<u8>,
        destination: Seq<u8>,
        payload: Seq<u8>,
    ) -> u16 {
        let c = checksum16(
            pseudo_header_v4(source, destination, ip_number::UDP, self.length)
                + self.spec_bytes_with_checksum(0) + payload,
        );
        if c == 0 {
            0xFFFF
        } else {
            c
        }
    }

    /// The checksum of this header over the IPv6 pseudo-header; zero
    /// is illegal on IPv6, so a zero fold is sent as 0xFFFF.
    pub open spec fn spec_checksum_v6(
        self,
        source: Seq<u8>,
        destination: Seq<u8>,
        payload: Seq<u8>,
    ) -> u16 {
        let c = checksum16(
            pseudo_header_v6(source, destination, ip_number::UDP, self.length as u32)
                + self.spec_bytes_with_checksum(0) + payload,
        );
        if c == 0 {
            0xFFFF
        } else {
            c
        }
    }

    /// Decode a header from the start of `slice`; the second value of
    /// the pair is the rest of the slice.
    pub fn from_slice<'a>(slice: &'a [u8]) -> (r: Result<(UdpHeader, &'a [u8]), ReadError>)
        ensures
            match r {
                Ok((h, rest)) => h.spec_matches(slice@) && rest@ == slice@.skip(8),
                Err(e) => slice@.len() < 8 && e == ReadError::UnexpectedEndOfSlice(8),
            },
    {
        if slice.len() < 8 {
            return Err(ReadError::UnexpectedEndOfSlice(8));
        }
        let h = UdpHeader {
            source_port: read_be16(slice, 0),
            destination_port: read_be16(slice, 2),
            length: read_be16(slice, 4),
            checksum: read_be16(slice, 6),
        };
        let rest = slice_subrange(slice, 8, slice.len());
        assert(rest@ =~= slice@.skip(8));
        Ok((h, rest))
    }

    /// Append the wire encoding to `buf`.
    pub fn write(&self, buf: &mut Vec<u8>)
        ensures
            final(buf)@ == old(buf)@ + self.spec_bytes(),
    {
        write_be16(buf, self.source_port);
        write_be16(buf, self.destination_port);
        write_be16(buf, self.length);
        write_be16(buf, self.checksum);
        assert(buf@ =~= old(buf)@ + self.spec_bytes());
    }

    /// Number of bytes this header takes on the wire.
    pub fn header_len(&self) -> (r: usize)
        ensures
            r == self.spec_bytes().len(),
    {
        8
    }

    /// A header without a checksum (permitted on IPv4 only): length
    /// set from the payload, checksum zero. Fails when the payload
    /// does not fit the length field.
    pub fn without_ipv4_checksum(source_port: u16, destination_port: u16, payload_length: usize)
        -> (r: Result<UdpHeader, ValueError>)
        ensures
            match r {
                Ok(h) => payload_length + 8 <= 0xFFFF && h == (UdpHeader {
                    source_port,
                    destination_port,
                    length: (payload_length + 8) as u16,
                    checksum: 0,
                }),
                Err(e) => payload_length + 8 > 0xFFFF && e
                    == ValueError::UdpPayloadLengthTooLarge(payload_length),
            },
    {
        if payload_length > 0xFFFF - 8 {
            return Err(ValueError::UdpPayloadLengthTooLarge(payload_length));
        }
        Ok(
            UdpHeader {
                source_port,
                destination_port,
                length: (payload_length + 8) as u16,
                checksum: 0,
            },
        )
    }

    /// The checksum for this header over the IPv4 pseudo-header built
    /// from `ip`. Fails when the payload does not fit the length
    /// field.
    pub fn calc_checksum_ipv4(&self, ip: &Ipv4Header, payload: &[u8]) -> (r: Result<
        u16,
        ValueError,
    >)
        ensures
            match r {
                Ok(c) => payload@.len() + 8 <= 0xFFFF && c == self.spec_checksum_v4(
                    ip.source@,
                    ip.destination@,
                    payload@,
                ),
                Err(e) => payload@.len() + 8 > 0xFFFF && e
                    == ValueError::UdpPayloadLengthTooLarge(payload@.len() as usize),
            },
    {
        if payload.len() > 0xFFFF - 8 {
            return Err(ValueError::UdpPayloadLengthTooLarge(payload.len()));
        }
        Ok(self.calc_checksum_ipv4_raw(&ip.source, &ip.destination, payload))
    }

    /// The checksum over the IPv4 pseudo-header with the given
    /// addresses.
    fn calc_checksum_ipv4_raw(&self, source: &[u8; 4], destination: &[u8; 4], payload: &[u8])
        -> (r: u16)
        ensures
            r == self.spec_checksum_v4(source@, destination@, payload@),
    {
        let pseudo = build_pseudo_header_v4(source, destination, ip_number::UDP, self.length);
        let zeroed = UdpHeader { checksum: 0, ..*self };
        let mut hdr: Vec<u8> = Vec::new();
        zeroed.write(&mut hdr);
        assert(hdr@ == self.spec_bytes_with_checksum(0));
        let s1 = sum16_slice(pseudo.as_slice(), 0);
        let s2 = sum16_slice(hdr.as_slice(), s1);
        let s3 = sum16_slice(payload, s2);
        proof {
            let p = pseudo@;
            let h0 = self.spec_bytes_with_checksum(0);
            lemma_sum16_append(p, h0 + payload@, 0);
            lemma_sum16_append(h0, payload@, s1);
            assert(p + (h0 + payload@) =~= p + h0 + payload@);
        }
        let c = checksum_finalize(s3);
        if c == 0 {
            0xFFFF
        } else {
            c
        }
    }

    /// The checksum for this header over the IPv6 pseudo-header built
    /// from `ip`. Fails when the payload does not fit the length
    /// field.
    pub fn calc_checksum_ipv6(&self, ip: &Ipv6Header, payload: &[u8]) -> (r: Result<
        u16,
        ValueError,
    >)
        ensures
            match r {
                Ok(c) => payload@.len() + 8 <= 0xFFFF && c == self.spec_checksum_v6(
                    ip.source@,
                    ip.destination@,
                    payload@,
                ),
                Err(e) => payload@.len() + 8 > 0xFFFF && e
                    == ValueError::UdpPayloadLengthTooLarge(payload@.len() as usize),
            },
    {
        if payload.len() > 0xFFFF - 8 {
            return Err(ValueError::UdpPayloadLengthTooLarge(payload.len()));
        }
        let pseudo = build_pseudo_header_v6(
            &ip.source,
            &ip.destination,
            ip_number::UDP,
            self.length as u32,
        );
        let zeroed = UdpHeader { checksum: 0, ..*self };
        let mut hdr: Vec<u8> = Vec::new();
        zeroed.write(&mut hdr);
        assert(hdr@ == self.spec_bytes_with_checksum(0));
        let s1 = sum16_slice(pseudo.as_slice(), 0);
        let s2 = sum16_slice(hdr.as_slice(), s1);
        let s3 = sum16_slice(payload, s2);
        proof {
            let p = pseudo@;
            let h0 = self.spec_bytes_with_checksum(0);
            lemma_sum16_append(p, h0 + payload@, 0);
            lemma_sum16_append(h0, payload@, s1);
            assert(p + (h0 + payload@) =~= p + h0 + payload@);
        }
        let c = checksum_finalize(s3);
        if c == 0 {
            Ok(0xFFFF)
        } else {
            Ok(c)
        }
    }

    /// A header with its length set from the payload and its checksum
    /// computed over the IPv4 pseudo-header.
    pub fn with_ipv4_checksum(
        source_port: u16,
        destination_port: u16,
        ip: &Ipv4Header,
        payload: &[u8],
    ) -> (r: Result<UdpHeader, ValueError>)
        ensures
            match r {
                Ok(h) => payload@.len() + 8 <= 0xFFFF && h.source_port == source_port
                    && h.destination_port == destination_port && h.length == payload@.len() + 8
                    && h.checksum == h.spec_checksum_v4(ip.source@, ip.destination@, payload@),
                Err(e) => payload@.len() + 8 > 0xFFFF && e
                    == ValueError::UdpPayloadLengthTooLarge(payload@.len() as usize),
            },
    {
        if payload.len() > 0xFFFF - 8 {
            return Err(ValueError::UdpPayloadLengthTooLarge(payload.len()));
        }
        let mut h = UdpHeader {
            source_port,
            destination_port,
            length: (payload.len() + 8) as u16,
            checksum: 0,
        };
        h.checksum = h.calc_checksum_ipv4_raw(&ip.source, &ip.destination, payload);
        Ok(h)
    }

    /// A header with its length set from the payload and its checksum
    /// computed over the IPv6 pseudo-header.
    pub fn with_ipv6_checksum(
        source_port: u16,
        destination_port: u16,
        ip: &Ipv6Header,
        payload: &[u8],
    ) -> (r: Result<UdpHeader, ValueError>)
        ensures
            match r {
                Ok(h) => payload@.len() + 8 <= 0xFFFF && h.source_port == source_port
                    && h.destination_port == destination_port && h.length == payload@.len() + 8
                    && h.checksum == h.spec_checksum_v6(ip.source@, ip.destination@, payload@),
                Err(e) => payload@.len() + 8 > 0xFFFF && e
                    == ValueError::UdpPayloadLengthTooLarge(payload@.len() as usize),
            },
    {
        if payload.len() > 0xFFFF - 8 {
            return Err(ValueError::UdpPayloadLengthTooLarge(payload.len()));
        }
        let mut h = UdpHeader {
            source_port,
            destination_port,
            length: (payload.len() + 8) as u16,
            checksum: 0,
        };
        match h.calc_checksum_ipv6(ip, payload) {
            Ok(c) => {
                h.checksum = c;
                Ok(h)
            },
            Err(e) => Err(e),
        }
    }

    /// A header decodes from its own encoding, whatever follows it.
    pub proof fn lemma_matches_own_bytes(h: UdpHeader, tail: Seq<u8>)
        ensures
            h.spec_matches(h.spec_bytes() + tail),
    {
        crate::bytes::lemma_be16_roundtrip(h.source_port);
        crate::bytes::lemma_be16_roundtrip(h.destination_port);
        crate::bytes::lemma_be16_roundtrip(h.length);
        crate::bytes::lemma_be16_roundtrip(h.checksum);
    }

    /// A buffer decodes to at most one header.
    pub proof fn lemma_matches_unique(h1: UdpHeader, h2: UdpHeader, b: Seq<u8>)
        requires
            h1.spec_matches(b),
            h2.spec_matches(b),
        ensures
            h1 == h2,
    {
    }

    /// Decoding the encoding of a header gives the header back.
    pub proof fn lemma_roundtrip(h: UdpHeader, h2: UdpHeader, tail: Seq<u8>)
        requires
            h2.spec_matches(h.spec_bytes() + tail),
        ensures
            h2 == h,
    {
        let b = h.spec_bytes() + tail;
        lemma_be16_bytes(be16_hi(h.source_port), be16_lo(h.source_port));
        lemma_be16_bytes(be16_hi(h.destination_port), be16_lo(h.destination_port));
        lemma_be16_bytes(be16_hi(h.length), be16_lo(h.length));
        lemma_be16_bytes(be16_hi(h.checksum), be16_lo(h.checksum));
    }

    /// A header whose checksum field holds the checksum this header
    /// calls for makes pseudo-header, header and payload sum to
    /// 0xFFFF: recomputing the checksum over them yields zero. This
    /// holds on IPv4 and IPv6 alike.
    pub proof fn lemma_checksum_verifies_v4(
        h: UdpHeader,
        source: Seq<u8>,
        destination: Seq<u8>,
        payload: Seq<u8>,
    )
        requires
            source.len() == 4,
            destination.len() == 4,
            h.checksum == h.spec_checksum_v4(source, destination, payload),
        ensures
            checksum16(
                pseudo_header_v4(source, destination, ip_number::UDP, h.length) + h.spec_bytes()
                    + payload,
            ) == 0,
    {
        let p = pseudo_header_v4(source, destination, ip_number::UDP, h.length);
        let a = p + be16_seq(h.source_port) + be16_seq(h.destination_port) + be16_seq(h.length);
        assert(be16_seq(0) =~= seq![0u8, 0u8]);
        assert(p + h.spec_bytes_with_checksum(0) + payload =~= a + seq![0u8, 0u8] + payload);
        assert(p + h.spec_bytes() + payload =~= a + be16_seq(h.checksum) + payload);
        assert(a.len() % 2 == 0);
        lemma_checksum_verifies(a, payload, h.checksum);
    }

    /// The IPv6 counterpart of `lemma_checksum_verifies_v4`.
    pub proof fn lemma_checksum_verifies_v6(
        h: UdpHeader,
        source: Seq<u8>,
        destination: Seq<u8>,
        payload: Seq<u8>,
    )
        requires
            source.len() == 16,
            destination.len() == 16,
            h.checksum == h.spec_checksum_v6(source, destination, payload),
        ensures
            checksum16(
                pseudo_header_v6(source, destination, ip_number::UDP, h.length as u32)
                    + h.spec_bytes() + payload,
            ) == 0,
    {
        let p = pseudo_header_v6(source, destination, ip_number::UDP, h.length as u32);
        let a = p + be16_seq(h.source_port) + be16_seq(h.destination_port) + be16_seq(h.length);
        assert(be16_seq(0) =~= seq![0u8, 0u8]);
        assert(p + h.spec_bytes_with_checksum(0) + payload =~= a + seq![0u8, 0u8] + payload);
        assert(p + h.spec_bytes() + payload =~= a + be16_seq(h.checksum) + payload);
        assert(a.len() % 2 == 0);
        lemma_checksum_verifies(a, payload, h.checksum);
    }
}

} // verus!
