//! IPv4 header with its variable options and its header checksum.

use vstd::prelude::*;

use crate::bytes::{
    be16, be16_hi, be16_lo, be16_seq, lemma_be16_bytes, push_slice, read_array4, read_be16,
    read_padded, write_be16,
};
use crate::checksum::{checksum16, lemma_checksum_verifies, sum16_slice, checksum_finalize};
use crate::err::{ReadError, ValueError};
use vstd::slice::slice_subrange;

verus! {

broadcast use vstd::array::group_array_axioms;

/// IPv4 header. The version field is always 4 and is not stored; the
/// header length is carried by the length of the options.
#[derive(Clone, Copy, Debug, PartialEq, Eq)]
pub struct Ipv4Header {
    /// Differentiated services code point, 6 bits.
    pub differentiated_services_code_point: u8,
    /// Explicit congestion notification, 2 bits.
    pub explicit_congestion_notification: u8,
    /// Length of everything after the header: the total length field
    /// on the wire holds the header length plus this.
    pub payload_len: u16,
    pub identification: u16,
    pub dont_fragment: bool,
    pub more_fragments: bool,
    /// Fragment offset in 8 byte units, 13 bits.
    pub fragments_offset: u16,
    pub time_to_live: u8,
    pub protocol: u8,
    pub header_checksum: u16,
    pub source: [u8; 4],
    pub destination: [u8; 4],
    /// Option bytes; only the first `options_len` count, the rest is
    /// zero padding.
    pub options_buf: [u8; 40],
    /// Length of the options in bytes: at most 40, a multiple of 4.
    pub options_len: u8,
}

impl Ipv4Header {
    /// Number of bytes the option-less header takes on the wire.
    pub const SERIALIZED_SIZE: usize = 20;

    /// The option bytes.
    pub open spec fn spec_options(self) -> Seq<u8> {
        self.options_buf@.take(self.options_len as int)
    }

    /// Field ranges that fit the packed words, options in range with
    /// zero padding, and a total length that fits its field.
    pub open spec fn wf(self) -> bool {
        &&& self.differentiated_services_code_point < 64
        &&& self.explicit_congestion_notification < 4
        &&& self.fragments_offset < 0x2000
        &&& self.options_len <= 40
        &&& self.options_len % 4 == 0
        &&& (forall|i: int| self.options_len <= i < 40 ==> self.options_buf@[i] == 0)
        &&& 20 + self.options_len + self.payload_len <= 0xFFFF
    }

    /// Header length on the wire: 20 bytes plus the options.
    pub open spec fn spec_header_len(self) -> int {
        20 + self.options_len
    }

    /// The value of the total length field: header plus payload.
    pub open spec fn spec_total_len(self) -> int {
        20 + self.options_len + self.payload_len
    }

    /// Wire encoding with the checksum field set to `ck`.
    pub open spec fn spec_bytes_with_checksum(self, ck: u16) -> Seq<u8> {
        seq![
            (0x40 + 5 + self.options_len / 4) as u8,
            (self.differentiated_services_code_point * 4
                + self.explicit_congestion_notification) as u8,
        ] + be16_seq(self.spec_total_len() as u16) + be16_seq(self.identification) + seq![
            ((if self.dont_fragment {
                64u8
            } else {
                0u8
            }) + (if self.more_fragments {
                32u8
            } else {
                0u8
            }) + self.fragments_offset / 256) as u8,
            (self.fragments_offset % 256) as u8,
            self.time_to_live,
            self.protocol,
        ] + be16_seq(ck) + self.source@ + self.destination@ + self.spec_options()
    }

    /// Wire encoding of the header.
    pub open spec fn spec_bytes(self) -> Seq<u8> {
        self.spec_bytes_with_checksum(self.header_checksum)
    }

    /// The checksum that belongs to this header: the internet
    /// checksum of its bytes with a zeroed checksum field.
    pub open spec fn spec_header_checksum(self) -> u16 {
        checksum16(self.spec_bytes_with_checksum(0))
    }

    /// True when this header is what the start of `b` decodes to.
    pub open spec fn spec_matches(self, b: Seq<u8>) -> bool {
        &&& b.len() >= 20
        &&& b[0] / 16 == 4
        &&& b[0] % 16 >= 5
        &&& b.len() >= (b[0] % 16) * 4
        &&& self.options_len == (b[0] % 16) * 4 - 20
        &&& self.differentiated_services_code_point == b[1] / 4
        &&& self.explicit_congestion_notification == b[1] % 4
        &&& be16(b[2], b[3]) >= (b[0] % 16) * 4
        &&& self.payload_len == be16(b[2], b[3]) - (b[0] % 16) * 4
        &&& self.identification == be16(b[4], b[5])
        &&& self.dont_fragment == ((b[6] / 64) % 2 == 1)
        &&& self.more_fragments == ((b[6] / 32) % 2 == 1)
        &&& self.fragments_offset == (b[6] % 32) * 256 + b[7]
        &&& self.time_to_live == b[8]
        &&& self.protocol == b[9]
        &&& self.header_checksum == be16(b[10], b[11])
        &&& self.source@ == b.subrange(12, 16)
        &&& self.destination@ == b.subrange(16, 20)
        &&& self.spec_options() == b.subrange(20, (b[0] % 16) * 4)
        &&& (forall|i: int| self.options_len <= i < 40 ==> self.options_buf@[i] == 0)
    }

    /// True for a header fresh from `new`: the given fields set,
    /// everything else zero or clear, no options.
    pub open spec fn spec_is_fresh(
        self,
        payload_len: u16,
        time_to_live: u8,
        protocol: u8,
        source: [u8; 4],
        destination: [u8; 4],
    ) -> bool {
        &&& self.differentiated_services_code_point == 0
        &&& self.explicit_congestion_notification == 0
        &&& self.payload_len == payload_len
        &&& self.identification == 0
        &&& !self.dont_fragment
        &&& !self.more_fragments
        &&& self.fragments_offset == 0
        &&& self.time_to_live == time_to_live
        &&& self.protocol == protocol
        &&& self.header_checksum == 0
        &&& self.source == source
        &&& self.destination == destination
        &&& self.options_len == 0
        &&& (forall|i: int| 0 <= i < 40 ==> self.options_buf@[i] == 0)
    }

    /// A header without options: total length = 20 + `payload_len`,
    /// no fragmentation, zero service classes, checksum left zero.
    pub fn new(payload_len: u16, time_to_live: u8, protocol: u8, source: [u8; 4], destination: [
        u8;
        4
    ]) -> (r: Ipv4Header)
        ensures
            r.differentiated_services_code_point == 0,
            r.explicit_congestion_notification == 0,
            r.payload_len == payload_len,
            r.identification == 0,
            !r.dont_fragment,
            !r.more_fragments,
            r.fragments_offset == 0,
            r.time_to_live == time_to_live,
            r.protocol == protocol,
            r.header_checksum == 0,
            r.source == source,
            r.destination == destination,
            r.options_len == 0,
            r.spec_options() == Seq::<u8>::empty(),
            payload_len <= 0xFFFF - 20 ==> r.wf(),
            r.spec_is_fresh(payload_len, time_to_live, protocol, source, destination),
    {
        let r = Ipv4Header {
            differentiated_services_code_point: 0,
            explicit_congestion_notification: 0,
            payload_len,
            identification: 0,
            dont_fragment: false,
            more_fragments: false,
            fragments_offset: 0,
            time_to_live,
            protocol,
            header_checksum: 0,
            source,
            destination,
            options_buf: [0; 40],
            options_len: 0,
        };
        assert(r.spec_options() =~= Seq::<u8>::empty());
        r
    }

    /// Largest payload the total length field leaves room for.
    pub fn max_payload_len(&self) -> (r: u16)
        requires
            self.options_len <= 40,
        ensures
            r == 0xFFFF - 20 - self.options_len,
    {
        0xFFFF - 20 - (self.options_len as u16)
    }

    /// Replace the options. Fails when the data is longer than 40
    /// bytes or not a multiple of 4; the header is unchanged then.
    pub fn set_options(&mut self, data: &[u8]) -> (r: Result<(), ValueError>)
        ensures
            match r {
                Ok(()) => data@.len() <= 40 && data@.len() % 4 == 0 && *final(self) == Ipv4Header {
                    options_buf: final(self).options_buf,
                    options_len: final(self).options_len,
                    ..*old(self)
                } && final(self).options_len == data@.len() && final(self).spec_options() == data@
                    && (forall|i: int|
                    data@.len() <= i < 40 ==> final(self).options_buf@[i] == 0),
                Err(e) => (data@.len() > 40 || data@.len() % 4 != 0) && e
                    == ValueError::Ipv4OptionsLengthBad(data@.len() as usize) && *final(self)
                    == *old(self),
            },
    {
        if data.len() > 40 || data.len() % 4 != 0 {
            return Err(ValueError::Ipv4OptionsLengthBad(data.len()));
        }
        self.options_buf = read_padded(data, 0, data.len());
        self.options_len = data.len() as u8;
        assert(self.spec_options() =~= data@);
        Ok(())
    }

    /// The option bytes.
    pub fn options<'a>(&'a self) -> (r: &'a [u8])
        requires
            self.options_len <= 40,
        ensures
            r@ == self.spec_options(),
    {
        let r = slice_subrange(self.options_buf.as_slice(), 0, self.options_len as usize);
        assert(r@ =~= self.spec_options());
        r
    }

    /// Number of bytes this header takes on the wire.
    pub fn header_len(&self) -> (r: usize)
        ensures
            r == self.spec_header_len(),
            self.wf() ==> r == self.spec_bytes().len(),
    {
        20 + self.options_len as usize
    }

    /// True when this header belongs to a fragmented payload: more
    /// fragments follow or a fragment offset is set.
    pub fn is_fragmenting_payload(&self) -> (r: bool)
        ensures
            r == (self.more_fragments || self.fragments_offset != 0),
    {
        self.more_fragments || self.fragments_offset != 0
    }

    /// Decode a header from the start of `slice`; the second value of
    /// the pair is the rest of the slice (the IP payload plus
    /// whatever follows it).
    pub fn from_slice<'a>(slice: &'a [u8]) -> (r: Result<(Ipv4Header, &'a [u8]), ReadError>)
        ensures
            match r {
                Ok((h, rest)) => h.spec_matches(slice@) && rest@ == slice@.skip(
                    (slice@[0] % 16) * 4,
                ),
                Err(e) => match e {
                    ReadError::UnexpectedEndOfSlice(n) => slice@.len() < n && (n == 20 || (
                    slice@.len() >= 20 && n == (slice@[0] % 16) * 4)),
                    ReadError::Ipv4UnexpectedVersion(v) => slice@.len() >= 20 && v == slice@[0]
                        / 16 && v != 4,
                    ReadError::Ipv4HeaderLengthBad(l) => slice@.len() >= 20 && slice@[0] / 16 == 4
                        && l == slice@[0] % 16 && l < 5,
                    ReadError::Ipv4TotalLengthTooSmall(t) => slice@.len() >= 20 && slice@[0] / 16
                        == 4 && slice@[0] % 16 >= 5 && slice@.len() >= (slice@[0] % 16) * 4 && t
                        == be16(slice@[2], slice@[3]) && t < (slice@[0] % 16) * 4,
                    _ => false,
                },
            },
    {
        if slice.len() < 20 {
            return Err(ReadError::UnexpectedEndOfSlice(20));
        }
        let b0 = slice[0];
        let version = b0 / 16;
        if version != 4 {
            return Err(ReadError::Ipv4UnexpectedVersion(version));
        }
        let ihl = b0 % 16;
        if ihl < 5 {
            return Err(ReadError::Ipv4HeaderLengthBad(ihl));
        }
        let header_length: usize = (ihl as usize) * 4;
        if slice.len() < header_length {
            return Err(ReadError::UnexpectedEndOfSlice(header_length));
        }
        let total_len = read_be16(slice, 2);
        if (total_len as usize) < header_length {
            return Err(ReadError::Ipv4TotalLengthTooSmall(total_len));
        }
        let b1 = slice[1];
        let b6 = slice[6];
        let h = Ipv4Header {
            differentiated_services_code_point: b1 / 4,
            explicit_congestion_notification: b1 % 4,
            payload_len: total_len - (header_length as u16),
            identification: read_be16(slice, 4),
            dont_fragment: (b6 / 64) % 2 == 1,
            more_fragments: (b6 / 32) % 2 == 1,
            fragments_offset: ((b6 % 32) as u16) * 256 + (slice[7] as u16),
            time_to_live: slice[8],
            protocol: slice[9],
            header_checksum: read_be16(slice, 10),
            source: read_array4(slice, 12),
            destination: read_array4(slice, 16),
            options_buf: read_padded(slice, 20, header_length - 20),
            options_len: (header_length - 20) as u8,
        };
        let rest = slice_subrange(slice, header_length, slice.len());
        assert(rest@ =~= slice@.skip((slice@[0] % 16) * 4));
        assert(h.spec_options() =~= slice@.subrange(20, (slice@[0] % 16) * 4));
        Ok((h, rest))
    }

    /// Append the wire encoding with the checksum field `ck`.
    fn write_with_checksum(&self, buf: &mut Vec<u8>, ck: u16)
        requires
            self.wf(),
        ensures
            final(buf)@ == old(buf)@ + self.spec_bytes_with_checksum(ck),
    {
        buf.push(0x40 + 5 + self.options_len / 4);
        buf.push(
            self.differentiated_services_code_point * 4 + self.explicit_congestion_notification,
        );
        write_be16(buf, 20 + (self.options_len as u16) + self.payload_len);
        write_be16(buf, self.identification);
        let df: u8 = if self.dont_fragment {
            64
        } else {
            0
        };
        let mf: u8 = if self.more_fragments {
            32
        } else {
            0
        };
        buf.push(df + mf + (self.fragments_offset / 256) as u8);
        buf.push((self.fragments_offset % 256) as u8);
        buf.push(self.time_to_live);
        buf.push(self.protocol);
        write_be16(buf, ck);
        push_slice(buf, self.source.as_slice());
        push_slice(buf, self.destination.as_slice());
        let opts = slice_subrange(self.options_buf.as_slice(), 0, self.options_len as usize);
        assert(opts@ =~= self.spec_options());
        push_slice(buf, opts);
        assert(buf@ =~= old(buf)@ + self.spec_bytes_with_checksum(ck));
    }

    /// Append the wire encoding to `buf`, checksum field as stored.
    pub fn write(&self, buf: &mut Vec<u8>)
        requires
            self.wf(),
        ensures
            final(buf)@ == old(buf)@ + self.spec_bytes(),
    {
        self.write_with_checksum(buf, self.header_checksum);
    }

    /// The internet checksum over the header with a zeroed checksum
    /// field: the value the checksum field must carry on the wire.
    pub fn calc_header_checksum(&self) -> (r: Result<u16, ValueError>)
        requires
            self.differentiated_services_code_point < 64,
            self.explicit_congestion_notification < 4,
            self.fragments_offset < 0x2000,
            forall|i: int| self.options_len <= i < 40 ==> self.options_buf@[i] == 0,
        ensures
            match r {
                Ok(c) => self.wf() && c == self.spec_header_checksum(),
                Err(e) => !self.wf() && match e {
                    ValueError::Ipv4OptionsLengthBad(l) => l == self.options_len && (
                    self.options_len > 40 || self.options_len % 4 != 0),
                    ValueError::Ipv4PayloadLengthTooLarge(l) => l == self.payload_len
                        && self.options_len <= 40 && self.options_len % 4 == 0 && 20
                        + self.options_len + self.payload_len > 0xFFFF,
                    _ => false,
                },
            },
    {
        if self.options_len > 40 || self.options_len % 4 != 0 {
            return Err(ValueError::Ipv4OptionsLengthBad(self.options_len as usize));
        }
        if (self.payload_len as usize) > 0xFFFF - 20 - (self.options_len as usize) {
            return Err(ValueError::Ipv4PayloadLengthTooLarge(self.payload_len as usize));
        }
        let mut hdr: Vec<u8> = Vec::new();
        self.write_with_checksum(&mut hdr, 0);
        let s = sum16_slice(hdr.as_slice(), 0);
        Ok(checksum_finalize(s))
    }

    /// A header decodes from its own encoding, whatever follows it.
    pub proof fn lemma_matches_own_bytes(h: Ipv4Header, tail: Seq<u8>)
        requires
            h.wf(),
        ensures
            h.spec_matches(h.spec_bytes() + tail),
    {
        let b = h.spec_bytes() + tail;
        let ol = h.options_len;
        let fo = h.fragments_offset;
        let dscp = h.differentiated_services_code_point;
        let ecn = h.explicit_congestion_notification;
        let df: u8 = if h.dont_fragment {
            64u8
        } else {
            0u8
        };
        let mf: u8 = if h.more_fragments {
            32u8
        } else {
            0u8
        };
        assert(b[0] == (0x40 + 5 + ol / 4) as u8);
        assert((0x45 + ol / 4) / 16 == 4 && (0x45 + ol / 4) % 16 == 5 + ol / 4)
            by (nonlinear_arith)
            requires
                ol <= 40,
        ;
        assert((5 + ol / 4) * 4 - 20 == ol as int) by (nonlinear_arith)
            requires
                ol <= 40 && ol % 4 == 0,
        ;
        assert(b[1] == (dscp * 4 + ecn) as u8);
        assert((dscp * 4 + ecn) / 4 == dscp as int && (dscp * 4 + ecn) % 4 == ecn as int)
            by (nonlinear_arith)
            requires
                dscp < 64 && ecn < 4,
        ;
        let total = (20 + ol + h.payload_len) as u16;
        assert(b[2] == be16_hi(total) && b[3] == be16_lo(total));
        crate::bytes::lemma_be16_roundtrip(total);
        assert(b[4] == be16_hi(h.identification) && b[5] == be16_lo(h.identification));
        crate::bytes::lemma_be16_roundtrip(h.identification);
        assert(b[6] == (df + mf + fo / 256) as u8);
        assert(((df + mf + fo / 256) / 64) % 2 == df as int / 64 && ((df + mf + fo / 256) / 32) % 2
            == mf as int / 32 && ((df + mf + fo / 256) % 32) * 256 + fo % 256 == fo as int)
            by (nonlinear_arith)
            requires
                (df == 0 || df == 64) && (mf == 0 || mf == 32) && fo < 0x2000,
        ;
        assert(b[10] == be16_hi(h.header_checksum) && b[11] == be16_lo(h.header_checksum));
        crate::bytes::lemma_be16_roundtrip(h.header_checksum);
        assert(h.source@ =~= b.subrange(12, 16));
        assert(h.destination@ =~= b.subrange(16, 20));
        assert(h.spec_options() =~= b.subrange(20, (b[0] % 16) * 4));
    }

    /// A buffer decodes to at most one header.
    pub proof fn lemma_matches_unique(h1: Ipv4Header, h2: Ipv4Header, b: Seq<u8>)
        requires
            h1.spec_matches(b),
            h2.spec_matches(b),
        ensures
            h1 == h2,
    {
        assert(h1.source@ =~= h2.source@);
        assert(h1.destination@ =~= h2.destination@);
        assert(h1.source =~= h2.source);
        assert(h1.destination =~= h2.destination);
        assert(h1.spec_options() =~= h2.spec_options());
        assert forall|i: int| 0 <= i < 40 implies h1.options_buf@[i] == h2.options_buf@[i] by {
            if i < h1.options_len {
                assert(h1.spec_options()[i] == h2.spec_options()[i]);
            }
        }
        assert(h1.options_buf =~= h2.options_buf);
    }

    /// Decoding the encoding of a header gives the header back.
    pub proof fn lemma_roundtrip(h: Ipv4Header, h2: Ipv4Header, tail: Seq<u8>)
        requires
            h.wf(),
            h2.spec_matches(h.spec_bytes() + tail),
        ensures
            h2 == h,
    {
        let b = h.spec_bytes() + tail;
        let ol = h.options_len;
        let fo = h.fragments_offset;
        let dscp = h.differentiated_services_code_point;
        let ecn = h.explicit_congestion_notification;
        let df: u8 = if h.dont_fragment {
            64u8
        } else {
            0u8
        };
        let mf: u8 = if h.more_fragments {
            32u8
        } else {
            0u8
        };
        assert(b[0] == (0x40 + 5 + ol / 4) as u8);
        assert((0x45 + ol / 4) / 16 == 4 && (0x45 + ol / 4) % 16 == 5 + ol / 4)
            by (nonlinear_arith)
            requires
                ol <= 40,
        ;
        assert((5 + ol / 4) * 4 - 20 == ol as int) by (nonlinear_arith)
            requires
                ol <= 40 && ol % 4 == 0,
        ;
        assert(b[1] == (dscp * 4 + ecn) as u8);
        assert((dscp * 4 + ecn) / 4 == dscp as int && (dscp * 4 + ecn) % 4 == ecn as int)
            by (nonlinear_arith)
            requires
                dscp < 64 && ecn < 4,
        ;
        let total = (20 + ol + h.payload_len) as u16;
        assert(b[2] == be16_hi(total) && b[3] == be16_lo(total));
        lemma_be16_bytes(be16_hi(total), be16_lo(total));
        assert(b[4] == be16_hi(h.identification) && b[5] == be16_lo(h.identification));
        lemma_be16_bytes(be16_hi(h.identification), be16_lo(h.identification));
        assert(b[6] == (df + mf + fo / 256) as u8);
        assert(((df + mf + fo / 256) / 64) % 2 == df as int / 64 && ((df + mf + fo / 256) / 32) % 2
            == mf as int / 32 && ((df + mf + fo / 256) % 32) * 256 + fo % 256 == fo as int)
            by (nonlinear_arith)
            requires
                (df == 0 || df == 64) && (mf == 0 || mf == 32) && fo < 0x2000,
        ;
        assert(b[10] == be16_hi(h.header_checksum) && b[11] == be16_lo(h.header_checksum));
        lemma_be16_bytes(be16_hi(h.header_checksum), be16_lo(h.header_checksum));
        assert(h2.source@ =~= h.source@);
        assert(h2.destination@ =~= h.destination@);
        assert(h2.source =~= h.source);
        assert(h2.destination =~= h.destination);
        assert(h2.spec_options() =~= h.spec_options());
        assert forall|i: int| 0 <= i < 40 implies h2.options_buf@[i] == h.options_buf@[i] by {
            if i < ol {
                assert(h2.spec_options()[i] == h.spec_options()[i]);
            }
        }
        assert(h2.options_buf =~= h.options_buf);
    }

    /// Writing the checksum this header calls for makes the header
    /// sum to zero again: recomputing the internet checksum over the
    /// emitted header bytes yields zero.
    pub proof fn lemma_header_checksum_verifies(h: Ipv4Header)
        requires
            h.wf(),
            h.header_checksum == h.spec_header_checksum(),
        ensures
            checksum16(h.spec_bytes()) == 0,
    {
        let a = h.spec_bytes_with_checksum(0).take(10);
        let s = h.spec_bytes_with_checksum(0).skip(12);
        assert(be16_seq(0) =~= seq![0u8, 0u8]);
        assert(h.spec_bytes_with_checksum(0) =~= a + seq![0u8, 0u8] + s);
        assert(h.spec_bytes() =~= a + be16_seq(h.header_checksum) + s);
        lemma_checksum_verifies(a, s, h.header_checksum);
    }
}

} // verus!
