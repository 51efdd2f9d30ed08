//! TCP header: 20 fixed bytes plus options, nine independent flag
//! bits, and checksums over the IPv4 or IPv6 pseudo-header.

use vstd::prelude::*;

use crate::bytes::{
    be16, be16_hi, be16_lo, be16_seq, be32, be32_seq, lemma_be16_bytes, lemma_be32_roundtrip,
    push_slice, read_be16, read_be32, read_padded, write_be16, write_be32,
};
use crate::checksum::{
    build_pseudo_header_v4, build_pseudo_header_v6, checksum16, checksum_finalize,
    lemma_checksum_verifies, lemma_sum16_append, pseudo_header_v4, pseudo_header_v6, sum16_slice,
};
use crate::err::{ReadError, ValueError};
use crate::ip_number;
use crate::ipv4::Ipv4Header;
use crate::ipv6::Ipv6Header;
use vstd::slice::slice_subrange;

verus! {

broadcast use vstd::array::group_array_axioms;

/// TCP header. The data offset is carried by the length of the
/// options.
#[derive(Clone, Copy, Debug, PartialEq, Eq)]
pub struct TcpHeader {
    pub source_port: u16,
    pub destination_port: u16,
    pub sequence_number: u32,
    pub acknowledgment_number: u32,
    pub ns: bool,
    pub fin: bool,
    pub syn: bool,
    pub rst: bool,
    pub psh: bool,
    pub ack: bool,
    pub urg: bool,
    pub ece: bool,
    pub cwr: bool,
    pub window_size: u16,
    pub checksum: u16,
    pub urgent_pointer: u16,
    /// Option bytes; only the first `options_len` count, the rest is
    /// zero padding.
    pub options_buf: [u8; 40],
    /// Length of the options in bytes: at most 40, a multiple of 4.
    pub options_len: u8,
}

/// The flags byte: one bit for each of the eight low flags.
pub open spec fn spec_flags_byte(h: TcpHeader) -> u8 {
    ((if h.cwr {
        128int
    } else {
        0int
    }) + (if h.ece {
        64int
    } else {
        0int
    }) + (if h.urg {
        32int
    } else {
        0int
    }) + (if h.ack {
        16int
    } else {
        0int
    }) + (if h.psh {
        8int
    } else {
        0int
    }) + (if h.rst {
        4int
    } else {
        0int
    }) + (if h.syn {
        2int
    } else {
        0int
    }) + (if h.fin {
        1int
    } else {
        0int
    })) as u8
}

impl TcpHeader {
    /// Number of bytes the option-less header takes on the wire.
    pub const SERIALIZED_SIZE: usize = 20;

    /// The option bytes.
    pub open spec fn spec_options(self) -> Seq<u8> {
        self.options_buf@.take(self.options_len as int)
    }

    /// Options in range with zero padding.
    pub open spec fn wf(self) -> bool {
        &&& self.options_len <= 40
        &&& self.options_len % 4 == 0
        &&& (forall|i: int| self.options_len <= i < 40 ==> self.options_buf@[i] == 0)
    }

    /// Header length on the wire: 20 bytes plus the options.
    pub open spec fn spec_header_len(self) -> int {
        20 + self.options_len
    }

    /// Wire encoding with the checksum field set to `ck`.
    pub open spec fn spec_bytes_with_checksum(self, ck: u16) -> Seq<u8> {
        be16_seq(self.source_port) + be16_seq(self.destination_port) + be32_seq(
            self.sequence_number,
        ) + be32_seq(self.acknowledgment_number) + seq![
            ((5 + self.options_len / 4) * 16 + (if self.ns {
                1int
            } else {
                0int
            })) as u8,
            spec_flags_byte(self),
        ] + be16_seq(self.window_size) + be16_seq(ck) + be16_seq(self.urgent_pointer)
            + self.spec_options()
    }

    /// Wire encoding of the header.
    pub open spec fn spec_bytes(self) -> Seq<u8> {
        self.spec_bytes_with_checksum(self.checksum)
    }

    /// The checksum of this header over the IPv4 pseudo-header with
    /// the given addresses; the pseudo-header length covers header
    /// and payload.
    pub open spec fn spec_checksum_v4(
        self,
        source: Seq<u8>,
        destination: Seq<u8>,
        payload: Seq<u8>,
    ) -> u16 {
        checksum16(
            pseudo_header_v4(
                source,
                destination,
                ip_number::TCP,
                (self.spec_header_len() + payload.len()) as u16,
            ) + self.spec_bytes_with_checksum(0) + payload,
        )
    }

    /// The checksum of this header over the IPv6 pseudo-header.
    pub open spec fn spec_checksum_v6(
        self,
        source: Seq<u8>,
        destination: Seq<u8>,
        payload: Seq<u8>,
    ) -> u16 {
        checksum16(
            pseudo_header_v6(
                source,
                destination,
                ip_number::TCP,
                (self.spec_header_len() + payload.len()) as u32,
            ) + self.spec_bytes_with_checksum(0) + payload,
        )
    }

    /// True when this header is what the start of `b` decodes to.
    pub open spec fn spec_matches(self, b: Seq<u8>) -> bool {
        &&& b.len() >= 20
        &&& b[12] / 16 >= 5
        &&& b.len() >= (b[12] / 16) * 4
        &&& self.options_len == (b[12] / 16) * 4 - 20
        &&& self.source_port == be16(b[0], b[1])
        &&& self.destination_port == be16(b[2], b[3])
        &&& self.sequence_number == be32(b[4], b[5], b[6], b[7])
        &&& self.acknowledgment_number == be32(b[8], b[9], b[10], b[11])
        &&& self.ns == (b[12] % 2 == 1)
        &&& self.cwr == ((b[13] / 128) % 2 == 1)
        &&& self.ece == ((b[13] / 64) % 2 == 1)
        &&& self.urg == ((b[13] / 32) % 2 == 1)
        &&& self.ack == ((b[13] / 16) % 2 == 1)
        &&& self.psh == ((b[13] / 8) % 2 == 1)
        &&& self.rst == ((b[13] / 4) % 2 == 1)
        &&& self.syn == ((b[13] / 2) % 2 == 1)
        &&& self.fin == (b[13] % 2 == 1)
        &&& self.window_size == be16(b[14], b[15])
        &&& self.checksum == be16(b[16], b[17])
        &&& self.urgent_pointer == be16(b[18], b[19])
        &&& self.spec_options() == b.subrange(20, (b[12] / 16) * 4)
        &&& (forall|i: int| self.options_len <= i < 40 ==> self.options_buf@[i] == 0)
    }

    /// True for a header fresh from `new`: ports, sequence number
    /// and window as given, every flag clear, no options, zeroes
    /// elsewhere.
    pub open spec fn spec_is_fresh(
        self,
        source_port: u16,
        destination_port: u16,
        sequence_number: u32,
        window_size: u16,
    ) -> bool {
        &&& self.source_port == source_port
        &&& self.destination_port == destination_port
        &&& self.sequence_number == sequence_number
        &&& self.acknowledgment_number == 0
        &&& !self.ns && !self.fin && !self.syn && !self.rst && !self.psh && !self.ack
            && !self.urg && !self.ece && !self.cwr
        &&& self.window_size == window_size
        &&& self.checksum == 0
        &&& self.urgent_pointer == 0
        &&& self.options_len == 0
        &&& (forall|i: int| 0 <= i < 40 ==> self.options_buf@[i] == 0)
    }

    /// A header with the given ports, sequence number and window;
    /// every flag clear, no options, checksum zero.
    pub fn new(source_port: u16, destination_port: u16, sequence_number: u32, window_size: u16)
        -> (r: TcpHeader)
        ensures
            r == (TcpHeader {
                source_port,
                destination_port,
                sequence_number,
                acknowledgment_number: 0,
                ns: false,
                fin: false,
                syn: false,
                rst: false,
                psh: false,
                ack: false,
                urg: false,
                ece: false,
                cwr: false,
                window_size,
                checksum: 0,
                urgent_pointer: 0,
                options_buf: r.options_buf,
                options_len: 0,
            }),
            r.wf(),
            r.spec_options() == Seq::<u8>::empty(),
            r.spec_is_fresh(source_port, destination_port, sequence_number, window_size),
    {
        let r = TcpHeader {
            source_port,
            destination_port,
            sequence_number,
            acknowledgment_number: 0,
            ns: false,
            fin: false,
            syn: false,
            rst: false,
            psh: false,
            ack: false,
            urg: false,
            ece: false,
            cwr: false,
            window_size,
            checksum: 0,
            urgent_pointer: 0,
            options_buf: [0; 40],
            options_len: 0,
        };
        assert(r.spec_options() =~= Seq::<u8>::empty());
        r
    }

    /// The option bytes.
    pub fn options<'a>(&'a self) -> (r: &'a [u8])
        requires
            self.options_len <= 40,
        ensures
            r@ == self.spec_options(),
    {
        let r = slice_subrange(self.options_buf.as_slice(), 0, self.options_len as usize);
        assert(r@ =~= self.spec_options());
        r
    }

    /// Replace the options with raw bytes. Fails when the data is
    /// longer than 40 bytes or not a multiple of 4; the header is
    /// unchanged then.
    pub fn set_options_raw(&mut self, data: &[u8]) -> (r: Result<(), ValueError>)
        ensures
            match r {
                Ok(()) => data@.len() <= 40 && data@.len() % 4 == 0 && *final(self) == TcpHeader {
                    options_buf: final(self).options_buf,
                    options_len: final(self).options_len,
                    ..*old(self)
                } && final(self).options_len == data@.len() && final(self).spec_options() == data@
                    && final(self).wf(),
                Err(e) => (data@.len() > 40 || data@.len() % 4 != 0) && e
                    == ValueError::TcpOptionsLengthBad(data@.len() as usize) && *final(self)
                    == *old(self),
            },
    {
        if data.len() > 40 || data.len() % 4 != 0 {
            return Err(ValueError::TcpOptionsLengthBad(data.len()));
        }
        self.options_buf = read_padded(data, 0, data.len());
        self.options_len = data.len() as u8;
        assert(self.spec_options() =~= data@);
        Ok(())
    }

    /// Number of bytes this header takes on the wire.
    pub fn header_len(&self) -> (r: usize)
        ensures
            r == self.spec_header_len(),
            self.wf() ==> r == self.spec_bytes().len(),
    {
        20 + self.options_len as usize
    }

    /// Decode a header from the start of `slice`; the second value of
    /// the pair is the rest of the slice.
    pub fn from_slice<'a>(slice: &'a [u8]) -> (r: Result<(TcpHeader, &'a [u8]), ReadError>)
        ensures
            match r {
                Ok((h, rest)) => h.spec_matches(slice@) && rest@ == slice@.skip(
                    (slice@[12] / 16) * 4,
                ),
                Err(e) => match e {
                    ReadError::UnexpectedEndOfSlice(n) => slice@.len() < n && (n == 20 || (
                    slice@.len() >= 20 && n == (slice@[12] / 16) * 4)),
                    ReadError::TcpDataOffsetTooSmall(l) => slice@.len() >= 20 && l == slice@[12]
                        / 16 && l < 5,
                    _ => false,
                },
            },
    {
        if slice.len() < 20 {
            return Err(ReadError::UnexpectedEndOfSlice(20));
        }
        let b12 = slice[12];
        let data_offset = b12 / 16;
        if data_offset < 5 {
            return Err(ReadError::TcpDataOffsetTooSmall(data_offset));
        }
        let header_length: usize = (data_offset as usize) * 4;
        if slice.len() < header_length {
            return Err(ReadError::UnexpectedEndOfSlice(header_length));
        }
        let b13 = slice[13];
        let h = TcpHeader {
            source_port: read_be16(slice, 0),
            destination_port: read_be16(slice, 2),
            sequence_number: read_be32(slice, 4),
            acknowledgment_number: read_be32(slice, 8),
            ns: b12 % 2 == 1,
            cwr: (b13 / 128) % 2 == 1,
            ece: (b13 / 64) % 2 == 1,
            urg: (b13 / 32) % 2 == 1,
            ack: (b13 / 16) % 2 == 1,
            psh: (b13 / 8) % 2 == 1,
            rst: (b13 / 4) % 2 == 1,
            syn: (b13 / 2) % 2 == 1,
            fin: b13 % 2 == 1,
            window_size: read_be16(slice, 14),
            checksum: read_be16(slice, 16),
            urgent_pointer: read_be16(slice, 18),
            options_buf: read_padded(slice, 20, header_length - 20),
            options_len: (header_length - 20) as u8,
        };
        let rest = slice_subrange(slice, header_length, slice.len());
        assert(rest@ =~= slice@.skip((slice@[12] / 16) * 4));
        assert(h.spec_options() =~= slice@.subrange(20, (slice@[12] / 16) * 4));
        Ok((h, rest))
    }

    /// Append the wire encoding with the checksum field `ck`.
    fn write_with_checksum(&self, buf: &mut Vec<u8>, ck: u16)
        requires
            self.wf(),
        ensures
            final(buf)@ == old(buf)@ + self.spec_bytes_with_checksum(ck),
    {
        write_be16(buf, self.source_port);
        write_be16(buf, self.destination_port);
        write_be32(buf, self.sequence_number);
        write_be32(buf, self.acknowledgment_number);
        let ns: u8 = if self.ns {
            1
        } else {
            0
        };
        buf.push((5 + self.options_len / 4) * 16 + ns);
        let mut flags: u8 = 0;
        if self.cwr {
            flags = flags + 128;
        }
        if self.ece {
            flags = flags + 64;
        }
        if self.urg {
            flags = flags + 32;
        }
        if self.ack {
            flags = flags + 16;
        }
        if self.psh {
            flags = flags + 8;
        }
        if self.rst {
            flags = flags + 4;
        }
        if self.syn {
            flags = flags + 2;
        }
        if self.fin {
            flags = flags + 1;
        }
        assert(flags == spec_flags_byte(*self));
        buf.push(flags);
        write_be16(buf, self.window_size);
        write_be16(buf, ck);
        write_be16(buf, self.urgent_pointer);
        let opts = slice_subrange(self.options_buf.as_slice(), 0, self.options_len as usize);
        assert(opts@ =~= self.spec_options());
        push_slice(buf, opts);
        assert(buf@ =~= old(buf)@ + self.spec_bytes_with_checksum(ck));
    }

    /// Append the wire encoding to `buf`, checksum field as stored.
    pub fn write(&self, buf: &mut Vec<u8>)
        requires
            self.wf(),
        ensures
            final(buf)@ == old(buf)@ + self.spec_bytes(),
    {
        self.write_with_checksum(buf, self.checksum);
    }

    /// The checksum for this header over the IPv4 pseudo-header built
    /// from `ip`. Fails when header and payload together do not fit
    /// the pseudo-header's 16 bit length.
    pub fn calc_checksum_ipv4(&self, ip: &Ipv4Header, payload: &[u8]) -> (r: Result<
        u16,
        ValueError,
    >)
        requires
            self.wf(),
        ensures
            match r {
                Ok(c) => self.spec_header_len() + payload@.len() <= 0xFFFF && c
                    == self.spec_checksum_v4(ip.source@, ip.destination@, payload@),
                Err(e) => self.spec_header_len() + payload@.len() > 0xFFFF && e
                    == ValueError::Ipv4PayloadLengthTooLarge(payload@.len() as usize),
            },
    {
        if payload.len() > 0xFFFF - 20 - (self.options_len as usize) {
            return Err(ValueError::Ipv4PayloadLengthTooLarge(payload.len()));
        }
        let tcp_len: u16 = 20 + (self.options_len as u16) + (payload.len() as u16);
        let pseudo = build_pseudo_header_v4(&ip.source, &ip.destination, ip_number::TCP, tcp_len);
        let mut hdr: Vec<u8> = Vec::new();
        self.write_with_checksum(&mut hdr, 0);
        let s1 = sum16_slice(pseudo.as_slice(), 0);
        let s2 = sum16_slice(hdr.as_slice(), s1);
        let s3 = sum16_slice(payload, s2);
        proof {
            let p = pseudo@;
            let h0 = self.spec_bytes_with_checksum(0);
            lemma_sum16_append(p, h0 + payload@, 0);
            lemma_sum16_append(h0, payload@, s1);
            assert(p + (h0 + payload@) =~= p + h0 + payload@);
        }
        Ok(checksum_finalize(s3))
    }

    /// The checksum for this header over the IPv6 pseudo-header built
    /// from `ip`. Fails when header and payload together do not fit
    /// the pseudo-header's 32 bit length.
    pub fn calc_checksum_ipv6(&self, ip: &Ipv6Header, payload: &[u8]) -> (r: Result<
        u16,
        ValueError,
    >)
        requires
            self.wf(),
        ensures
            match r {
                Ok(c) => self.spec_header_len() + payload@.len() <= u32::MAX && c
                    == self.spec_checksum_v6(ip.source@, ip.destination@, payload@),
                Err(e) => self.spec_header_len() + payload@.len() > u32::MAX && e
                    == ValueError::Ipv6PayloadLengthTooLarge(payload@.len() as usize),
            },
    {
        if payload.len() > (u32::MAX as usize) - 20 - (self.options_len as usize) {
            return Err(ValueError::Ipv6PayloadLengthTooLarge(payload.len()));
        }
        let tcp_len: u32 = 20 + (self.options_len as u32) + (payload.len() as u32);
        let pseudo = build_pseudo_header_v6(&ip.source, &ip.destination, ip_number::TCP, tcp_len);
        let mut hdr: Vec<u8> = Vec::new();
        self.write_with_checksum(&mut hdr, 0);
        let s1 = sum16_slice(pseudo.as_slice(), 0);
        let s2 = sum16_slice(hdr.as_slice(), s1);
        let s3 = sum16_slice(payload, s2);
        proof {
            let p = pseudo@;
            let h0 = self.spec_bytes_with_checksum(0);
            lemma_sum16_append(p, h0 + payload@, 0);
            lemma_sum16_append(h0, payload@, s1);
            assert(p + (h0 + payload@) =~= p + h0 + payload@);
        }
        Ok(checksum_finalize(s3))
    }

    /// A buffer decodes to at most one header.
    pub proof fn lemma_matches_unique(h1: TcpHeader, h2: TcpHeader, b: Seq<u8>)
        requires
            h1.spec_matches(b),
            h2.spec_matches(b),
        ensures
            h1 == h2,
    {
        assert(h1.spec_options() =~= h2.spec_options());
        assert forall|i: int| 0 <= i < 40 implies h1.options_buf@[i] == h2.options_buf@[i] by {
            if i < h1.options_len {
                assert(h1.spec_options()[i] == h2.spec_options()[i]);
            }
        }
        assert(h1.options_buf =~= h2.options_buf);
    }

    /// Decoding the encoding of a header gives the header back.
    pub proof fn lemma_roundtrip(h: TcpHeader, h2: TcpHeader, tail: Seq<u8>)
        requires
            h.wf(),
            h2.spec_matches(h.spec_bytes() + tail),
        ensures
            h2 == h,
    {
        let b = h.spec_bytes() + tail;
        let ol = h.options_len;
        let ns: int = if h.ns {
            1int
        } else {
            0int
        };
        assert(b[12] == ((5 + ol / 4) * 16 + ns) as u8);
        assert(((5 + ol / 4) * 16 + ns) / 16 == 5 + ol / 4 && ((5 + ol / 4) * 16 + ns) % 2 == ns)
            by (nonlinear_arith)
            requires
                ol <= 40 && 0 <= ns < 2,
        ;
        assert((5 + ol / 4) * 4 - 20 == ol as int) by (nonlinear_arith)
            requires
                ol <= 40 && ol % 4 == 0,
        ;
        lemma_be16_bytes(be16_hi(h.source_port), be16_lo(h.source_port));
        lemma_be16_bytes(be16_hi(h.destination_port), be16_lo(h.destination_port));
        assert(b[4] == be32_seq(h.sequence_number)[0] && b[5] == be32_seq(h.sequence_number)[1]
            && b[6] == be32_seq(h.sequence_number)[2] && b[7] == be32_seq(h.sequence_number)[3]);
        lemma_be32_roundtrip(h.sequence_number);
        assert(b[8] == be32_seq(h.acknowledgment_number)[0] && b[9] == be32_seq(
            h.acknowledgment_number,
        )[1] && b[10] == be32_seq(h.acknowledgment_number)[2] && b[11] == be32_seq(
            h.acknowledgment_number,
        )[3]);
        lemma_be32_roundtrip(h.acknowledgment_number);
        let cwr: int = if h.cwr {
            128int
        } else {
            0int
        };
        let ece: int = if h.ece {
            64int
        } else {
            0int
        };
        let urg: int = if h.urg {
            32int
        } else {
            0int
        };
        let ack: int = if h.ack {
            16int
        } else {
            0int
        };
        let psh: int = if h.psh {
            8int
        } else {
            0int
        };
        let rst: int = if h.rst {
            4int
        } else {
            0int
        };
        let syn: int = if h.syn {
            2int
        } else {
            0int
        };
        let fin: int = if h.fin {
            1int
        } else {
            0int
        };
        let f = cwr + ece + urg + ack + psh + rst + syn + fin;
        assert(b[13] == f as u8);
        assert(f == cwr + ece + urg + ack + psh + rst + syn + fin);
        assert(0 <= f < 256);
        assert((f / 128) % 2 == cwr / 128) by (nonlinear_arith)
            requires
                (cwr == 0 || cwr == 128) && (ece == 0 || ece == 64) && (urg == 0 || urg == 32) && (
                ack == 0 || ack == 16) && (psh == 0 || psh == 8) && (rst == 0 || rst == 4) && (syn
                    == 0 || syn == 2) && (fin == 0 || fin == 1) && f == cwr + ece + urg + ack + psh
                    + rst + syn + fin,
        ;
        assert((f / 64) % 2 == ece / 64) by (nonlinear_arith)
            requires
                (cwr == 0 || cwr == 128) && (ece == 0 || ece == 64) && (urg == 0 || urg == 32) && (
                ack == 0 || ack == 16) && (psh == 0 || psh == 8) && (rst == 0 || rst == 4) && (syn
                    == 0 || syn == 2) && (fin == 0 || fin == 1) && f == cwr + ece + urg + ack + psh
                    + rst + syn + fin,
        ;
        assert((f / 32) % 2 == urg / 32) by (nonlinear_arith)
            requires
                (cwr == 0 || cwr == 128) && (ece == 0 || ece == 64) && (urg == 0 || urg == 32) && (
                ack == 0 || ack == 16) && (psh == 0 || psh == 8) && (rst == 0 || rst == 4) && (syn
                    == 0 || syn == 2) && (fin == 0 || fin == 1) && f == cwr + ece + urg + ack + psh
                    + rst + syn + fin,
        ;
        assert((f / 16) % 2 == ack / 16) by (nonlinear_arith)
            requires
                (cwr == 0 || cwr == 128) && (ece == 0 || ece == 64) && (urg == 0 || urg == 32) && (
                ack == 0 || ack == 16) && (psh == 0 || psh == 8) && (rst == 0 || rst == 4) && (syn
                    == 0 || syn == 2) && (fin == 0 || fin == 1) && f == cwr + ece + urg + ack + psh
                    + rst + syn + fin,
        ;
        assert((f / 8) % 2 == psh / 8) by (nonlinear_arith)
            requires
                (cwr == 0 || cwr == 128) && (ece == 0 || ece == 64) && (urg == 0 || urg == 32) && (
                ack == 0 || ack == 16) && (psh == 0 || psh == 8) && (rst == 0 || rst == 4) && (syn
                    == 0 || syn == 2) && (fin == 0 || fin == 1) && f == cwr + ece + urg + ack + psh
                    + rst + syn + fin,
        ;
        assert((f / 4) % 2 == rst / 4) by (nonlinear_arith)
            requires
                (cwr == 0 || cwr == 128) && (ece == 0 || ece == 64) && (urg == 0 || urg == 32) && (
                ack == 0 || ack == 16) && (psh == 0 || psh == 8) && (rst == 0 || rst == 4) && (syn
                    == 0 || syn == 2) && (fin == 0 || fin == 1) && f == cwr + ece + urg + ack + psh
                    + rst + syn + fin,
        ;
        assert((f / 2) % 2 == syn / 2) by (nonlinear_arith)
            requires
                (cwr == 0 || cwr == 128) && (ece == 0 || ece == 64) && (urg == 0 || urg == 32) && (
                ack == 0 || ack == 16) && (psh == 0 || psh == 8) && (rst == 0 || rst == 4) && (syn
                    == 0 || syn == 2) && (fin == 0 || fin == 1) && f == cwr + ece + urg + ack + psh
                    + rst + syn + fin,
        ;
        assert(f % 2 == fin) by (nonlinear_arith)
            requires
                (cwr == 0 || cwr == 128) && (ece == 0 || ece == 64) && (urg == 0 || urg == 32) && (
                ack == 0 || ack == 16) && (psh == 0 || psh == 8) && (rst == 0 || rst == 4) && (syn
                    == 0 || syn == 2) && (fin == 0 || fin == 1) && f == cwr + ece + urg + ack + psh
                    + rst + syn + fin,
        ;
        lemma_be16_bytes(be16_hi(h.window_size), be16_lo(h.window_size));
        lemma_be16_bytes(be16_hi(h.checksum), be16_lo(h.checksum));
        lemma_be16_bytes(be16_hi(h.urgent_pointer), be16_lo(h.urgent_pointer));
        assert(h2.spec_options() =~= h.spec_options());
        assert forall|i: int| 0 <= i < 40 implies h2.options_buf@[i] == h.options_buf@[i] by {
            if i < ol {
                assert(h2.spec_options()[i] == h.spec_options()[i]);
            }
        }
        assert(h2.options_buf =~= h.options_buf);
    }

    /// A header whose checksum field holds the checksum this header
    /// calls for makes pseudo-header, header and payload sum to
    /// 0xFFFF: recomputing the checksum over them yields zero.
    pub proof fn lemma_checksum_verifies_v4(
        h: TcpHeader,
        source: Seq<u8>,
        destination: Seq<u8>,
        payload: Seq<u8>,
    )
        requires
            source.len() == 4,
            destination.len() == 4,
            h.checksum == h.spec_checksum_v4(source, destination, payload),
        ensures
            checksum16(
                pseudo_header_v4(
                    source,
                    destination,
                    ip_number::TCP,
                    (h.spec_header_len() + payload.len()) as u16,
                ) + h.spec_bytes() + payload,
            ) == 0,
    {
        let p = pseudo_header_v4(
            source,
            destination,
            ip_number::TCP,
            (h.spec_header_len() + payload.len()) as u16,
        );
        let a = p + be16_seq(h.source_port) + be16_seq(h.destination_port) + be32_seq(
            h.sequence_number,
        ) + be32_seq(h.acknowledgment_number) + seq![
            ((5 + h.options_len / 4) * 16 + (if h.ns {
                1int
            } else {
                0int
            })) as u8,
            spec_flags_byte(h),
        ] + be16_seq(h.window_size);
        let s = be16_seq(h.urgent_pointer) + h.spec_options() + payload;
        assert(be16_seq(0) =~= seq![0u8, 0u8]);
        assert(p + h.spec_bytes_with_checksum(0) + payload =~= a + seq![0u8, 0u8] + s);
        assert(p + h.spec_bytes() + payload =~= a + be16_seq(h.checksum) + s);
        assert(a.len() % 2 == 0);
        lemma_checksum_verifies(a, s, h.checksum);
    }

    /// The IPv6 counterpart of `lemma_checksum_verifies_v4`.
    pub proof fn lemma_checksum_verifies_v6(
        h: TcpHeader,
        source: Seq<u8>,
        destination: Seq<u8>,
        payload: Seq<u8>,
    )
        requires
            source.len() == 16,
            destination.len() == 16,
            h.checksum == h.spec_checksum_v6(source, destination, payload),
        ensures
            checksum16(
                pseudo_header_v6(
                    source,
                    destination,
                    ip_number::TCP,
                    (h.spec_header_len() + payload.len()) as u32,
                ) + h.spec_bytes() + payload,
            ) == 0,
    {
        let p = pseudo_header_v6(
            source,
            destination,
            ip_number::TCP,
            (h.spec_header_len() + payload.len()) as u32,
        );
        let a = p + be16_seq(h.source_port) + be16_seq(h.destination_port) + be32_seq(
            h.sequence_number,
        ) + be32_seq(h.acknowledgment_number) + seq![
            ((5 + h.options_len / 4) * 16 + (if h.ns {
                1int
            } else {
                0int
            })) as u8,
            spec_flags_byte(h),
        ] + be16_seq(h.window_size);
        let s = be16_seq(h.urgent_pointer) + h.spec_options() + payload;
        assert(be16_seq(0) =~= seq![0u8, 0u8]);
        assert(p + h.spec_bytes_with_checksum(0) + payload =~= a + seq![0u8, 0u8] + s);
        assert(p + h.spec_bytes() + payload =~= a + be16_seq(h.checksum) + s);
        assert(a.len() % 2 == 0);
        lemma_checksum_verifies(a, s, h.checksum);
    }
}

} // verus!
