//! IPv6 extension headers: the generic raw extension (hop-by-hop,
//! routing and destination options are carried raw), the fragment
//! header, and the chain walker that reads extensions in sequence.

use vstd::prelude::*;

use crate::bytes::{be32, be32_seq, lemma_be32_roundtrip, push_slice, read_be32, read_padded, write_be32};
use crate::err::ReadError;
use crate::ip_auth::IpAuthenticationHeader;
use crate::ip_number;
use vstd::slice::slice_subrange;

verus! {

broadcast use vstd::array::group_array_axioms;

/// True for the next-header values that name an IPv6 extension
/// header this library walks.
pub open spec fn spec_is_ipv6_ext_header_value(v: u8) -> bool {
    v == ip_number::IPV6_HOP_BY_HOP || v == ip_number::IPV6_ROUTE || v == ip_number::IPV6_FRAG
        || v == ip_number::AUTH || v == ip_number::IPV6_DEST_OPTIONS
}

/// True for the next-header values that name an IPv6 extension
/// header this library walks.
pub fn is_ipv6_ext_header_value(v: u8) -> (r: bool)
    ensures
        r == spec_is_ipv6_ext_header_value(v),
{
    v == ip_number::IPV6_HOP_BY_HOP || v == ip_number::IPV6_ROUTE || v == ip_number::IPV6_FRAG
        || v == ip_number::AUTH || v == ip_number::IPV6_DEST_OPTIONS
}

/// A raw IPv6 extension header: the next-header value and the body
/// kept as bytes. Hop-by-hop options, destination options and
/// routing headers take this shape. The length field counts 8 byte
/// units minus one, so the body is 6 bytes plus a multiple of 8.
#[derive(Clone, Copy, Debug, PartialEq, Eq)]
pub struct Ipv6RawExtHeader {
    pub next_header: u8,
    /// Body bytes; only the first `payload_len` count, the rest is
    /// zero padding.
    pub payload_buf: [u8; 2046],
    /// Length of the body: 6 plus a multiple of 8, at most 2046.
    pub payload_len: u16,
}

impl Ipv6RawExtHeader {
    /// Body length in range with zero padding.
    pub open spec fn wf(self) -> bool {
        &&& 6 <= self.payload_len <= 2046
        &&& self.payload_len % 8 == 6
        &&& (forall|i: int| self.payload_len <= i < 2046 ==> self.payload_buf@[i] == 0)
    }

    /// The body bytes.
    pub open spec fn spec_payload(self) -> Seq<u8> {
        self.payload_buf@.take(self.payload_len as int)
    }

    /// Header length on the wire: 2 bytes plus the body.
    pub open spec fn spec_header_len(self) -> int {
        2 + self.payload_len
    }

    /// Wire encoding: next header, length in 8 byte units minus one,
    /// body.
    pub open spec fn spec_bytes(self) -> Seq<u8> {
        seq![self.next_header, ((self.payload_len - 6) / 8) as u8] + self.spec_payload()
    }

    /// True when this header is what the start of `b` decodes to.
    pub open spec fn spec_matches(self, b: Seq<u8>) -> bool {
        &&& b.len() >= 8
        &&& b.len() >= (b[1] + 1) * 8
        &&& self.next_header == b[0]
        &&& self.payload_len == (b[1] + 1) * 8 - 2
        &&& self.spec_payload() == b.subrange(2, (b[1] + 1) * 8)
        &&& (forall|i: int| self.payload_len <= i < 2046 ==> self.payload_buf@[i] == 0)
    }

    /// A header with the given body. Fails (returns `None`) when the
    /// body is longer than 2046 bytes or not 6 plus a multiple of 8.
    pub fn new_raw(next_header: u8, payload: &[u8]) -> (r: Option<Ipv6RawExtHeader>)
        ensures
            match r {
                Some(h) => 6 <= payload@.len() <= 2046 && payload@.len() % 8 == 6 && h.next_header
                    == next_header && h.spec_payload() == payload@ && h.wf(),
                None => payload@.len() < 6 || payload@.len() > 2046 || payload@.len() % 8 != 6,
            },
    {
        if payload.len() < 6 || payload.len() > 2046 || payload.len() % 8 != 6 {
            return None;
        }
        let h = Ipv6RawExtHeader {
            next_header,
            payload_buf: read_padded(payload, 0, payload.len()),
            payload_len: payload.len() as u16,
        };
        assert(h.spec_payload() =~= payload@);
        Some(h)
    }

    /// The body bytes.
    pub fn payload<'a>(&'a self) -> (r: &'a [u8])
        requires
            self.payload_len <= 2046,
        ensures
            r@ == self.spec_payload(),
    {
        let r = slice_subrange(self.payload_buf.as_slice(), 0, self.payload_len as usize);
        assert(r@ =~= self.spec_payload());
        r
    }

    /// Number of bytes this header takes on the wire.
    pub fn header_len(&self) -> (r: usize)
        requires
            self.payload_len <= 2046,
        ensures
            r == self.spec_header_len(),
            self.wf() ==> r == self.spec_bytes().len(),
    {
        2 + self.payload_len as usize
    }

    /// Decode a header from the start of `slice`; the second value of
    /// the pair is the rest of the slice.
    pub fn from_slice<'a>(slice: &'a [u8]) -> (r: Result<(Ipv6RawExtHeader, &'a [u8]), ReadError>)
        ensures
            match r {
                Ok((h, rest)) => h.spec_matches(slice@) && rest@ == slice@.skip((slice@[1] + 1) * 8),
                Err(e) => match e {
                    ReadError::UnexpectedEndOfSlice(n) => slice@.len() < n && (n == 8 || (
                    slice@.len() >= 8 && n == (slice@[1] + 1) * 8)),
                    _ => false,
                },
            },
    {
        if slice.len() < 8 {
            return Err(ReadError::UnexpectedEndOfSlice(8));
        }
        let len_field = slice[1];
        let total: usize = (len_field as usize + 1) * 8;
        if slice.len() < total {
            return Err(ReadError::UnexpectedEndOfSlice(total));
        }
        let h = Ipv6RawExtHeader {
            next_header: slice[0],
            payload_buf: read_padded(slice, 2, total - 2),
            payload_len: (total - 2) as u16,
        };
        let rest = slice_subrange(slice, total, slice.len());
        assert(rest@ =~= slice@.skip((slice@[1] + 1) * 8));
        assert(h.spec_payload() =~= slice@.subrange(2, (slice@[1] + 1) * 8));
        Ok((h, rest))
    }

    /// Append the wire encoding to `buf`.
    pub fn write(&self, buf: &mut Vec<u8>)
        requires
            self.wf(),
        ensures
            final(buf)@ == old(buf)@ + self.spec_bytes(),
    {
        buf.push(self.next_header);
        buf.push(((self.payload_len - 6) / 8) as u8);
        let body = slice_subrange(self.payload_buf.as_slice(), 0, self.payload_len as usize);
        assert(body@ =~= self.spec_payload());
        push_slice(buf, body);
        assert(buf@ =~= old(buf)@ + self.spec_bytes());
    }

    /// A buffer decodes to at most one header.
    pub proof fn lemma_matches_unique(h1: Ipv6RawExtHeader, h2: Ipv6RawExtHeader, b: Seq<u8>)
        requires
            h1.spec_matches(b),
            h2.spec_matches(b),
        ensures
            h1 == h2,
    {
        assert(h1.spec_payload() =~= h2.spec_payload());
        assert forall|i: int| 0 <= i < 2046 implies h1.payload_buf@[i] == h2.payload_buf@[i] by {
            if i < h1.payload_len {
                assert(h1.spec_payload()[i] == h2.spec_payload()[i]);
            }
        }
        assert(h1.payload_buf =~= h2.payload_buf);
    }

    /// Decoding the encoding of a header gives the header back.
    pub proof fn lemma_roundtrip(h: Ipv6RawExtHeader, h2: Ipv6RawExtHeader, tail: Seq<u8>)
        requires
            h.wf(),
            h2.spec_matches(h.spec_bytes() + tail),
        ensures
            h2 == h,
    {
        let b = h.spec_bytes() + tail;
        let pl = h.payload_len;
        assert(b[1] == ((pl - 6) / 8) as u8);
        assert(((pl - 6) / 8 + 1) * 8 - 2 == pl as int) by (nonlinear_arith)
            requires
                6 <= pl <= 2046 && pl % 8 == 6,
        ;
        assert(h2.spec_payload() =~= h.spec_payload());
        assert forall|i: int| 0 <= i < 2046 implies h2.payload_buf@[i] == h.payload_buf@[i] by {
            if i < pl {
                assert(h2.spec_payload()[i] == h.spec_payload()[i]);
            }
        }
        assert(h2.payload_buf =~= h.payload_buf);
    }
}

/// IPv6 fragment header: 8 fixed bytes.
#[derive(Clone, Copy, Debug, PartialEq, Eq)]
pub struct Ipv6FragmentHeader {
    pub next_header: u8,
    /// Fragment offset in 8 byte units, 13 bits.
    pub fragment_offset: u16,
    pub more_fragments: bool,
    pub identification: u32,
}

impl Ipv6FragmentHeader {
    /// Number of bytes this header takes on the wire.
    pub const SERIALIZED_SIZE: usize = 8;

    /// Offset fits its 13 bits.
    pub open spec fn wf(self) -> bool {
        self.fragment_offset < 0x2000
    }

    /// Wire encoding: next header, reserved, packed offset and flag,
    /// identification.
    pub open spec fn spec_bytes(self) -> Seq<u8> {
        seq![
            self.next_header,
            0u8,
            (self.fragment_offset / 32) as u8,
            ((self.fragment_offset % 32) * 8 + (if self.more_fragments {
                1u8
            } else {
                0u8
            })) as u8,
        ] + be32_seq(self.identification)
    }

    /// True when this header is what the first 8 bytes of `b` decode
    /// to.
    pub open spec fn spec_matches(self, b: Seq<u8>) -> bool {
        &&& b.len() >= 8
        &&& self.next_header == b[0]
        &&& self.fragment_offset == b[2] * 32 + b[3] / 8
        &&& self.more_fragments == (b[3] % 2 == 1)
        &&& self.identification == be32(b[4], b[5], b[6], b[7])
    }

    /// True when this header belongs to a fragmented payload: more
    /// fragments follow or a fragment offset is set.
    pub fn is_fragmenting_payload(&self) -> (r: bool)
        ensures
            r == (self.more_fragments || self.fragment_offset != 0),
    {
        self.more_fragments || self.fragment_offset != 0
    }

    /// Number of bytes this header takes on the wire.
    pub fn header_len(&self) -> (r: usize)
        ensures
            r == self.spec_bytes().len(),
    {
        8
    }

    /// Decode a header from the start of `slice`; the second value of
    /// the pair is the rest of the slice.
    pub fn from_slice<'a>(slice: &'a [u8]) -> (r: Result<(Ipv6FragmentHeader, &'a [u8]), ReadError>)
        ensures
            match r {
                Ok((h, rest)) => h.spec_matches(slice@) && rest@ == slice@.skip(8),
                Err(e) => slice@.len() < 8 && e == ReadError::UnexpectedEndOfSlice(8),
            },
    {
        if slice.len() < 8 {
            return Err(ReadError::UnexpectedEndOfSlice(8));
        }
        let h = Ipv6FragmentHeader {
            next_header: slice[0],
            fragment_offset: (slice[2] as u16) * 32 + (slice[3] / 8) as u16,
            more_fragments: slice[3] % 2 == 1,
            identification: read_be32(slice, 4),
        };
        let rest = slice_subrange(slice, 8, slice.len());
        assert(rest@ =~= slice@.skip(8));
        Ok((h, rest))
    }

    /// Append the wire encoding to `buf`.
    pub fn write(&self, buf: &mut Vec<u8>)
        requires
            self.wf(),
        ensures
            final(buf)@ == old(buf)@ + self.spec_bytes(),
    {
        buf.push(self.next_header);
        buf.push(0);
        buf.push((self.fragment_offset / 32) as u8);
        let mf: u8 = if self.more_fragments {
            1
        } else {
            0
        };
        buf.push(((self.fragment_offset % 32) as u8) * 8 + mf);
        write_be32(buf, self.identification);
        assert(buf@ =~= old(buf)@ + self.spec_bytes());
    }

    /// A buffer decodes to at most one header.
    pub proof fn lemma_matches_unique(h1: Ipv6FragmentHeader, h2: Ipv6FragmentHeader, b: Seq<u8>)
        requires
            h1.spec_matches(b),
            h2.spec_matches(b),
        ensures
            h1 == h2,
    {
    }

    /// Decoding the encoding of a header gives the header back.
    pub proof fn lemma_roundtrip(h: Ipv6FragmentHeader, h2: Ipv6FragmentHeader, tail: Seq<u8>)
        requires
            h.wf(),
            h2.spec_matches(h.spec_bytes() + tail),
        ensures
            h2 == h,
    {
        let b = h.spec_bytes() + tail;
        let fo = h.fragment_offset;
        let mf: u8 = if h.more_fragments {
            1u8
        } else {
            0u8
        };
        assert(b[2] == (fo / 32) as u8 && b[3] == ((fo % 32) * 8 + mf) as u8);
        assert((fo / 32) * 32 + ((fo % 32) * 8 + mf) / 8 == fo as int && ((fo % 32) * 8 + mf) % 2
            == mf as int) by (nonlinear_arith)
            requires
                fo < 0x2000 && mf < 2,
        ;
        assert(b[4] == be32_seq(h.identification)[0] && b[5] == be32_seq(h.identification)[1]
            && b[6] == be32_seq(h.identification)[2] && b[7] == be32_seq(h.identification)[3]);
        lemma_be32_roundtrip(h.identification);
    }
}

/// A routing extension header together with the destination options
/// that may stand after it, for the final destination.
#[derive(Clone, Copy, Debug, PartialEq, Eq)]
pub struct Ipv6RoutingExtensions {
    pub routing: Ipv6RawExtHeader,
    pub final_destination_options: Option<Ipv6RawExtHeader>,
}

impl Ipv6RoutingExtensions {
    /// Both parts well formed.
    pub open spec fn wf(self) -> bool {
        &&& self.routing.wf()
        &&& match self.final_destination_options {
            Some(h) => h.wf(),
            None => true,
        }
    }
}

/// The IPv6 extension headers a packet may carry, one slot for each.
/// On the wire they stand in the canonical order of RFC 8200:
/// hop-by-hop options, destination options, routing, fragment,
/// authentication, and destination options for the final destination
/// (only behind a routing header).
#[derive(Clone, Copy, Debug, PartialEq, Eq)]
pub struct Ipv6Extensions {
    pub hop_by_hop_options: Option<Ipv6RawExtHeader>,
    pub destination_options: Option<Ipv6RawExtHeader>,
    pub routing: Option<Ipv6RoutingExtensions>,
    pub fragment: Option<Ipv6FragmentHeader>,
    pub auth: Option<IpAuthenticationHeader>,
}

impl Ipv6Extensions {
    /// Every present slot well formed.
    pub open spec fn wf(self) -> bool {
        &&& (self.hop_by_hop_options matches Some(h) ==> h.wf())
        &&& (self.destination_options matches Some(h) ==> h.wf())
        &&& (self.routing matches Some(r) ==> r.wf())
        &&& (self.fragment matches Some(f) ==> f.wf())
        &&& (self.auth matches Some(a) ==> a.wf())
    }

    /// No extension headers at all.
    pub open spec fn spec_empty() -> Ipv6Extensions {
        Ipv6Extensions {
            hop_by_hop_options: None,
            destination_options: None,
            routing: None,
            fragment: None,
            auth: None,
        }
    }

    /// True when no slot is filled.
    pub open spec fn spec_is_empty(self) -> bool {
        self == Ipv6Extensions::spec_empty()
    }

    /// True when no slot is filled.
    pub fn is_empty(&self) -> (r: bool)
        ensures
            r == self.spec_is_empty(),
    {
        self.hop_by_hop_options.is_none() && self.destination_options.is_none()
            && self.routing.is_none() && self.fragment.is_none() && self.auth.is_none()
    }

    /// Wire encoding: every present slot in canonical order.
    pub open spec fn spec_bytes(self) -> Seq<u8> {
        (match self.hop_by_hop_options {
            Some(h) => h.spec_bytes(),
            None => Seq::<u8>::empty(),
        }) + (match self.destination_options {
            Some(h) => h.spec_bytes(),
            None => Seq::<u8>::empty(),
        }) + (match self.routing {
            Some(r) => r.routing.spec_bytes(),
            None => Seq::<u8>::empty(),
        }) + (match self.fragment {
            Some(f) => f.spec_bytes(),
            None => Seq::<u8>::empty(),
        }) + (match self.auth {
            Some(a) => a.spec_bytes(),
            None => Seq::<u8>::empty(),
        }) + (match self.routing {
            Some(r) => match r.final_destination_options {
                Some(h) => h.spec_bytes(),
                None => Seq::<u8>::empty(),
            },
            None => Seq::<u8>::empty(),
        })
    }

    /// Sum of the wire lengths of the present slots.
    pub open spec fn spec_header_len(self) -> int {
        (match self.hop_by_hop_options {
            Some(h) => h.spec_header_len(),
            None => 0,
        }) + (match self.destination_options {
            Some(h) => h.spec_header_len(),
            None => 0,
        }) + (match self.routing {
            Some(r) => r.routing.spec_header_len() + (match r.final_destination_options {
                Some(h) => h.spec_header_len(),
                None => 0,
            }),
            None => 0,
        }) + (match self.fragment {
            Some(f) => 8int,
            None => 0,
        }) + (match self.auth {
            Some(a) => a.spec_header_len(),
            None => 0,
        })
    }

    /// The extensions with their next-header fields chained in
    /// canonical order, the last one pointing at `last`.
    pub open spec fn spec_chained(self, last: u8) -> Ipv6Extensions {
        let next0 = last;
        let (fdo, next1): (Option<Ipv6RawExtHeader>, u8) = match self.routing {
            Some(r) => match r.final_destination_options {
                Some(h) => (
                    Some(Ipv6RawExtHeader { next_header: next0, ..h }),
                    ip_number::IPV6_DEST_OPTIONS,
                ),
                None => (None, next0),
            },
            None => (None, next0),
        };
        let (auth, next2): (Option<IpAuthenticationHeader>, u8) = match self.auth {
            Some(a) => (
                Some(IpAuthenticationHeader { next_header: next1, ..a }),
                ip_number::AUTH,
            ),
            None => (None, next1),
        };
        let (frag, next3): (Option<Ipv6FragmentHeader>, u8) = match self.fragment {
            Some(f) => (
                Some(Ipv6FragmentHeader { next_header: next2, ..f }),
                ip_number::IPV6_FRAG,
            ),
            None => (None, next2),
        };
        let (routing, next4): (Option<Ipv6RoutingExtensions>, u8) = match self.routing {
            Some(r) => (
                Some(
                    Ipv6RoutingExtensions {
                        routing: Ipv6RawExtHeader { next_header: next3, ..r.routing },
                        final_destination_options: fdo,
                    },
                ),
                ip_number::IPV6_ROUTE,
            ),
            None => (None, next3),
        };
        let (dest, next5): (Option<Ipv6RawExtHeader>, u8) = match self.destination_options {
            Some(h) => (
                Some(Ipv6RawExtHeader { next_header: next4, ..h }),
                ip_number::IPV6_DEST_OPTIONS,
            ),
            None => (None, next4),
        };
        let (hbh, _next6): (Option<Ipv6RawExtHeader>, u8) = match self.hop_by_hop_options {
            Some(h) => (
                Some(Ipv6RawExtHeader { next_header: next5, ..h }),
                ip_number::IPV6_HOP_BY_HOP,
            ),
            None => (None, next5),
        };
        Ipv6Extensions {
            hop_by_hop_options: hbh,
            destination_options: dest,
            routing,
            fragment: frag,
            auth,
        }
    }

    /// The protocol value the layer above the extensions must carry:
    /// the first extension in canonical order, or `last` when no slot
    /// is filled.
    pub open spec fn spec_first_header(self, last: u8) -> u8 {
        if self.hop_by_hop_options is Some {
            ip_number::IPV6_HOP_BY_HOP
        } else if self.destination_options is Some {
            ip_number::IPV6_DEST_OPTIONS
        } else if self.routing is Some {
            ip_number::IPV6_ROUTE
        } else if self.fragment is Some {
            ip_number::IPV6_FRAG
        } else if self.auth is Some {
            ip_number::AUTH
        } else {
            last
        }
    }

    /// Chain the next-header fields in canonical order: each present
    /// extension points at the one after it, the last at `last`. The
    /// value returned is what the IPv6 header's own next-header field
    /// must carry.
    pub fn set_next_headers(&mut self, last: u8) -> (r: u8)
        ensures
            *final(self) == old(self).spec_chained(last),
            r == old(self).spec_first_header(last),
    {
        let mut next: u8 = last;
        match &mut self.routing {
            Some(r) => {
                match &mut r.final_destination_options {
                    Some(h) => {
                        h.next_header = next;
                        next = ip_number::IPV6_DEST_OPTIONS;
                    },
                    None => {},
                }
            },
            None => {},
        }
        match &mut self.auth {
            Some(a) => {
                a.next_header = next;
                next = ip_number::AUTH;
            },
            None => {},
        }
        match &mut self.fragment {
            Some(f) => {
                f.next_header = next;
                next = ip_number::IPV6_FRAG;
            },
            None => {},
        }
        match &mut self.routing {
            Some(r) => {
                r.routing.next_header = next;
                next = ip_number::IPV6_ROUTE;
            },
            None => {},
        }
        match &mut self.destination_options {
            Some(h) => {
                h.next_header = next;
                next = ip_number::IPV6_DEST_OPTIONS;
            },
            None => {},
        }
        match &mut self.hop_by_hop_options {
            Some(h) => {
                h.next_header = next;
                next = ip_number::IPV6_HOP_BY_HOP;
            },
            None => {},
        }
        next
    }

    /// Number of bytes the extensions take on the wire.
    #[verifier::rlimit(100)]
    #[verifier::spinoff_prover]
    pub fn header_len(&self) -> (r: usize)
        requires
            self.wf(),
        ensures
            r == self.spec_header_len(),
            r == self.spec_bytes().len(),
            r <= 6 * 2048,
    {
        let mut r: usize = 0;
        match &self.hop_by_hop_options {
            Some(h) => {
                r = r + h.header_len();
            },
            None => {},
        }
        match &self.destination_options {
            Some(h) => {
                r = r + h.header_len();
            },
            None => {},
        }
        match &self.routing {
            Some(rt) => {
                r = r + rt.routing.header_len();
                match &rt.final_destination_options {
                    Some(h) => {
                        r = r + h.header_len();
                    },
                    None => {},
                }
            },
            None => {},
        }
        match &self.fragment {
            Some(_f) => {
                r = r + 8;
            },
            None => {},
        }
        match &self.auth {
            Some(a) => {
                r = r + a.header_len();
            },
            None => {},
        }
        r
    }

    /// Append the wire encoding to `buf`: every present slot in
    /// canonical order. This is the only order the library emits.
    #[verifier::rlimit(100)]
    #[verifier::spinoff_prover]
    pub fn write(&self, buf: &mut Vec<u8>)
        requires
            self.wf(),
        ensures
            final(buf)@ == old(buf)@ + self.spec_bytes(),
    {
        match &self.hop_by_hop_options {
            Some(h) => h.write(buf),
            None => {},
        }
        match &self.destination_options {
            Some(h) => h.write(buf),
            None => {},
        }
        match &self.routing {
            Some(r) => r.routing.write(buf),
            None => {},
        }
        match &self.fragment {
            Some(f) => f.write(buf),
            None => {},
        }
        match &self.auth {
            Some(a) => a.write(buf),
            None => {},
        }
        match &self.routing {
            Some(r) => {
                match &r.final_destination_options {
                    Some(h) => h.write(buf),
                    None => {},
                }
            },
            None => {},
        }
        proof {
            let s1 = match self.hop_by_hop_options {
                Some(h) => h.spec_bytes(),
                None => Seq::<u8>::empty(),
            };
            let s2 = match self.destination_options {
                Some(h) => h.spec_bytes(),
                None => Seq::<u8>::empty(),
            };
            let s3 = match self.routing {
                Some(r) => r.routing.spec_bytes(),
                None => Seq::<u8>::empty(),
            };
            let s4 = match self.fragment {
                Some(f) => f.spec_bytes(),
                None => Seq::<u8>::empty(),
            };
            let s5 = match self.auth {
                Some(a) => a.spec_bytes(),
                None => Seq::<u8>::empty(),
            };
            let s6 = match self.routing {
                Some(r) => match r.final_destination_options {
                    Some(h) => h.spec_bytes(),
                    None => Seq::<u8>::empty(),
                },
                None => Seq::<u8>::empty(),
            };
            assert(buf@ =~= old(buf)@ + s1 + s2 + s3 + s4 + s5 + s6);
            assert(old(buf)@ + s1 + s2 + s3 + s4 + s5 + s6 =~= old(buf)@ + (s1 + s2 + s3 + s4 + s5
                + s6));
        }
    }

    /// Chaining keeps every slot's shape: well-formedness, lengths
    /// and bodies are untouched, only next-header fields change.
    pub proof fn lemma_chained_preserves_shape(self, last: u8)
        requires
            self.wf(),
        ensures
            self.spec_chained(last).wf(),
            self.spec_chained(last).spec_header_len() == self.spec_header_len(),
    {
    }

    /// Walk the extension chain that starts with `start_protocol`.
    /// Returns the decoded extensions, the first non-extension
    /// protocol value reached, and the bytes after the chain; the
    /// whole outcome, errors included, is pinned by `spec_walk` from
    /// an empty starting state. When `start_protocol` is no
    /// extension header the slice is returned whole and untouched.
    /// A hop-by-hop header anywhere but first, or the same extension
    /// type twice, is an error.
    pub fn from_slice<'a>(start_protocol: u8, slice: &'a [u8]) -> (r: Result<
        (Ipv6Extensions, u8, &'a [u8]),
        ReadError,
    >)
        ensures
            match r {
                Ok((e, next, rest)) => {
                    &&& spec_walk(
                        true,
                        Ipv6Extensions::spec_empty(),
                        start_protocol,
                        slice@,
                        Ok((e, next, rest@)),
                    )
                    &&& !spec_is_ipv6_ext_header_value(next)
                    &&& e.wf()
                    &&& rest@ == slice@.skip(slice@.len() - rest@.len())
                    &&& rest@.len() <= slice@.len()
                    &&& (!spec_is_ipv6_ext_header_value(start_protocol) ==> e
                        == Ipv6Extensions::spec_empty() && next == start_protocol && rest@
                        == slice@)
                },
                Err(er) => spec_walk(
                    true,
                    Ipv6Extensions::spec_empty(),
                    start_protocol,
                    slice@,
                    Err(er),
                ) && spec_is_ipv6_ext_header_value(start_protocol),
            },
    {
        let state = Ipv6Extensions {
            hop_by_hop_options: None,
            destination_options: None,
            routing: None,
            fragment: None,
            auth: None,
        };
        walk_rec(true, state, start_protocol, slice)
    }
}

/// Number of slots of `e` still open to the walker.
pub open spec fn spec_open_slots(e: Ipv6Extensions) -> int {
    (if e.hop_by_hop_options is Some {
        0int
    } else {
        1int
    }) + (if e.destination_options is Some {
        0int
    } else {
        1int
    }) + (match e.routing {
        Some(r) => if r.final_destination_options is Some {
            0int
        } else {
            1int
        },
        None => 2int,
    }) + (if e.fragment is Some {
        0int
    } else {
        1int
    }) + (if e.auth is Some {
        0int
    } else {
        1int
    })
}

/// The exact behaviour of one walking state: from the extensions
/// collected so far (`state`), the protocol value at hand (`next`)
/// and the remaining bytes `b`, the walk ends in `out`. A
/// non-extension value stops the walk; every extension header is
/// decoded, recorded in its slot, and the walk goes on behind it;
/// hop-by-hop after the first step, an occupied slot, or a header
/// that does not fit the bytes end the walk with the error that
/// names the fault.
pub open spec fn spec_walk(
    first: bool,
    state: Ipv6Extensions,
    next: u8,
    b: Seq<u8>,
    out: Result<(Ipv6Extensions, u8, Seq<u8>), ReadError>,
) -> bool
    decreases spec_open_slots(state),
{
    if !spec_is_ipv6_ext_header_value(next) {
        out == Result::<(Ipv6Extensions, u8, Seq<u8>), ReadError>::Ok((state, next, b))
    } else if next == ip_number::IPV6_HOP_BY_HOP {
        if !first {
            out == Result::<(Ipv6Extensions, u8, Seq<u8>), ReadError>::Err(
                ReadError::Ipv6HopByHopNotAtStart,
            )
        } else if state.hop_by_hop_options is Some {
            out == Result::<(Ipv6Extensions, u8, Seq<u8>), ReadError>::Err(
                ReadError::Ipv6TooManyHeaderExtensions,
            )
        } else if b.len() < 8 {
            out == Result::<(Ipv6Extensions, u8, Seq<u8>), ReadError>::Err(
                ReadError::UnexpectedEndOfSlice(8),
            )
        } else if b.len() < (b[1] + 1) * 8 {
            out == Result::<(Ipv6Extensions, u8, Seq<u8>), ReadError>::Err(
                ReadError::UnexpectedEndOfSlice(((b[1] + 1) * 8) as usize),
            )
        } else {
            exists|h: Ipv6RawExtHeader|
                #[trigger] h.spec_matches(b) && spec_walk(
                    false,
                    Ipv6Extensions { hop_by_hop_options: Some(h), ..state },
                    h.next_header,
                    b.skip((b[1] + 1) * 8),
                    out,
                )
        }
    } else if next == ip_number::IPV6_DEST_OPTIONS {
        if state.routing is None {
            if state.destination_options is Some {
                out == Result::<(Ipv6Extensions, u8, Seq<u8>), ReadError>::Err(
                    ReadError::Ipv6TooManyHeaderExtensions,
                )
            } else if b.len() < 8 {
                out == Result::<(Ipv6Extensions, u8, Seq<u8>), ReadError>::Err(
                    ReadError::UnexpectedEndOfSlice(8),
                )
            } else if b.len() < (b[1] + 1) * 8 {
                out == Result::<(Ipv6Extensions, u8, Seq<u8>), ReadError>::Err(
                    ReadError::UnexpectedEndOfSlice(((b[1] + 1) * 8) as usize),
                )
            } else {
                exists|h: Ipv6RawExtHeader|
                    #[trigger] h.spec_matches(b) && spec_walk(
                        false,
                        Ipv6Extensions { destination_options: Some(h), ..state },
                        h.next_header,
                        b.skip((b[1] + 1) * 8),
                        out,
                    )
            }
        } else {
            match state.routing {
                Some(rt) => {
                    if rt.final_destination_options is Some {
                        out == Result::<(Ipv6Extensions, u8, Seq<u8>), ReadError>::Err(
                            ReadError::Ipv6TooManyHeaderExtensions,
                        )
                    } else if b.len() < 8 {
                        out == Result::<(Ipv6Extensions, u8, Seq<u8>), ReadError>::Err(
                            ReadError::UnexpectedEndOfSlice(8),
                        )
                    } else if b.len() < (b[1] + 1) * 8 {
                        out == Result::<(Ipv6Extensions, u8, Seq<u8>), ReadError>::Err(
                            ReadError::UnexpectedEndOfSlice(((b[1] + 1) * 8) as usize),
                        )
                    } else {
                        exists|h: Ipv6RawExtHeader|
                            #[trigger] h.spec_matches(b) && spec_walk(
                                false,
                                Ipv6Extensions {
                                    routing: Some(
                                        Ipv6RoutingExtensions {
                                            final_destination_options: Some(h),
                                            ..rt
                                        },
                                    ),
                                    ..state
                                },
                                h.next_header,
                                b.skip((b[1] + 1) * 8),
                                out,
                            )
                    }
                },
                None => false,
            }
        }
    } else if next == ip_number::IPV6_ROUTE {
        if state.routing is Some {
            out == Result::<(Ipv6Extensions, u8, Seq<u8>), ReadError>::Err(
                ReadError::Ipv6TooManyHeaderExtensions,
            )
        } else if b.len() < 8 {
            out == Result::<(Ipv6Extensions, u8, Seq<u8>), ReadError>::Err(
                ReadError::UnexpectedEndOfSlice(8),
            )
        } else if b.len() < (b[1] + 1) * 8 {
            out == Result::<(Ipv6Extensions, u8, Seq<u8>), ReadError>::Err(
                ReadError::UnexpectedEndOfSlice(((b[1] + 1) * 8) as usize),
            )
        } else {
            exists|h: Ipv6RawExtHeader|
                #[trigger] h.spec_matches(b) && spec_walk(
                    false,
                    Ipv6Extensions {
                        routing: Some(
                            Ipv6RoutingExtensions {
                                routing: h,
                                final_destination_options: None,
                            },
                        ),
                        ..state
                    },
                    h.next_header,
                    b.skip((b[1] + 1) * 8),
                    out,
                )
        }
    } else if next == ip_number::IPV6_FRAG {
        if state.fragment is Some {
            out == Result::<(Ipv6Extensions, u8, Seq<u8>), ReadError>::Err(
                ReadError::Ipv6TooManyHeaderExtensions,
            )
        } else if b.len() < 8 {
            out == Result::<(Ipv6Extensions, u8, Seq<u8>), ReadError>::Err(
                ReadError::UnexpectedEndOfSlice(8),
            )
        } else {
            exists|h: Ipv6FragmentHeader|
                #[trigger] h.spec_matches(b) && spec_walk(
                    false,
                    Ipv6Extensions { fragment: Some(h), ..state },
                    h.next_header,
                    b.skip(8),
                    out,
                )
        }
    } else {
        if state.auth is Some {
            out == Result::<(Ipv6Extensions, u8, Seq<u8>), ReadError>::Err(
                ReadError::Ipv6TooManyHeaderExtensions,
            )
        } else if b.len() < 12 {
            out == Result::<(Ipv6Extensions, u8, Seq<u8>), ReadError>::Err(
                ReadError::UnexpectedEndOfSlice(12),
            )
        } else if b[1] < 1 {
            out == Result::<(Ipv6Extensions, u8, Seq<u8>), ReadError>::Err(
                ReadError::IpAuthenticationHeaderTooSmall(b[1]),
            )
        } else if b.len() < (b[1] + 2) * 4 {
            out == Result::<(Ipv6Extensions, u8, Seq<u8>), ReadError>::Err(
                ReadError::UnexpectedEndOfSlice(((b[1] + 2) * 4) as usize),
            )
        } else {
            exists|h: IpAuthenticationHeader|
                #[trigger] h.spec_matches(b) && spec_walk(
                    false,
                    Ipv6Extensions { auth: Some(h), ..state },
                    h.next_header,
                    b.skip((b[1] + 2) * 4),
                    out,
                )
        }
    }
}

/// The walk is a function of its inputs: one state, protocol and
/// byte run determine one outcome. Each step's header is pinned by
/// the bytes, so the chain of steps is pinned too.
pub proof fn lemma_walk_deterministic(
    first: bool,
    state: Ipv6Extensions,
    next: u8,
    b: Seq<u8>,
    o1: Result<(Ipv6Extensions, u8, Seq<u8>), ReadError>,
    o2: Result<(Ipv6Extensions, u8, Seq<u8>), ReadError>,
)
    requires
        spec_walk(first, state, next, b, o1),
        spec_walk(first, state, next, b, o2),
    ensures
        o1 == o2,
    decreases spec_open_slots(state),
{
    if !spec_is_ipv6_ext_header_value(next) {
    } else if next == ip_number::IPV6_HOP_BY_HOP {
        if first && state.hop_by_hop_options is None && b.len() >= 8 && b.len() >= (b[1] + 1)
            * 8 {
            let h1 = choose|h: Ipv6RawExtHeader|
                #[trigger] h.spec_matches(b) && spec_walk(
                    false,
                    Ipv6Extensions { hop_by_hop_options: Some(h), ..state },
                    h.next_header,
                    b.skip((b[1] + 1) * 8),
                    o1,
                );
            let h2 = choose|h: Ipv6RawExtHeader|
                #[trigger] h.spec_matches(b) && spec_walk(
                    false,
                    Ipv6Extensions { hop_by_hop_options: Some(h), ..state },
                    h.next_header,
                    b.skip((b[1] + 1) * 8),
                    o2,
                );
            Ipv6RawExtHeader::lemma_matches_unique(h1, h2, b);
            lemma_walk_deterministic(
                false,
                Ipv6Extensions { hop_by_hop_options: Some(h1), ..state },
                h1.next_header,
                b.skip((b[1] + 1) * 8),
                o1,
                o2,
            );
        }
    } else if next == ip_number::IPV6_DEST_OPTIONS {
        match state.routing {
            None => {
                if state.destination_options is None && b.len() >= 8 && b.len() >= (b[1] + 1)
                    * 8 {
                    let h1 = choose|h: Ipv6RawExtHeader|
                        #[trigger] h.spec_matches(b) && spec_walk(
                            false,
                            Ipv6Extensions { destination_options: Some(h), ..state },
                            h.next_header,
                            b.skip((b[1] + 1) * 8),
                            o1,
                        );
                    let h2 = choose|h: Ipv6RawExtHeader|
                        #[trigger] h.spec_matches(b) && spec_walk(
                            false,
                            Ipv6Extensions { destination_options: Some(h), ..state },
                            h.next_header,
                            b.skip((b[1] + 1) * 8),
                            o2,
                        );
                    Ipv6RawExtHeader::lemma_matches_unique(h1, h2, b);
                    lemma_walk_deterministic(
                        false,
                        Ipv6Extensions { destination_options: Some(h1), ..state },
                        h1.next_header,
                        b.skip((b[1] + 1) * 8),
                        o1,
                        o2,
                    );
                }
            },
            Some(rt) => {
                if rt.final_destination_options is None && b.len() >= 8 && b.len() >= (b[1] + 1)
                    * 8 {
                    let h1 = choose|h: Ipv6RawExtHeader|
                        #[trigger] h.spec_matches(b) && spec_walk(
                            false,
                            Ipv6Extensions {
                                routing: Some(
                                    Ipv6RoutingExtensions {
                                        final_destination_options: Some(h),
                                        ..rt
                                    },
                                ),
                                ..state
                            },
                            h.next_header,
                            b.skip((b[1] + 1) * 8),
                            o1,
                        );
                    let h2 = choose|h: Ipv6RawExtHeader|
                        #[trigger] h.spec_matches(b) && spec_walk(
                            false,
                            Ipv6Extensions {
                                routing: Some(
                                    Ipv6RoutingExtensions {
                                        final_destination_options: Some(h),
                                        ..rt
                                    },
                                ),
                                ..state
                            },
                            h.next_header,
                            b.skip((b[1] + 1) * 8),
                            o2,
                        );
                    Ipv6RawExtHeader::lemma_matches_unique(h1, h2, b);
                    lemma_walk_deterministic(
                        false,
                        Ipv6Extensions {
                            routing: Some(
                                Ipv6RoutingExtensions {
                                    final_destination_options: Some(h1),
                                    ..rt
                                },
                            ),
                            ..state
                        },
                        h1.next_header,
                        b.skip((b[1] + 1) * 8),
                        o1,
                        o2,
                    );
                }
            },
        }
    } else if next == ip_number::IPV6_ROUTE {
        if state.routing is None && b.len() >= 8 && b.len() >= (b[1] + 1) * 8 {
            let h1 = choose|h: Ipv6RawExtHeader|
                #[trigger] h.spec_matches(b) && spec_walk(
                    false,
                    Ipv6Extensions {
                        routing: Some(
                            Ipv6RoutingExtensions {
                                routing: h,
                                final_destination_options: None,
                            },
                        ),
                        ..state
                    },
                    h.next_header,
                    b.skip((b[1] + 1) * 8),
                    o1,
                );
            let h2 = choose|h: Ipv6RawExtHeader|
                #[trigger] h.spec_matches(b) && spec_walk(
                    false,
                    Ipv6Extensions {
                        routing: Some(
                            Ipv6RoutingExtensions {
                                routing: h,
                                final_destination_options: None,
                            },
                        ),
                        ..state
                    },
                    h.next_header,
                    b.skip((b[1] + 1) * 8),
                    o2,
                );
            Ipv6RawExtHeader::lemma_matches_unique(h1, h2, b);
            lemma_walk_deterministic(
                false,
                Ipv6Extensions {
                    routing: Some(
                        Ipv6RoutingExtensions { routing: h1, final_destination_options: None },
                    ),
                    ..state
                },
                h1.next_header,
                b.skip((b[1] + 1) * 8),
                o1,
                o2,
            );
        }
    } else if next == ip_number::IPV6_FRAG {
        if state.fragment is None && b.len() >= 8 {
            let h1 = choose|h: Ipv6FragmentHeader|
                #[trigger] h.spec_matches(b) && spec_walk(
                    false,
                    Ipv6Extensions { fragment: Some(h), ..state },
                    h.next_header,
                    b.skip(8),
                    o1,
                );
            let h2 = choose|h: Ipv6FragmentHeader|
                #[trigger] h.spec_matches(b) && spec_walk(
                    false,
                    Ipv6Extensions { fragment: Some(h), ..state },
                    h.next_header,
                    b.skip(8),
                    o2,
                );
            Ipv6FragmentHeader::lemma_matches_unique(h1, h2, b);
            lemma_walk_deterministic(
                false,
                Ipv6Extensions { fragment: Some(h1), ..state },
                h1.next_header,
                b.skip(8),
                o1,
                o2,
            );
        }
    } else {
        if state.auth is None && b.len() >= 12 && b[1] >= 1 && b.len() >= (b[1] + 2) * 4 {
            let h1 = choose|h: IpAuthenticationHeader|
                #[trigger] h.spec_matches(b) && spec_walk(
                    false,
                    Ipv6Extensions { auth: Some(h), ..state },
                    h.next_header,
                    b.skip((b[1] + 2) * 4),
                    o1,
                );
            let h2 = choose|h: IpAuthenticationHeader|
                #[trigger] h.spec_matches(b) && spec_walk(
                    false,
                    Ipv6Extensions { auth: Some(h), ..state },
                    h.next_header,
                    b.skip((b[1] + 2) * 4),
                    o2,
                );
            IpAuthenticationHeader::lemma_matches_unique(h1, h2, b);
            lemma_walk_deterministic(
                false,
                Ipv6Extensions { auth: Some(h1), ..state },
                h1.next_header,
                b.skip((b[1] + 2) * 4),
                o1,
                o2,
            );
        }
    }
}

/// One walking step: decode the extension header `next` names, put
/// it into its slot, and continue behind it.
fn walk_rec<'a>(first: bool, state: Ipv6Extensions, next: u8, cur: &'a [u8]) -> (r: Result<
    (Ipv6Extensions, u8, &'a [u8]),
    ReadError,
>)
    requires
        state.wf(),
    ensures
        match r {
            Ok((e, n, rest)) => {
                &&& spec_walk(first, state, next, cur@, Ok((e, n, rest@)))
                &&& !spec_is_ipv6_ext_header_value(n)
                &&& e.wf()
                &&& rest@ == cur@.skip(cur@.len() - rest@.len())
                &&& rest@.len() <= cur@.len()
                &&& (!spec_is_ipv6_ext_header_value(next) ==> e == state && n == next && rest@
                    == cur@)
            },
            Err(er) => spec_walk(first, state, next, cur@, Err(er))
                && spec_is_ipv6_ext_header_value(next),
        },
    decreases spec_open_slots(state),
{
    if !is_ipv6_ext_header_value(next) {
        return Ok((state, next, cur));
    }
    if next == ip_number::IPV6_HOP_BY_HOP {
        if !first {
            return Err(ReadError::Ipv6HopByHopNotAtStart);
        }
        if state.hop_by_hop_options.is_some() {
            return Err(ReadError::Ipv6TooManyHeaderExtensions);
        }
        let (h, rest) = match Ipv6RawExtHeader::from_slice(cur) {
            Ok(v) => v,
            Err(e) => {
                return Err(e);
            },
        };
        let r = walk_rec(
            false,
            Ipv6Extensions { hop_by_hop_options: Some(h), ..state },
            h.next_header,
            rest,
        );
        proof {
            assert(rest@ == cur@.skip((cur@[1] + 1) * 8));
            match r {
                Ok((e, n, rest2)) => {
                    assert(rest2@ =~= cur@.skip(cur@.len() - rest2@.len()));
                },
                Err(_) => {},
            }
        }
        r
    } else if next == ip_number::IPV6_DEST_OPTIONS {
        let routing_seen = state.routing.is_some();
        if !routing_seen {
            if state.destination_options.is_some() {
                return Err(ReadError::Ipv6TooManyHeaderExtensions);
            }
            let (h, rest) = match Ipv6RawExtHeader::from_slice(cur) {
                Ok(v) => v,
                Err(e) => {
                    return Err(e);
                },
            };
            let r = walk_rec(
                false,
                Ipv6Extensions { destination_options: Some(h), ..state },
                h.next_header,
                rest,
            );
            proof {
                assert(rest@ == cur@.skip((cur@[1] + 1) * 8));
                match r {
                    Ok((e, n, rest2)) => {
                        assert(rest2@ =~= cur@.skip(cur@.len() - rest2@.len()));
                    },
                    Err(_) => {},
                }
            }
            r
        } else {
            let rt = match state.routing {
                Some(rt) => rt,
                None => {
                    proof {
                        assert(false);
                    }
                    Ipv6RoutingExtensions {
                        routing: Ipv6RawExtHeader {
                            next_header: 0,
                            payload_buf: [0; 2046],
                            payload_len: 6,
                        },
                        final_destination_options: None,
                    }
                },
            };
            if rt.final_destination_options.is_some() {
                return Err(ReadError::Ipv6TooManyHeaderExtensions);
            }
            let (h, rest) = match Ipv6RawExtHeader::from_slice(cur) {
                Ok(v) => v,
                Err(e) => {
                    return Err(e);
                },
            };
            let r = walk_rec(
                false,
                Ipv6Extensions {
                    routing: Some(
                        Ipv6RoutingExtensions { final_destination_options: Some(h), ..rt },
                    ),
                    ..state
                },
                h.next_header,
                rest,
            );
            proof {
                assert(rest@ == cur@.skip((cur@[1] + 1) * 8));
                match r {
                    Ok((e, n, rest2)) => {
                        assert(rest2@ =~= cur@.skip(cur@.len() - rest2@.len()));
                    },
                    Err(_) => {},
                }
            }
            r
        }
    } else if next == ip_number::IPV6_ROUTE {
        if state.routing.is_some() {
            return Err(ReadError::Ipv6TooManyHeaderExtensions);
        }
        let (h, rest) = match Ipv6RawExtHeader::from_slice(cur) {
            Ok(v) => v,
            Err(e) => {
                return Err(e);
            },
        };
        let r = walk_rec(
            false,
            Ipv6Extensions {
                routing: Some(
                    Ipv6RoutingExtensions { routing: h, final_destination_options: None },
                ),
                ..state
            },
            h.next_header,
            rest,
        );
        proof {
            assert(rest@ == cur@.skip((cur@[1] + 1) * 8));
            match r {
                Ok((e, n, rest2)) => {
                    assert(rest2@ =~= cur@.skip(cur@.len() - rest2@.len()));
                },
                Err(_) => {},
            }
        }
        r
    } else if next == ip_number::IPV6_FRAG {
        if state.fragment.is_some() {
            return Err(ReadError::Ipv6TooManyHeaderExtensions);
        }
        let (h, rest) = match Ipv6FragmentHeader::from_slice(cur) {
            Ok(v) => v,
            Err(e) => {
                return Err(e);
            },
        };
        let r = walk_rec(false, Ipv6Extensions { fragment: Some(h), ..state }, h.next_header, rest);
        proof {
            assert(rest@ == cur@.skip(8));
            match r {
                Ok((e, n, rest2)) => {
                    assert(rest2@ =~= cur@.skip(cur@.len() - rest2@.len()));
                },
                Err(_) => {},
            }
        }
        r
    } else {
        if state.auth.is_some() {
            return Err(ReadError::Ipv6TooManyHeaderExtensions);
        }
        let (h, rest) = match IpAuthenticationHeader::from_slice(cur) {
            Ok(v) => v,
            Err(e) => {
                return Err(e);
            },
        };
        let r = walk_rec(false, Ipv6Extensions { auth: Some(h), ..state }, h.next_header, rest);
        proof {
            assert(rest@ == cur@.skip((cur@[1] + 2) * 4));
            match r {
                Ok((e, n, rest2)) => {
                    assert(rest2@ =~= cur@.skip(cur@.len() - rest2@.len()));
                },
                Err(_) => {},
            }
        }
        r
    }
}

} // verus!
