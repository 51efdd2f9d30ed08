//! The slicer: walks a byte buffer once and yields a packet view
//! whose parts are borrowed sub-slices of the input. Header values
//! are decoded from a slice only when asked for.

use vstd::prelude::*;

use crate::bytes::be16;
use crate::err::ReadError;
use crate::ether_type;
use crate::ip::Ipv4Extensions;
use crate::ip6ext::{spec_is_ipv6_ext_header_value, Ipv6Extensions};
use crate::ip_auth::IpAuthenticationHeader;
use crate::ip_number;
use crate::ipv4::Ipv4Header;
use crate::ipv6::Ipv6Header;
use crate::link::{DoubleVlanHeader, Ethernet2Header, SingleVlanHeader, VlanHeader};
use crate::tcp::TcpHeader;
use crate::udp::UdpHeader;
use crate::icmpv4::Icmpv4Header;
use crate::icmpv6::Icmpv6Header;
use vstd::slice::slice_subrange;

verus! {

/// A borrowed Ethernet II header: exactly its 14 bytes.
#[derive(Clone, Copy, Debug)]
pub struct Ethernet2HeaderSlice<'a> {
    pub slice: &'a [u8],
}

impl<'a> Ethernet2HeaderSlice<'a> {
    /// The slice covers exactly one header.
    pub open spec fn wf(self) -> bool {
        self.slice@.len() == 14
    }

    /// The ether-type field read from the bytes.
    pub fn ether_type(&self) -> (r: u16)
        requires
            self.wf(),
        ensures
            r == be16(self.slice@[12], self.slice@[13]),
    {
        crate::bytes::read_be16(self.slice, 12)
    }

    /// Decode the owned header from the borrowed bytes.
    pub fn to_header(&self) -> (r: Ethernet2Header)
        requires
            self.wf(),
        ensures
            r.spec_matches(self.slice@),
    {
        match Ethernet2Header::from_slice(self.slice) {
            Ok((h, _)) => h,
            Err(_) => {
                proof {
                    assert(false);
                }
                Ethernet2Header { source: [0; 6], destination: [0; 6], ether_type: 0 }
            },
        }
    }
}

/// A borrowed single VLAN tag: exactly its 4 bytes.
#[derive(Clone, Copy, Debug)]
pub struct SingleVlanHeaderSlice<'a> {
    pub slice: &'a [u8],
}

impl<'a> SingleVlanHeaderSlice<'a> {
    /// The slice covers exactly one tag.
    pub open spec fn wf(self) -> bool {
        self.slice@.len() == 4
    }

    /// Decode the owned header from the borrowed bytes.
    pub fn to_header(&self) -> (r: SingleVlanHeader)
        requires
            self.wf(),
        ensures
            r.spec_matches(self.slice@),
    {
        match SingleVlanHeader::from_slice(self.slice) {
            Ok((h, _)) => h,
            Err(_) => {
                proof {
                    assert(false);
                }
                SingleVlanHeader {
                    priority_code_point: 0,
                    drop_eligible_indicator: false,
                    vlan_identifier: 0,
                    ether_type: 0,
                }
            },
        }
    }
}

/// A borrowed double VLAN tag: exactly its 8 bytes.
#[derive(Clone, Copy, Debug)]
pub struct DoubleVlanHeaderSlice<'a> {
    pub slice: &'a [u8],
}

impl<'a> DoubleVlanHeaderSlice<'a> {
    /// The slice covers exactly both tags.
    pub open spec fn wf(self) -> bool {
        self.slice@.len() == 8
    }

    /// Decode the owned header from the borrowed bytes.
    pub fn to_header(&self) -> (r: DoubleVlanHeader)
        requires
            self.wf(),
        ensures
            r.spec_matches(self.slice@),
    {
        match DoubleVlanHeader::from_slice(self.slice) {
            Ok((h, _)) => h,
            Err(_) => {
                proof {
                    assert(false);
                }
                DoubleVlanHeader {
                    outer: SingleVlanHeader {
                        priority_code_point: 0,
                        drop_eligible_indicator: false,
                        vlan_identifier: 0,
                        ether_type: 0,
                    },
                    inner: SingleVlanHeader {
                        priority_code_point: 0,
                        drop_eligible_indicator: false,
                        vlan_identifier: 0,
                        ether_type: 0,
                    },
                }
            },
        }
    }
}

/// A borrowed VLAN tagging: one tag or two.
#[derive(Clone, Copy, Debug)]
pub enum VlanSlice<'a> {
    SingleVlan(SingleVlanHeaderSlice<'a>),
    DoubleVlan(DoubleVlanHeaderSlice<'a>),
}

impl<'a> VlanSlice<'a> {
    /// The slice inside covers exactly its tagging.
    pub open spec fn wf(self) -> bool {
        match self {
            VlanSlice::SingleVlan(s) => s.wf(),
            VlanSlice::DoubleVlan(d) => d.wf(),
        }
    }

    /// Decode the owned tagging from the borrowed bytes.
    pub fn to_header(&self) -> (r: VlanHeader)
        requires
            self.wf(),
        ensures
            match *self {
                VlanSlice::SingleVlan(s) => r matches VlanHeader::Single(h) && h.spec_matches(
                    s.slice@,
                ),
                VlanSlice::DoubleVlan(d) => r matches VlanHeader::Double(h) && h.spec_matches(
                    d.slice@,
                ),
            },
    {
        match self {
            VlanSlice::SingleVlan(s) => VlanHeader::Single(s.to_header()),
            VlanSlice::DoubleVlan(d) => VlanHeader::Double(d.to_header()),
        }
    }
}

/// A borrowed IPv4 header: exactly its bytes, options included.
#[derive(Clone, Copy, Debug)]
pub struct Ipv4HeaderSlice<'a> {
    pub slice: &'a [u8],
}

impl<'a> Ipv4HeaderSlice<'a> {
    /// The slice covers exactly one well-shaped header.
    pub open spec fn wf(self) -> bool {
        &&& self.slice@.len() >= 20
        &&& self.slice@[0] / 16 == 4
        &&& self.slice@[0] % 16 >= 5
        &&& self.slice@.len() == (self.slice@[0] % 16) * 4
        &&& be16(self.slice@[2], self.slice@[3]) >= (self.slice@[0] % 16) * 4
    }

    /// Decode the owned header from the borrowed bytes.
    pub fn to_header(&self) -> (r: Ipv4Header)
        requires
            self.wf(),
        ensures
            r.spec_matches(self.slice@),
    {
        match Ipv4Header::from_slice(self.slice) {
            Ok((h, _)) => h,
            Err(_) => {
                proof {
                    assert(false);
                }
                Ipv4Header::new(0, 0, 0, [0; 4], [0; 4])
            },
        }
    }
}

/// A borrowed IPv6 base header: exactly its 40 bytes.
#[derive(Clone, Copy, Debug)]
pub struct Ipv6HeaderSlice<'a> {
    pub slice: &'a [u8],
}

impl<'a> Ipv6HeaderSlice<'a> {
    /// The slice covers exactly one header with version 6.
    pub open spec fn wf(self) -> bool {
        self.slice@.len() == 40 && self.slice@[0] / 16 == 6
    }

    /// Decode the owned header from the borrowed bytes.
    pub fn to_header(&self) -> (r: Ipv6Header)
        requires
            self.wf(),
        ensures
            r.spec_matches(self.slice@),
    {
        match Ipv6Header::from_slice(self.slice) {
            Ok((h, _)) => h,
            Err(_) => {
                proof {
                    assert(false);
                }
                Ipv6Header {
                    traffic_class: 0,
                    flow_label: 0,
                    payload_length: 0,
                    next_header: 0,
                    hop_limit: 0,
                    source: [0; 16],
                    destination: [0; 16],
                }
            },
        }
    }
}

/// A borrowed internet layer: an IPv4 or IPv6 header slice, each
/// with its decoded extension headers.
#[derive(Clone, Copy, Debug)]
pub enum InternetSlice<'a> {
    Ipv4(Ipv4HeaderSlice<'a>, Ipv4Extensions),
    Ipv6(Ipv6HeaderSlice<'a>, Ipv6Extensions),
}

/// A borrowed UDP header: exactly its 8 bytes.
#[derive(Clone, Copy, Debug)]
pub struct UdpHeaderSlice<'a> {
    pub slice: &'a [u8],
}

impl<'a> UdpHeaderSlice<'a> {
    /// The slice covers exactly one header.
    pub open spec fn wf(self) -> bool {
        self.slice@.len() == 8
    }

    /// Decode the owned header from the borrowed bytes.
    pub fn to_header(&self) -> (r: UdpHeader)
        requires
            self.wf(),
        ensures
            r.spec_matches(self.slice@),
    {
        match UdpHeader::from_slice(self.slice) {
            Ok((h, _)) => h,
            Err(_) => {
                proof {
                    assert(false);
                }
                UdpHeader { source_port: 0, destination_port: 0, length: 0, checksum: 0 }
            },
        }
    }
}

/// A borrowed TCP header: exactly its bytes, options included.
#[derive(Clone, Copy, Debug)]
pub struct TcpHeaderSlice<'a> {
    pub slice: &'a [u8],
}

impl<'a> TcpHeaderSlice<'a> {
    /// The slice covers exactly one well-shaped header.
    pub open spec fn wf(self) -> bool {
        &&& self.slice@.len() >= 20
        &&& self.slice@[12] / 16 >= 5
        &&& self.slice@.len() == (self.slice@[12] / 16) * 4
    }

    /// Decode the owned header from the borrowed bytes.
    pub fn to_header(&self) -> (r: TcpHeader)
        requires
            self.wf(),
        ensures
            r.spec_matches(self.slice@),
    {
        match TcpHeader::from_slice(self.slice) {
            Ok((h, _)) => h,
            Err(_) => {
                proof {
                    assert(false);
                }
                TcpHeader::new(0, 0, 0, 0)
            },
        }
    }
}

/// The number of header bytes at the start of an ICMPv4 section:
/// 20 for a timestamp message, 8 otherwise.
pub open spec fn spec_icmpv4_header_len_of(b: Seq<u8>) -> int {
    if (b[0] == crate::icmpv4::TYPE_TIMESTAMP || b[0] == crate::icmpv4::TYPE_TIMESTAMP_REPLY)
        && b[1] == 0 && b.len() >= 20 {
        20
    } else {
        8
    }
}

/// A borrowed ICMPv4 section: the base header (with the timestamp
/// block when there is one) and the message payload after it.
#[derive(Clone, Copy, Debug)]
pub struct Icmpv4Slice<'a> {
    pub slice: &'a [u8],
}

impl<'a> Icmpv4Slice<'a> {
    /// The slice holds at least the base header.
    pub open spec fn wf(self) -> bool {
        self.slice@.len() >= 8
    }

    /// Decode the owned header from the borrowed bytes.
    pub fn to_header(&self) -> (r: Icmpv4Header)
        requires
            self.wf(),
        ensures
            r.spec_matches(self.slice@),
    {
        match Icmpv4Header::from_slice(self.slice) {
            Ok((h, _)) => h,
            Err(_) => {
                proof {
                    assert(false);
                }
                Icmpv4Header {
                    icmp_type: crate::icmpv4::Icmpv4Type::EchoReply(
                        crate::icmp::IcmpEchoHeader { id: 0, seq: 0 },
                    ),
                    checksum: 0,
                }
            },
        }
    }

    /// The message payload: the bytes after the header.
    pub fn payload(&self) -> (r: &'a [u8])
        requires
            self.wf(),
        ensures
            r@ == self.slice@.skip(spec_icmpv4_header_len_of(self.slice@)),
    {
        let hl: usize = if (self.slice[0] == crate::icmpv4::TYPE_TIMESTAMP || self.slice[0]
            == crate::icmpv4::TYPE_TIMESTAMP_REPLY) && self.slice[1] == 0 && self.slice.len()
            >= 20 {
            20
        } else {
            8
        };
        let r = slice_subrange(self.slice, hl, self.slice.len());
        assert(r@ =~= self.slice@.skip(spec_icmpv4_header_len_of(self.slice@)));
        r
    }
}

/// A borrowed ICMPv6 section: the 8 byte base header and the message
/// payload after it.
#[derive(Clone, Copy, Debug)]
pub struct Icmpv6Slice<'a> {
    pub slice: &'a [u8],
}

impl<'a> Icmpv6Slice<'a> {
    /// The slice holds at least the base header.
    pub open spec fn wf(self) -> bool {
        self.slice@.len() >= 8
    }

    /// Decode the owned header from the borrowed bytes.
    pub fn to_header(&self) -> (r: Icmpv6Header)
        requires
            self.wf(),
        ensures
            r.spec_matches(self.slice@),
    {
        match Icmpv6Header::from_slice(self.slice) {
            Ok((h, _)) => h,
            Err(_) => {
                proof {
                    assert(false);
                }
                Icmpv6Header {
                    icmp_type: crate::icmpv6::Icmpv6Type::EchoReply(
                        crate::icmp::IcmpEchoHeader { id: 0, seq: 0 },
                    ),
                    checksum: 0,
                }
            },
        }
    }

    /// The message payload: the bytes after the base header.
    pub fn payload(&self) -> (r: &'a [u8])
        requires
            self.wf(),
        ensures
            r@ == self.slice@.skip(8),
    {
        let r = slice_subrange(self.slice, 8, self.slice.len());
        assert(r@ =~= self.slice@.skip(8));
        r
    }
}

/// A borrowed transport layer. An unknown IP protocol is no error:
/// its number is kept and the remainder becomes the payload.
#[derive(Clone, Copy, Debug)]
pub enum TransportSlice<'a> {
    Udp(UdpHeaderSlice<'a>),
    Tcp(TcpHeaderSlice<'a>),
    Icmpv4(Icmpv4Slice<'a>),
    Icmpv6(Icmpv6Slice<'a>),
    Unknown(u8),
}

/// A packet view: every part is a borrowed sub-slice of the input
/// buffer, nothing is copied.
#[derive(Clone, Copy, Debug)]
pub struct SlicedPacket<'a> {
    pub link: Option<Ethernet2HeaderSlice<'a>>,
    pub vlan: Option<VlanSlice<'a>>,
    pub ip: Option<InternetSlice<'a>>,
    pub transport: Option<TransportSlice<'a>>,
    pub payload: &'a [u8],
}

/// True when the fragment slot of decoded IPv6 extensions says the
/// payload is fragmented.
pub open spec fn spec_frag6(e: Ipv6Extensions) -> bool {
    match e.fragment {
        Some(f) => f.more_fragments || f.fragment_offset != 0,
        None => false,
    }
}

/// True when the transport section `b` under the given protocol can
/// be sliced: the fixed part of the known header fits, any other
/// protocol and any fragmented payload pass through.
pub open spec fn spec_transport_ok(protocol: u8, frag: bool, b: Seq<u8>) -> bool {
    if frag {
        true
    } else if protocol == ip_number::UDP {
        b.len() >= 8
    } else if protocol == ip_number::TCP {
        b.len() >= 20 && b[12] / 16 >= 5 && b.len() >= (b[12] / 16) * 4
    } else if protocol == ip_number::ICMP {
        b.len() >= 8
    } else if protocol == ip_number::IPV6_ICMP {
        b.len() >= 8
    } else {
        true
    }
}

/// True when an authentication header fits the start of `b`.
pub open spec fn spec_auth_ok(b: Seq<u8>) -> bool {
    b.len() >= 12 && b[1] >= 1 && b.len() >= (b[1] + 2) * 4
}

/// True when an IPv4 section can be sliced to its end: the header
/// fits and is valid, the authentication header fits when the
/// protocol asks for one, and the transport after them fits.
pub open spec fn spec_ipv4_ok(b: Seq<u8>) -> bool {
    &&& b.len() >= 20
    &&& b[0] / 16 == 4
    &&& b[0] % 16 >= 5
    &&& b.len() >= (b[0] % 16) * 4
    &&& be16(b[2], b[3]) >= (b[0] % 16) * 4
    &&& {
        let hl = (b[0] % 16) * 4;
        let frag = ((b[6] / 32) % 2 == 1) || ((b[6] % 32) * 256 + b[7] != 0);
        let b2 = b.skip(hl);
        if b[9] == ip_number::AUTH {
            spec_auth_ok(b2) && spec_transport_ok(b2[0], frag, b2.skip((b2[1] + 2) * 4))
        } else {
            spec_transport_ok(b[9], frag, b2)
        }
    }
}

/// True when an IPv6 section can be sliced to its end: the base
/// header fits with version 6, the extension walk succeeds, and the
/// transport after it fits.
pub open spec fn spec_ipv6_ok(b: Seq<u8>) -> bool {
    &&& b.len() >= 40
    &&& b[0] / 16 == 6
    &&& exists|e: Ipv6Extensions, n: u8, k: int|
        {
            &&& 0 <= k <= b.len() - 40
            &&& #[trigger] crate::ip6ext::spec_walk(
                true,
                Ipv6Extensions::spec_empty(),
                b[6],
                b.skip(40),
                Ok((e, n, b.skip(40).skip(k))),
            )
            &&& spec_transport_ok(n, spec_frag6(e), b.skip(40).skip(k))
        }
}

/// True when the section under the given ether-type can be sliced.
pub open spec fn spec_ip_chain_ok(et: u16, b: Seq<u8>) -> bool {
    if et == ether_type::IPV4 {
        spec_ipv4_ok(b)
    } else if et == ether_type::IPV6 {
        spec_ipv6_ok(b)
    } else {
        true
    }
}

/// True when everything after the link layer can be sliced under the
/// given ether-type: the VLAN tags fit, then the internet chain.
pub open spec fn spec_et_ok(et: u16, b: Seq<u8>) -> bool {
    if ether_type::spec_is_vlan_ether_type(et) {
        &&& b.len() >= 4
        &&& if ether_type::spec_is_vlan_ether_type(be16(b[2], b[3])) {
            b.len() >= 8 && spec_ip_chain_ok(be16(b[6], b[7]), b.skip(8))
        } else {
            spec_ip_chain_ok(be16(b[2], b[3]), b.skip(4))
        }
    } else {
        spec_ip_chain_ok(et, b)
    }
}

/// The transport slot and payload are what the section `b` with the
/// given protocol demands: headers sliced for the known protocols,
/// the remainder for an unknown one, no transport on a fragmented
/// payload. For ICMP the section is carved out whole: its slice
/// keeps the message payload and the packet payload is empty.
pub open spec fn spec_rel_transport<'a>(
    protocol: u8,
    frag: bool,
    b: Seq<u8>,
    t: Option<TransportSlice<'a>>,
    payload: Seq<u8>,
) -> bool {
    if frag {
        t is None && payload == b
    } else if protocol == ip_number::UDP {
        match t {
            Some(TransportSlice::Udp(s)) => b.len() >= 8 && s.slice@ == b.take(8) && payload
                == b.skip(8),
            _ => false,
        }
    } else if protocol == ip_number::TCP {
        match t {
            Some(TransportSlice::Tcp(s)) => b.len() >= 20 && b[12] / 16 >= 5 && b.len() >= (b[12]
                / 16) * 4 && s.slice@ == b.take((b[12] / 16) * 4) && payload == b.skip(
                (b[12] / 16) * 4,
            ),
            _ => false,
        }
    } else if protocol == ip_number::ICMP {
        match t {
            Some(TransportSlice::Icmpv4(s)) => b.len() >= 8 && s.slice@ == b && payload.len()
                == 0,
            _ => false,
        }
    } else if protocol == ip_number::IPV6_ICMP {
        match t {
            Some(TransportSlice::Icmpv6(s)) => b.len() >= 8 && s.slice@ == b && payload.len()
                == 0,
            _ => false,
        }
    } else {
        match t {
            Some(TransportSlice::Unknown(p)) => p == protocol && payload == b,
            _ => false,
        }
    }
}

/// The internet slot onwards is what an IPv4 section `b` demands.
pub open spec fn spec_rel_ipv4<'a>(
    b: Seq<u8>,
    ip: Option<InternetSlice<'a>>,
    t: Option<TransportSlice<'a>>,
    payload: Seq<u8>,
) -> bool {
    &&& b.len() >= 20
    &&& b[0] / 16 == 4
    &&& b[0] % 16 >= 5
    &&& b.len() >= (b[0] % 16) * 4
    &&& be16(b[2], b[3]) >= (b[0] % 16) * 4
    &&& match ip {
        Some(InternetSlice::Ipv4(hs, e)) => {
            let hl = (b[0] % 16) * 4;
            let frag = ((b[6] / 32) % 2 == 1) || ((b[6] % 32) * 256 + b[7] != 0);
            &&& hs.slice@ == b.take(hl)
            &&& spec_rel_v4exts(b[9], frag, b.skip(hl), e, t, payload)
        },
        _ => false,
    }
}

/// The IPv4 extensions onwards are what the bytes after the IPv4
/// header demand: an authentication header when the protocol says
/// so, nothing otherwise.
pub open spec fn spec_rel_v4exts<'a>(
    protocol: u8,
    frag: bool,
    b: Seq<u8>,
    e: Ipv4Extensions,
    t: Option<TransportSlice<'a>>,
    payload: Seq<u8>,
) -> bool {
    if protocol == ip_number::AUTH {
        match e.auth {
            Some(a) => a.spec_matches(b) && spec_rel_transport(
                a.next_header,
                frag,
                b.skip((b[1] + 2) * 4),
                t,
                payload,
            ),
            None => false,
        }
    } else {
        e.auth is None && spec_rel_transport(protocol, frag, b, t, payload)
    }
}

/// The internet slot onwards is what an IPv6 section `b` demands.
/// The extension chain is summarized: some prefix of the section was
/// consumed, the protocol reached is no extension header, and when
/// the base header already names a non-extension protocol nothing
/// was consumed at all.
pub open spec fn spec_rel_ipv6<'a>(
    b: Seq<u8>,
    ip: Option<InternetSlice<'a>>,
    t: Option<TransportSlice<'a>>,
    payload: Seq<u8>,
) -> bool {
    &&& b.len() >= 40
    &&& b[0] / 16 == 6
    &&& match ip {
        Some(InternetSlice::Ipv6(hs, e)) => {
            &&& hs.slice@ == b.take(40)
            &&& e.wf()
            &&& exists|k: int, next: u8|
                {
                    &&& 0 <= k <= b.len() - 40
                    &&& !spec_is_ipv6_ext_header_value(next)
                    &&& (!spec_is_ipv6_ext_header_value(b[6]) ==> k == 0 && next == b[6] && e
                        == Ipv6Extensions::spec_empty())
                    &&& #[trigger] spec_rel_transport(next, spec_frag6(e), b.skip(40 + k), t, payload)
                }
        },
        _ => false,
    }
}

/// The internet slot onwards is what the section demands for the
/// ether-type that selected it: IPv4, IPv6, or a passthrough payload
/// for any other ether-type.
pub open spec fn spec_rel_ip_chain<'a>(
    et: u16,
    b: Seq<u8>,
    ip: Option<InternetSlice<'a>>,
    t: Option<TransportSlice<'a>>,
    payload: Seq<u8>,
) -> bool {
    if et == ether_type::IPV4 {
        spec_rel_ipv4(b, ip, t, payload)
    } else if et == ether_type::IPV6 {
        spec_rel_ipv6(b, ip, t, payload)
    } else {
        ip is None && t is None && payload == b
    }
}

/// Everything after the link layer is what the bytes demand for the
/// given ether-type, VLAN tags included: one tag, a second one when
/// the first tag's ether-type is again a tagging value, then the
/// internet chain.
pub open spec fn spec_rel_et<'a>(
    et: u16,
    b: Seq<u8>,
    vlan: Option<VlanSlice<'a>>,
    ip: Option<InternetSlice<'a>>,
    t: Option<TransportSlice<'a>>,
    payload: Seq<u8>,
) -> bool {
    if ether_type::spec_is_vlan_ether_type(et) {
        &&& b.len() >= 4
        &&& if ether_type::spec_is_vlan_ether_type(be16(b[2], b[3])) {
            &&& b.len() >= 8
            &&& match vlan {
                Some(VlanSlice::DoubleVlan(ds)) => ds.slice@ == b.take(8) && spec_rel_ip_chain(
                    be16(b[6], b[7]),
                    b.skip(8),
                    ip,
                    t,
                    payload,
                ),
                _ => false,
            }
        } else {
            match vlan {
                Some(VlanSlice::SingleVlan(ss)) => ss.slice@ == b.take(4) && spec_rel_ip_chain(
                    be16(b[2], b[3]),
                    b.skip(4),
                    ip,
                    t,
                    payload,
                ),
                _ => false,
            }
        }
    } else {
        vlan is None && spec_rel_ip_chain(et, b, ip, t, payload)
    }
}

/// Slice the transport section for the given protocol.
fn slice_transport<'a>(protocol: u8, frag: bool, data: &'a [u8]) -> (r: Result<
    (Option<TransportSlice<'a>>, &'a [u8]),
    ReadError,
>)
    ensures
        r is Ok <==> spec_transport_ok(protocol, frag, data@),
        match r {
            Ok((t, payload)) => spec_rel_transport(protocol, frag, data@, t, payload@),
            Err(_) => !frag,
        },
{
    if frag {
        return Ok((None, data));
    }
    if protocol == ip_number::UDP {
        if data.len() < 8 {
            return Err(ReadError::UnexpectedEndOfSlice(8));
        }
        let s = UdpHeaderSlice { slice: slice_subrange(data, 0, 8) };
        let payload = slice_subrange(data, 8, data.len());
        assert(s.slice@ =~= data@.take(8) && payload@ =~= data@.skip(8));
        Ok((Some(TransportSlice::Udp(s)), payload))
    } else if protocol == ip_number::TCP {
        if data.len() < 20 {
            return Err(ReadError::UnexpectedEndOfSlice(20));
        }
        let data_offset = data[12] / 16;
        if data_offset < 5 {
            return Err(ReadError::TcpDataOffsetTooSmall(data_offset));
        }
        let hl: usize = (data_offset as usize) * 4;
        if data.len() < hl {
            return Err(ReadError::UnexpectedEndOfSlice(hl));
        }
        let s = TcpHeaderSlice { slice: slice_subrange(data, 0, hl) };
        let payload = slice_subrange(data, hl, data.len());
        assert(s.slice@ =~= data@.take((data@[12] / 16) * 4) && payload@ =~= data@.skip(
            (data@[12] / 16) * 4,
        ));
        Ok((Some(TransportSlice::Tcp(s)), payload))
    } else if protocol == ip_number::ICMP {
        if data.len() < 8 {
            return Err(ReadError::UnexpectedEndOfSlice(8));
        }
        let s = Icmpv4Slice { slice: data };
        let payload = slice_subrange(data, data.len(), data.len());
        assert(payload@ =~= data@.skip(data@.len() as int));
        Ok((Some(TransportSlice::Icmpv4(s)), payload))
    } else if protocol == ip_number::IPV6_ICMP {
        if data.len() < 8 {
            return Err(ReadError::UnexpectedEndOfSlice(8));
        }
        let s = Icmpv6Slice { slice: data };
        let payload = slice_subrange(data, data.len(), data.len());
        assert(payload@ =~= data@.skip(data@.len() as int));
        Ok((Some(TransportSlice::Icmpv6(s)), payload))
    } else {
        Ok((Some(TransportSlice::Unknown(protocol)), data))
    }
}

/// Slice an IPv4 section: header, extensions, transport.
fn slice_ipv4<'a>(data: &'a [u8]) -> (r: Result<
    (Option<InternetSlice<'a>>, Option<TransportSlice<'a>>, &'a [u8]),
    ReadError,
>)
    ensures
        r is Ok <==> spec_ipv4_ok(data@),
        match r {
            Ok((ip, t, payload)) => spec_rel_ipv4(data@, ip, t, payload@),
            Err(_) => true,
        },
{
    if data.len() < 20 {
        return Err(ReadError::UnexpectedEndOfSlice(20));
    }
    let b0 = data[0];
    let version = b0 / 16;
    if version != 4 {
        return Err(ReadError::Ipv4UnexpectedVersion(version));
    }
    let ihl = b0 % 16;
    if ihl < 5 {
        return Err(ReadError::Ipv4HeaderLengthBad(ihl));
    }
    let hl: usize = (ihl as usize) * 4;
    if data.len() < hl {
        return Err(ReadError::UnexpectedEndOfSlice(hl));
    }
    let total_len = crate::bytes::read_be16(data, 2);
    if (total_len as usize) < hl {
        return Err(ReadError::Ipv4TotalLengthTooSmall(total_len));
    }
    let hs = Ipv4HeaderSlice { slice: slice_subrange(data, 0, hl) };
    assert(hs.slice@ =~= data@.take((data@[0] % 16) * 4));
    let b6 = data[6];
    let frag = (b6 / 32) % 2 == 1 || ((b6 % 32) as u16) * 256 + (data[7] as u16) != 0;
    let protocol = data[9];
    let after = slice_subrange(data, hl, data.len());
    assert(after@ =~= data@.skip((data@[0] % 16) * 4));
    if protocol == ip_number::AUTH {
        let (a, rest) = match IpAuthenticationHeader::from_slice(after) {
            Ok(v) => v,
            Err(e) => {
                return Err(e);
            },
        };
        let next = a.next_header;
        let (t, payload) = match slice_transport(next, frag, rest) {
            Ok(v) => v,
            Err(e) => {
                return Err(e);
            },
        };
        let e = Ipv4Extensions { auth: Some(a) };
        Ok((Some(InternetSlice::Ipv4(hs, e)), t, payload))
    } else {
        let (t, payload) = match slice_transport(protocol, frag, after) {
            Ok(v) => v,
            Err(e) => {
                return Err(e);
            },
        };
        Ok((Some(InternetSlice::Ipv4(hs, Ipv4Extensions { auth: None })), t, payload))
    }
}

/// Slice an IPv6 section: base header, extension chain, transport.
fn slice_ipv6<'a>(data: &'a [u8]) -> (r: Result<
    (Option<InternetSlice<'a>>, Option<TransportSlice<'a>>, &'a [u8]),
    ReadError,
>)
    ensures
        r is Ok <==> spec_ipv6_ok(data@),
        match r {
            Ok((ip, t, payload)) => spec_rel_ipv6(data@, ip, t, payload@),
            Err(_) => true,
        },
{
    if data.len() < 40 {
        return Err(ReadError::UnexpectedEndOfSlice(40));
    }
    let version = data[0] / 16;
    if version != 6 {
        return Err(ReadError::Ipv6UnexpectedVersion(version));
    }
    let hs = Ipv6HeaderSlice { slice: slice_subrange(data, 0, 40) };
    assert(hs.slice@ =~= data@.take(40));
    let next_header = data[6];
    let after = slice_subrange(data, 40, data.len());
    assert(after@ =~= data@.skip(40));
    let (e, next, rest) = match Ipv6Extensions::from_slice(next_header, after) {
        Ok(v) => v,
        Err(er) => {
            proof {
                if spec_ipv6_ok(data@) {
                    let (e2, n2, k2): (Ipv6Extensions, u8, int) = choose|
                        e2: Ipv6Extensions,
                        n2: u8,
                        k2: int,
                    |
                        {
                            &&& 0 <= k2 <= data@.len() - 40
                            &&& #[trigger] crate::ip6ext::spec_walk(
                                true,
                                Ipv6Extensions::spec_empty(),
                                data@[6],
                                data@.skip(40),
                                Ok((e2, n2, data@.skip(40).skip(k2))),
                            )
                            &&& spec_transport_ok(n2, spec_frag6(e2), data@.skip(40).skip(k2))
                        };
                    crate::ip6ext::lemma_walk_deterministic(
                        true,
                        Ipv6Extensions::spec_empty(),
                        data@[6],
                        data@.skip(40),
                        Err(er),
                        Ok((e2, n2, data@.skip(40).skip(k2))),
                    );
                }
            }
            return Err(er);
        },
    };
    let frag = match &e.fragment {
        Some(f) => f.is_fragmenting_payload(),
        None => false,
    };
    let (t, payload) = match slice_transport(next, frag, rest) {
        Ok(v) => v,
        Err(er) => {
            proof {
                if spec_ipv6_ok(data@) {
                    let (e2, n2, k2): (Ipv6Extensions, u8, int) = choose|
                        e2: Ipv6Extensions,
                        n2: u8,
                        k2: int,
                    |
                        {
                            &&& 0 <= k2 <= data@.len() - 40
                            &&& #[trigger] crate::ip6ext::spec_walk(
                                true,
                                Ipv6Extensions::spec_empty(),
                                data@[6],
                                data@.skip(40),
                                Ok((e2, n2, data@.skip(40).skip(k2))),
                            )
                            &&& spec_transport_ok(n2, spec_frag6(e2), data@.skip(40).skip(k2))
                        };
                    crate::ip6ext::lemma_walk_deterministic(
                        true,
                        Ipv6Extensions::spec_empty(),
                        data@[6],
                        data@.skip(40),
                        Ok((e, next, rest@)),
                        Ok((e2, n2, data@.skip(40).skip(k2))),
                    );
                }
            }
            return Err(er);
        },
    };
    proof {
        let k = after@.len() - rest@.len();
        assert(after@.skip(k) == rest@);
        assert(data@.skip(40 + k) =~= after@.skip(k));
        assert(spec_rel_transport(next, spec_frag6(e), data@.skip(40 + k), t, payload@));
    }
    Ok((Some(InternetSlice::Ipv6(hs, e)), t, payload))
}

/// Slice everything after the link layer for a given ether-type.
fn slice_ip_chain<'a>(et: u16, data: &'a [u8]) -> (r: Result<
    (Option<InternetSlice<'a>>, Option<TransportSlice<'a>>, &'a [u8]),
    ReadError,
>)
    ensures
        r is Ok <==> spec_ip_chain_ok(et, data@),
        match r {
            Ok((ip, t, payload)) => spec_rel_ip_chain(et, data@, ip, t, payload@),
            Err(_) => true,
        },
{
    if et == ether_type::IPV4 {
        slice_ipv4(data)
    } else if et == ether_type::IPV6 {
        slice_ipv6(data)
    } else {
        Ok((None, None, data))
    }
}

impl<'a> SlicedPacket<'a> {
    /// Slice a buffer that starts after a link header of the given
    /// ether-type: VLAN tags, internet layer, transport layer. The
    /// link slot stays empty.
    pub fn from_ether_type(ether_type_value: u16, data: &'a [u8]) -> (r: Result<
        SlicedPacket<'a>,
        ReadError,
    >)
        ensures
            match r {
                Ok(p) => p.link is None && spec_rel_et(
                    ether_type_value,
                    data@,
                    p.vlan,
                    p.ip,
                    p.transport,
                    p.payload@,
                ),
                Err(_) => true,
            },
            r is Ok <==> spec_et_ok(ether_type_value, data@),
    {
        if ether_type::is_vlan_ether_type(ether_type_value) {
            if data.len() < 4 {
                return Err(ReadError::UnexpectedEndOfSlice(4));
            }
            let inner_et = crate::bytes::read_be16(data, 2);
            if ether_type::is_vlan_ether_type(inner_et) {
                if data.len() < 8 {
                    return Err(ReadError::UnexpectedEndOfSlice(8));
                }
                let ds = DoubleVlanHeaderSlice { slice: slice_subrange(data, 0, 8) };
                assert(ds.slice@ =~= data@.take(8));
                let after = slice_subrange(data, 8, data.len());
                assert(after@ =~= data@.skip(8));
                let second_et = crate::bytes::read_be16(data, 6);
                let (ip, t, payload) = match slice_ip_chain(second_et, after) {
                    Ok(v) => v,
                    Err(e) => {
                        return Err(e);
                    },
                };
                Ok(
                    SlicedPacket {
                        link: None,
                        vlan: Some(VlanSlice::DoubleVlan(ds)),
                        ip,
                        transport: t,
                        payload,
                    },
                )
            } else {
                let ss = SingleVlanHeaderSlice { slice: slice_subrange(data, 0, 4) };
                assert(ss.slice@ =~= data@.take(4));
                let after = slice_subrange(data, 4, data.len());
                assert(after@ =~= data@.skip(4));
                let (ip, t, payload) = match slice_ip_chain(inner_et, after) {
                    Ok(v) => v,
                    Err(e) => {
                        return Err(e);
                    },
                };
                Ok(
                    SlicedPacket {
                        link: None,
                        vlan: Some(VlanSlice::SingleVlan(ss)),
                        ip,
                        transport: t,
                        payload,
                    },
                )
            }
        } else {
            let (ip, t, payload) = match slice_ip_chain(ether_type_value, data) {
                Ok(v) => v,
                Err(e) => {
                    return Err(e);
                },
            };
            Ok(SlicedPacket { link: None, vlan: None, ip, transport: t, payload })
        }
    }

    /// Slice a buffer that starts with an Ethernet II header.
    pub fn from_ethernet(data: &'a [u8]) -> (r: Result<SlicedPacket<'a>, ReadError>)
        ensures
            match r {
                Ok(p) => {
                    &&& data@.len() >= 14
                    &&& match p.link {
                        Some(ls) => ls.slice@ == data@.take(14),
                        None => false,
                    }
                    &&& spec_rel_et(
                        be16(data@[12], data@[13]),
                        data@.skip(14),
                        p.vlan,
                        p.ip,
                        p.transport,
                        p.payload@,
                    )
                },
                Err(e) => data@.len() < 14 ==> e == ReadError::UnexpectedEndOfSlice(14),
            },
            r is Ok <==> data@.len() >= 14 && spec_et_ok(
                be16(data@[12], data@[13]),
                data@.skip(14),
            ),
    {
        if data.len() < 14 {
            return Err(ReadError::UnexpectedEndOfSlice(14));
        }
        let ls = Ethernet2HeaderSlice { slice: slice_subrange(data, 0, 14) };
        assert(ls.slice@ =~= data@.take(14));
        let et = crate::bytes::read_be16(data, 12);
        let after = slice_subrange(data, 14, data.len());
        assert(after@ =~= data@.skip(14));
        let mut p = match SlicedPacket::from_ether_type(et, after) {
            Ok(p) => p,
            Err(e) => {
                return Err(e);
            },
        };
        p.link = Some(ls);
        Ok(p)
    }

    /// Slice a buffer that starts directly with an IP header; the
    /// version field selects IPv4 or IPv6.
    pub fn from_ip(data: &'a [u8]) -> (r: Result<SlicedPacket<'a>, ReadError>)
        ensures
            match r {
                Ok(p) => {
                    &&& p.link is None
                    &&& p.vlan is None
                    &&& data@.len() > 0
                    &&& (data@[0] / 16 == 4 && spec_rel_ipv4(data@, p.ip, p.transport, p.payload@))
                        || (data@[0] / 16 == 6 && spec_rel_ipv6(
                        data@,
                        p.ip,
                        p.transport,
                        p.payload@,
                    ))
                },
                Err(e) => {
                    &&& (data@.len() == 0 ==> e == ReadError::UnexpectedEndOfSlice(1))
                    &&& (data@.len() > 0 && data@[0] / 16 != 4 && data@[0] / 16 != 6 ==> e
                        == ReadError::IpUnsupportedVersion(data@[0] / 16))
                },
            },
            r is Ok <==> data@.len() > 0 && ((data@[0] / 16 == 4 && spec_ipv4_ok(data@)) || (
            data@[0] / 16 == 6 && spec_ipv6_ok(data@))),
    {
        if data.len() == 0 {
            return Err(ReadError::UnexpectedEndOfSlice(1));
        }
        let version = data[0] / 16;
        if version == 4 {
            let (ip, t, payload) = match slice_ipv4(data) {
                Ok(v) => v,
                Err(e) => {
                    return Err(e);
                },
            };
            Ok(SlicedPacket { link: None, vlan: None, ip, transport: t, payload })
        } else if version == 6 {
            let (ip, t, payload) = match slice_ipv6(data) {
                Ok(v) => v,
                Err(e) => {
                    return Err(e);
                },
            };
            Ok(SlicedPacket { link: None, vlan: None, ip, transport: t, payload })
        } else {
            Err(ReadError::IpUnsupportedVersion(version))
        }
    }
}

} // verus!
