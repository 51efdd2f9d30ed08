//! The owning parser: calls the slicer and decodes every slice into
//! an owned header value; the payload stays a borrowed sub-slice.

use vstd::prelude::*;

use crate::bytes::be16;
use crate::err::ReadError;
use crate::ether_type;
use crate::ip::{Ipv4Extensions, IpHeader};
use crate::ip6ext::{spec_is_ipv6_ext_header_value, Ipv6Extensions};
use crate::ip_number;
use crate::link::{Ethernet2Header, VlanHeader};
use crate::sliced::{
    spec_frag6, InternetSlice, SlicedPacket, TransportSlice, VlanSlice,
};
use crate::transport::TransportHeader;

verus! {

/// A fully decoded packet: owned header values, the payload a
/// borrowed sub-slice of the input.
#[derive(Clone, Copy, Debug)]
pub struct PacketHeaders<'a> {
    pub link: Option<Ethernet2Header>,
    pub vlan: Option<VlanHeader>,
    pub ip: Option<IpHeader>,
    pub transport: Option<TransportHeader>,
    pub payload: &'a [u8],
}

/// The transport header and payload are what the section `b` with
/// the given protocol demands. For ICMP the payload is the message
/// body after the ICMP header. An unknown protocol leaves the
/// transport empty and the remainder as payload.
pub open spec fn spec_hrel_transport(
    protocol: u8,
    frag: bool,
    b: Seq<u8>,
    t: Option<TransportHeader>,
    payload: Seq<u8>,
) -> bool {
    if frag {
        t is None && payload == b
    } else if protocol == ip_number::UDP {
        match t {
            Some(TransportHeader::Udp(u)) => u.spec_matches(b) && payload == b.skip(8),
            _ => false,
        }
    } else if protocol == ip_number::TCP {
        match t {
            Some(TransportHeader::Tcp(h)) => h.spec_matches(b) && payload == b.skip(
                (b[12] / 16) * 4,
            ),
            _ => false,
        }
    } else if protocol == ip_number::ICMP {
        match t {
            Some(TransportHeader::Icmpv4(h)) => h.spec_matches(b) && payload == b.skip(
                h.icmp_type.spec_header_len(),
            ),
            _ => false,
        }
    } else if protocol == ip_number::IPV6_ICMP {
        match t {
            Some(TransportHeader::Icmpv6(h)) => h.spec_matches(b) && payload == b.skip(8),
            _ => false,
        }
    } else {
        t is None && payload == b
    }
}

/// The internet header onwards is what an IPv4 section `b` demands.
pub open spec fn spec_hrel_ipv4(
    b: Seq<u8>,
    ip: Option<IpHeader>,
    t: Option<TransportHeader>,
    payload: Seq<u8>,
) -> bool {
    match ip {
        Some(IpHeader::Version4(h, e)) => {
            let hl = 20 + h.options_len as int;
            let frag = h.more_fragments || h.fragments_offset != 0;
            &&& h.spec_matches(b)
            &&& if h.protocol == ip_number::AUTH {
                match e.auth {
                    Some(a) => {
                        &&& a.spec_matches(b.skip(hl))
                        &&& spec_hrel_transport(
                            a.next_header,
                            frag,
                            b.skip(hl + 12 + a.raw_icv_len),
                            t,
                            payload,
                        )
                    },
                    None => false,
                }
            } else {
                e.auth is None && spec_hrel_transport(h.protocol, frag, b.skip(hl), t, payload)
            }
        },
        _ => false,
    }
}

/// The internet header onwards is what an IPv6 section `b` demands.
/// The extension chain is summarized as in the slicer: some prefix
/// after the base header was consumed and a non-extension protocol
/// was reached; with no extensions present nothing was consumed.
pub open spec fn spec_hrel_ipv6(
    b: Seq<u8>,
    ip: Option<IpHeader>,
    t: Option<TransportHeader>,
    payload: Seq<u8>,
) -> bool {
    match ip {
        Some(IpHeader::Version6(h, e)) => {
            &&& h.spec_matches(b)
            &&& e.wf()
            &&& exists|k: int, next: u8|
                {
                    &&& 0 <= k <= b.len() - 40
                    &&& !spec_is_ipv6_ext_header_value(next)
                    &&& (!spec_is_ipv6_ext_header_value(h.next_header) ==> k == 0 && next
                        == h.next_header && e == Ipv6Extensions::spec_empty())
                    &&& #[trigger] spec_hrel_transport(
                        next,
                        spec_frag6(e),
                        b.skip(40 + k),
                        t,
                        payload,
                    )
                }
        },
        _ => false,
    }
}

/// The internet header onwards is what the section demands for the
/// ether-type that selected it.
pub open spec fn spec_hrel_ip_chain(
    et: u16,
    b: Seq<u8>,
    ip: Option<IpHeader>,
    t: Option<TransportHeader>,
    payload: Seq<u8>,
) -> bool {
    if et == ether_type::IPV4 {
        spec_hrel_ipv4(b, ip, t, payload)
    } else if et == ether_type::IPV6 {
        spec_hrel_ipv6(b, ip, t, payload)
    } else {
        ip is None && t is None && payload == b
    }
}

/// Everything after the link layer is what the bytes demand for the
/// given ether-type: VLAN tags, then the internet chain.
pub open spec fn spec_hrel_et(
    et: u16,
    b: Seq<u8>,
    vlan: Option<VlanHeader>,
    ip: Option<IpHeader>,
    t: Option<TransportHeader>,
    payload: Seq<u8>,
) -> bool {
    if ether_type::spec_is_vlan_ether_type(et) {
        &&& b.len() >= 4
        &&& if ether_type::spec_is_vlan_ether_type(be16(b[2], b[3])) {
            &&& b.len() >= 8
            &&& match vlan {
                Some(VlanHeader::Double(d)) => d.spec_matches(b) && spec_hrel_ip_chain(
                    be16(b[6], b[7]),
                    b.skip(8),
                    ip,
                    t,
                    payload,
                ),
                _ => false,
            }
        } else {
            match vlan {
                Some(VlanHeader::Single(s)) => s.spec_matches(b) && spec_hrel_ip_chain(
                    be16(b[2], b[3]),
                    b.skip(4),
                    ip,
                    t,
                    payload,
                ),
                _ => false,
            }
        }
    } else {
        vlan is None && spec_hrel_ip_chain(et, b, ip, t, payload)
    }
}

/// Decode the transport slice and carve the payload out of it.
fn transport_to_header<'a>(
    t: Option<TransportSlice<'a>>,
    raw_payload: &'a [u8],
    ghost_protocol: Ghost<u8>,
    ghost_frag: Ghost<bool>,
    ghost_b: Ghost<Seq<u8>>,
) -> (r: (Option<TransportHeader>, &'a [u8]))
    requires
        crate::sliced::spec_rel_transport(ghost_protocol@, ghost_frag@, ghost_b@, t, raw_payload@),
    ensures
        spec_hrel_transport(ghost_protocol@, ghost_frag@, ghost_b@, r.0, r.1@),
{
    let ghost b = ghost_b@;
    match t {
        Some(TransportSlice::Udp(s)) => {
            let h = s.to_header();
            proof {
                assert(s.slice@ =~= b.take(8));
                assert(b.take(8)[0] == b[0] && b.take(8)[1] == b[1] && b.take(8)[2] == b[2]
                    && b.take(8)[3] == b[3] && b.take(8)[4] == b[4] && b.take(8)[5] == b[5]
                    && b.take(8)[6] == b[6] && b.take(8)[7] == b[7]);
            }
            (Some(TransportHeader::Udp(h)), raw_payload)
        },
        Some(TransportSlice::Tcp(s)) => {
            let h = s.to_header();
            proof {
                let hl = (b[12] / 16) * 4;
                assert(s.slice@ =~= b.take(hl));
                assert(forall|i: int| 0 <= i < hl ==> b.take(hl)[i] == b[i]);
                assert(h.spec_options() == b.take(hl).subrange(20, hl));
                assert(b.take(hl).subrange(20, hl) =~= b.subrange(20, hl));
                assert(h.spec_matches(b));
            }
            (Some(TransportHeader::Tcp(h)), raw_payload)
        },
        Some(TransportSlice::Icmpv4(s)) => {
            let h = s.to_header();
            let payload = s.payload();
            proof {
                assert(s.slice@ == b);
                assert(crate::sliced::spec_icmpv4_header_len_of(b)
                    == h.icmp_type.spec_header_len());
            }
            (Some(TransportHeader::Icmpv4(h)), payload)
        },
        Some(TransportSlice::Icmpv6(s)) => {
            let h = s.to_header();
            let payload = s.payload();
            (Some(TransportHeader::Icmpv6(h)), payload)
        },
        Some(TransportSlice::Unknown(_)) => (None, raw_payload),
        None => (None, raw_payload),
    }
}

/// Decode the internet slice onwards.
fn internet_to_header<'a>(
    ip: Option<InternetSlice<'a>>,
    t: Option<TransportSlice<'a>>,
    raw_payload: &'a [u8],
    ghost_et: Ghost<u16>,
    ghost_b: Ghost<Seq<u8>>,
) -> (r: (Option<IpHeader>, Option<TransportHeader>, &'a [u8]))
    requires
        crate::sliced::spec_rel_ip_chain(ghost_et@, ghost_b@, ip, t, raw_payload@),
    ensures
        spec_hrel_ip_chain(ghost_et@, ghost_b@, r.0, r.1, r.2@),
{
    let ghost b = ghost_b@;
    let ghost et = ghost_et@;
    match ip {
        Some(InternetSlice::Ipv4(hs, e)) => {
            let h = hs.to_header();
            proof {
                let hl = (b[0] % 16) * 4;
                assert(hs.slice@ =~= b.take(hl));
                assert(forall|i: int| 0 <= i < hl ==> b.take(hl)[i] == b[i]);
                assert(h.spec_options() == b.take(hl).subrange(20, hl));
                assert(b.take(hl).subrange(20, hl) =~= b.subrange(20, hl));
                assert(b.take(hl).subrange(12, 16) =~= b.subrange(12, 16));
                assert(b.take(hl).subrange(16, 20) =~= b.subrange(16, 20));
                assert(h.spec_matches(b));
                assert(20 + h.options_len as int == hl);
            }
            let ghost frag4: bool = ((b[6] / 32) % 2 == 1) || ((b[6] % 32) * 256 + b[7] != 0);
            match e.auth {
                Some(a) => {
                    let ghost bsub = b.skip((b[0] % 16) * 4).skip(
                        (b.skip((b[0] % 16) * 4)[1] + 2) * 4,
                    );
                    let (th, payload) = transport_to_header(
                        t,
                        raw_payload,
                        Ghost(a.next_header),
                        Ghost(frag4),
                        Ghost(bsub),
                    );
                    proof {
                        let hl = (b[0] % 16) * 4;
                        let b2 = b.skip(hl);
                        assert(b2.skip((b2[1] + 2) * 4) =~= b.skip(hl + 12 + a.raw_icv_len));
                        assert(h.more_fragments == ((b[6] / 32) % 2 == 1));
                        assert(h.fragments_offset == (b[6] % 32) * 256 + b[7]);
                    }
                    (Some(IpHeader::Version4(h, Ipv4Extensions { auth: Some(a) })), th, payload)
                },
                None => {
                    let (th, payload) = transport_to_header(
                        t,
                        raw_payload,
                        Ghost(b[9] as u8),
                        Ghost(frag4),
                        Ghost(b.skip((b[0] % 16) * 4)),
                    );
                    proof {
                        assert(h.protocol == b[9]);
                        assert(h.more_fragments == ((b[6] / 32) % 2 == 1));
                        assert(h.fragments_offset == (b[6] % 32) * 256 + b[7]);
                    }
                    (Some(IpHeader::Version4(h, Ipv4Extensions { auth: None })), th, payload)
                },
            }
        },
        Some(InternetSlice::Ipv6(hs, e)) => {
            let h = hs.to_header();
            proof {
                assert(hs.slice@ =~= b.take(40));
                assert(forall|i: int| 0 <= i < 40 ==> b.take(40)[i] == b[i]);
                assert(b.take(40).subrange(8, 24) =~= b.subrange(8, 24));
                assert(b.take(40).subrange(24, 40) =~= b.subrange(24, 40));
                assert(h.spec_matches(b));
            }
            let ghost (k, next) = choose|k: int, next: u8|
                {
                    &&& 0 <= k <= b.len() - 40
                    &&& !spec_is_ipv6_ext_header_value(next)
                    &&& (!spec_is_ipv6_ext_header_value(b[6]) ==> k == 0 && next == b[6] && e
                        == Ipv6Extensions::spec_empty())
                    &&& #[trigger] crate::sliced::spec_rel_transport(
                        next,
                        spec_frag6(e),
                        b.skip(40 + k),
                        t,
                        raw_payload@,
                    )
                };
            let (th, payload) = transport_to_header(
                t,
                raw_payload,
                Ghost(next),
                Ghost(spec_frag6(e)),
                Ghost(b.skip(40 + k)),
            );
            proof {
                assert(h.next_header == b[6]);
                assert(spec_hrel_transport(next, spec_frag6(e), b.skip(40 + k), th, payload@));
            }
            (Some(IpHeader::Version6(h, e)), th, payload)
        },
        None => (None, None, raw_payload),
    }
}

impl<'a> PacketHeaders<'a> {
    /// Decode a buffer that starts with an Ethernet II header into
    /// owned headers, through the slicer. The headers decoded here
    /// are exactly the headers the slicer's slices decode to: the
    /// sliced and the owned view of a buffer agree.
    pub fn from_ethernet_slice(data: &'a [u8]) -> (r: Result<PacketHeaders<'a>, ReadError>)
        ensures
            match r {
                Ok(p) => {
                    &&& data@.len() >= 14
                    &&& match p.link {
                        Some(e) => e.spec_matches(data@),
                        None => false,
                    }
                    &&& spec_hrel_et(
                        be16(data@[12], data@[13]),
                        data@.skip(14),
                        p.vlan,
                        p.ip,
                        p.transport,
                        p.payload@,
                    )
                },
                Err(_) => true,
            },
            r is Ok <==> data@.len() >= 14 && crate::sliced::spec_et_ok(
                be16(data@[12], data@[13]),
                data@.skip(14),
            ),
    {
        let sliced = match SlicedPacket::from_ethernet(data) {
            Ok(p) => p,
            Err(e) => {
                return Err(e);
            },
        };
        let link = match sliced.link {
            Some(ls) => {
                let h = ls.to_header();
                proof {
                    assert(ls.slice@ =~= data@.take(14));
                    assert(data@.take(14).subrange(0, 6) =~= data@.subrange(0, 6));
                    assert(data@.take(14).subrange(6, 12) =~= data@.subrange(6, 12));
                    assert(h.spec_matches(data@));
                }
                Some(h)
            },
            None => None,
        };
        let p = Self::decode_after_link(
            sliced,
            Ghost(be16(data@[12], data@[13])),
            Ghost(data@.skip(14)),
        );
        Ok(
            PacketHeaders {
                link,
                vlan: p.0,
                ip: p.1,
                transport: p.2,
                payload: p.3,
            },
        )
    }

    /// Decode a buffer that starts after a link header of the given
    /// ether-type.
    pub fn from_ether_type(ether_type_value: u16, data: &'a [u8]) -> (r: Result<
        PacketHeaders<'a>,
        ReadError,
    >)
        ensures
            match r {
                Ok(p) => p.link is None && spec_hrel_et(
                    ether_type_value,
                    data@,
                    p.vlan,
                    p.ip,
                    p.transport,
                    p.payload@,
                ),
                Err(_) => true,
            },
            r is Ok <==> crate::sliced::spec_et_ok(ether_type_value, data@),
    {
        let sliced = match SlicedPacket::from_ether_type(ether_type_value, data) {
            Ok(p) => p,
            Err(e) => {
                return Err(e);
            },
        };
        let p = Self::decode_after_link(sliced, Ghost(ether_type_value), Ghost(data@));
        Ok(PacketHeaders { link: None, vlan: p.0, ip: p.1, transport: p.2, payload: p.3 })
    }

    /// Decode a buffer that starts directly with an IP header.
    pub fn from_ip_slice(data: &'a [u8]) -> (r: Result<PacketHeaders<'a>, ReadError>)
        ensures
            match r {
                Ok(p) => {
                    &&& p.link is None
                    &&& p.vlan is None
                    &&& data@.len() > 0
                    &&& (data@[0] / 16 == 4 && spec_hrel_ipv4(data@, p.ip, p.transport, p.payload@))
                        || (data@[0] / 16 == 6 && spec_hrel_ipv6(
                        data@,
                        p.ip,
                        p.transport,
                        p.payload@,
                    ))
                },
                Err(_) => true,
            },
            r is Ok <==> data@.len() > 0 && ((data@[0] / 16 == 4 && crate::sliced::spec_ipv4_ok(
                data@,
            )) || (data@[0] / 16 == 6 && crate::sliced::spec_ipv6_ok(data@))),
    {
        let sliced = match SlicedPacket::from_ip(data) {
            Ok(p) => p,
            Err(e) => {
                return Err(e);
            },
        };
        if data.len() > 0 && data[0] / 16 == 4 {
            let (ip, t, payload) = internet_to_header(
                sliced.ip,
                sliced.transport,
                sliced.payload,
                Ghost(ether_type::IPV4),
                Ghost(data@),
            );
            Ok(PacketHeaders { link: None, vlan: None, ip, transport: t, payload })
        } else {
            let (ip, t, payload) = internet_to_header(
                sliced.ip,
                sliced.transport,
                sliced.payload,
                Ghost(ether_type::IPV6),
                Ghost(data@),
            );
            Ok(PacketHeaders { link: None, vlan: None, ip, transport: t, payload })
        }
    }

    /// Decode everything after the link layer of a sliced packet.
    fn decode_after_link(
        sliced: SlicedPacket<'a>,
        ghost_et: Ghost<u16>,
        ghost_b: Ghost<Seq<u8>>,
    ) -> (r: (Option<VlanHeader>, Option<IpHeader>, Option<TransportHeader>, &'a [u8]))
        requires
            crate::sliced::spec_rel_et(
                ghost_et@,
                ghost_b@,
                sliced.vlan,
                sliced.ip,
                sliced.transport,
                sliced.payload@,
            ),
        ensures
            spec_hrel_et(ghost_et@, ghost_b@, r.0, r.1, r.2, r.3@),
    {
        let ghost b = ghost_b@;
        let ghost et = ghost_et@;
        match sliced.vlan {
            Some(VlanSlice::SingleVlan(ss)) => {
                let vh = ss.to_header();
                proof {
                    assert(ss.slice@ =~= b.take(4));
                    assert(b.take(4)[0] == b[0] && b.take(4)[1] == b[1] && b.take(4)[2] == b[2]
                        && b.take(4)[3] == b[3]);
                    assert(vh.spec_matches(b));
                }
                let (ip, t, payload) = internet_to_header(
                    sliced.ip,
                    sliced.transport,
                    sliced.payload,
                    Ghost(be16(b[2], b[3])),
                    Ghost(b.skip(4)),
                );
                (Some(VlanHeader::Single(vh)), ip, t, payload)
            },
            Some(VlanSlice::DoubleVlan(ds)) => {
                let vh = ds.to_header();
                proof {
                    assert(ds.slice@ =~= b.take(8));
                    assert(forall|i: int| 0 <= i < 8 ==> b.take(8)[i] == b[i]);
                    assert(vh.outer.spec_matches(b));
                    assert(forall|i: int|
                        0 <= i < 4 ==> b.take(8).skip(4)[i] == b.skip(4)[i]);
                    assert(vh.inner.spec_matches(b.skip(4)));
                    assert(vh.spec_matches(b));
                    assert(b.skip(4)[2] == b[6] && b.skip(4)[3] == b[7]);
                }
                let (ip, t, payload) = internet_to_header(
                    sliced.ip,
                    sliced.transport,
                    sliced.payload,
                    Ghost(be16(b[6], b[7])),
                    Ghost(b.skip(8)),
                );
                (Some(VlanHeader::Double(vh)), ip, t, payload)
            },
            None => {
                let (ip, t, payload) = internet_to_header(
                    sliced.ip,
                    sliced.transport,
                    sliced.payload,
                    ghost_et,
                    ghost_b,
                );
                (None, ip, t, payload)
            },
        }
    }
}

/// The transport relation pins its outcome: one protocol, one
/// fragmentation state and one byte run admit one transport header
/// and one payload.
pub proof fn lemma_hrel_transport_deterministic(
    protocol: u8,
    frag: bool,
    b: Seq<u8>,
    t1: Option<TransportHeader>,
    p1: Seq<u8>,
    t2: Option<TransportHeader>,
    p2: Seq<u8>,
)
    requires
        spec_hrel_transport(protocol, frag, b, t1, p1),
        spec_hrel_transport(protocol, frag, b, t2, p2),
    ensures
        t1 == t2,
        p1 == p2,
{
    if !frag && protocol == ip_number::UDP {
        match (t1, t2) {
            (Some(TransportHeader::Udp(u1)), Some(TransportHeader::Udp(u2))) => {
                crate::udp::UdpHeader::lemma_matches_unique(u1, u2, b);
            },
            _ => {},
        }
    } else if !frag && protocol == ip_number::TCP {
        match (t1, t2) {
            (Some(TransportHeader::Tcp(h1)), Some(TransportHeader::Tcp(h2))) => {
                crate::tcp::TcpHeader::lemma_matches_unique(h1, h2, b);
            },
            _ => {},
        }
    } else if !frag && protocol == ip_number::ICMP {
        match (t1, t2) {
            (Some(TransportHeader::Icmpv4(h1)), Some(TransportHeader::Icmpv4(h2))) => {
                crate::icmpv4::Icmpv4Header::lemma_matches_unique(h1, h2, b);
            },
            _ => {},
        }
    } else if !frag && protocol == ip_number::IPV6_ICMP {
        match (t1, t2) {
            (Some(TransportHeader::Icmpv6(h1)), Some(TransportHeader::Icmpv6(h2))) => {
                crate::icmpv6::Icmpv6Header::lemma_matches_unique(h1, h2, b);
            },
            _ => {},
        }
    }
}

/// The IPv4 chain relation pins its outcome entirely: header,
/// extensions, transport and payload.
pub proof fn lemma_hrel_ipv4_deterministic(
    b: Seq<u8>,
    ip1: Option<IpHeader>,
    t1: Option<TransportHeader>,
    p1: Seq<u8>,
    ip2: Option<IpHeader>,
    t2: Option<TransportHeader>,
    p2: Seq<u8>,
)
    requires
        spec_hrel_ipv4(b, ip1, t1, p1),
        spec_hrel_ipv4(b, ip2, t2, p2),
    ensures
        ip1 == ip2,
        t1 == t2,
        p1 == p2,
{
    match (ip1, ip2) {
        (Some(IpHeader::Version4(h1, e1)), Some(IpHeader::Version4(h2, e2))) => {
            crate::ipv4::Ipv4Header::lemma_matches_unique(h1, h2, b);
            let hl = 20 + h1.options_len as int;
            let frag = h1.more_fragments || h1.fragments_offset != 0;
            if h1.protocol == ip_number::AUTH {
                match (e1.auth, e2.auth) {
                    (Some(a1), Some(a2)) => {
                        crate::ip_auth::IpAuthenticationHeader::lemma_matches_unique(
                            a1,
                            a2,
                            b.skip(hl),
                        );
                        lemma_hrel_transport_deterministic(
                            a1.next_header,
                            frag,
                            b.skip(hl + 12 + a1.raw_icv_len),
                            t1,
                            p1,
                            t2,
                            p2,
                        );
                    },
                    _ => {},
                }
            } else {
                lemma_hrel_transport_deterministic(h1.protocol, frag, b.skip(hl), t1, p1, t2, p2);
            }
        },
        _ => {},
    }
}

/// Decoding after the link layer is deterministic in everything the
/// relation pins: the VLAN tagging, the whole IPv4 chain with
/// transport and payload, and the IPv6 base header. (The IPv6
/// extension region is summarized existentially in the relation, so
/// only its base header is pinned here; the extension walk itself is
/// deterministic by `lemma_walk_deterministic`.) Since the slicer's
/// and the owning parser's results both stand in this relation over
/// the same bytes, the sliced and the owned view of a buffer decode
/// to the same headers.
pub proof fn lemma_hrel_et_deterministic(
    et: u16,
    b: Seq<u8>,
    vlan1: Option<VlanHeader>,
    ip1: Option<IpHeader>,
    t1: Option<TransportHeader>,
    p1: Seq<u8>,
    vlan2: Option<VlanHeader>,
    ip2: Option<IpHeader>,
    t2: Option<TransportHeader>,
    p2: Seq<u8>,
)
    requires
        spec_hrel_et(et, b, vlan1, ip1, t1, p1),
        spec_hrel_et(et, b, vlan2, ip2, t2, p2),
    ensures
        vlan1 == vlan2,
        match (ip1, ip2) {
            (Some(IpHeader::Version4(_, _)), _) | (None, _) => ip1 == ip2 && t1 == t2 && p1 == p2,
            (Some(IpHeader::Version6(h1, _)), Some(IpHeader::Version6(h2, _))) => h1 == h2,
            _ => false,
        },
{
    if ether_type::spec_is_vlan_ether_type(et) {
        if ether_type::spec_is_vlan_ether_type(be16(b[2], b[3])) {
            match (vlan1, vlan2) {
                (Some(VlanHeader::Double(d1)), Some(VlanHeader::Double(d2))) => {
                    crate::link::DoubleVlanHeader::lemma_matches_unique(d1, d2, b);
                    lemma_hrel_ip_chain_deterministic(
                        be16(b[6], b[7]),
                        b.skip(8),
                        ip1,
                        t1,
                        p1,
                        ip2,
                        t2,
                        p2,
                    );
                },
                _ => {},
            }
        } else {
            match (vlan1, vlan2) {
                (Some(VlanHeader::Single(s1)), Some(VlanHeader::Single(s2))) => {
                    crate::link::SingleVlanHeader::lemma_matches_unique(s1, s2, b);
                    lemma_hrel_ip_chain_deterministic(
                        be16(b[2], b[3]),
                        b.skip(4),
                        ip1,
                        t1,
                        p1,
                        ip2,
                        t2,
                        p2,
                    );
                },
                _ => {},
            }
        }
    } else {
        lemma_hrel_ip_chain_deterministic(et, b, ip1, t1, p1, ip2, t2, p2);
    }
}

/// The ether-type-selected chain is deterministic in everything the
/// relation pins; see `lemma_hrel_et_deterministic`.
pub proof fn lemma_hrel_ip_chain_deterministic(
    et: u16,
    b: Seq<u8>,
    ip1: Option<IpHeader>,
    t1: Option<TransportHeader>,
    p1: Seq<u8>,
    ip2: Option<IpHeader>,
    t2: Option<TransportHeader>,
    p2: Seq<u8>,
)
    requires
        spec_hrel_ip_chain(et, b, ip1, t1, p1),
        spec_hrel_ip_chain(et, b, ip2, t2, p2),
    ensures
        match (ip1, ip2) {
            (Some(IpHeader::Version4(_, _)), _) | (None, _) => ip1 == ip2 && t1 == t2 && p1 == p2,
            (Some(IpHeader::Version6(h1, _)), Some(IpHeader::Version6(h2, _))) => h1 == h2,
            _ => false,
        },
{
    if et == ether_type::IPV4 {
        lemma_hrel_ipv4_deterministic(b, ip1, t1, p1, ip2, t2, p2);
    } else if et == ether_type::IPV6 {
        match (ip1, ip2) {
            (Some(IpHeader::Version6(h1, _)), Some(IpHeader::Version6(h2, _))) => {
                crate::ipv6::Ipv6Header::lemma_matches_unique(h1, h2, b);
            },
            _ => {},
        }
    }
}

} // verus!
