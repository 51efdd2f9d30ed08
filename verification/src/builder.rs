//! The builder pipeline: a staged constructor that accepts layers in
//! order (link, VLAN, IP, transport), where each stage only offers
//! the legal next calls. At write time the linkage fields of the
//! outer layers are computed from the inner ones: ether-types, the
//! IP protocol and next-header chain, length fields and checksums.
//! Whatever a caller put in those fields is overridden.

use vstd::prelude::*;

use crate::err::{ValueError, WriteError};
use crate::ether_type;
use crate::icmp::IcmpEchoHeader;
use crate::icmpv4::{Icmpv4Header, Icmpv4Type};
use crate::icmpv6::{Icmpv6Header, Icmpv6Type};
use crate::ip::{Ipv4Extensions, IpHeader};
use crate::ip6ext::Ipv6Extensions;
use crate::ip_number;
use crate::ipv4::Ipv4Header;
use crate::ipv6::Ipv6Header;
use crate::link::{DoubleVlanHeader, Ethernet2Header, SingleVlanHeader, VlanHeader};
use crate::tcp::TcpHeader;
use crate::tcp_options::TcpOptionElement;
use crate::udp::UdpHeader;

verus! {

/// The ether-type that announces the IP version of `ip`.
pub open spec fn spec_ip_ether_type(ip: IpHeader) -> u16 {
    match ip {
        IpHeader::Version4(_, _) => ether_type::IPV4,
        IpHeader::Version6(_, _) => ether_type::IPV6,
    }
}

/// The link header with its ether-type overridden: the IP version's
/// value without a tag, the customer tag value under one tag, the
/// service tag value under two.
pub open spec fn spec_adjusted_link(
    link: Ethernet2Header,
    vlan: Option<VlanHeader>,
    ip: IpHeader,
) -> Ethernet2Header {
    Ethernet2Header {
        ether_type: match vlan {
            None => spec_ip_ether_type(ip),
            Some(VlanHeader::Single(_)) => ether_type::VLAN_TAGGED_FRAME,
            Some(VlanHeader::Double(_)) => ether_type::PROVIDER_BRIDGING,
        },
        ..link
    }
}

/// The VLAN tagging with its ether-types overridden: the inner (or
/// only) tag announces the IP version, the outer tag announces the
/// inner tag.
pub open spec fn spec_adjusted_vlan(vlan: VlanHeader, ip: IpHeader) -> VlanHeader {
    match vlan {
        VlanHeader::Single(s) => VlanHeader::Single(
            SingleVlanHeader { ether_type: spec_ip_ether_type(ip), ..s },
        ),
        VlanHeader::Double(d) => VlanHeader::Double(
            DoubleVlanHeader {
                outer: SingleVlanHeader {
                    ether_type: ether_type::VLAN_TAGGED_FRAME,
                    ..d.outer
                },
                inner: SingleVlanHeader { ether_type: spec_ip_ether_type(ip), ..d.inner },
            },
        ),
    }
}

/// The bytes of the adjusted link layer: link header and tags with
/// their ether-types overridden.
pub open spec fn spec_link_bytes(
    link: Option<Ethernet2Header>,
    vlan: Option<VlanHeader>,
    ip: IpHeader,
) -> Seq<u8> {
    (match link {
        Some(l) => spec_adjusted_link(l, vlan, ip).spec_bytes(),
        None => Seq::<u8>::empty(),
    }) + (match vlan {
        Some(v) => spec_adjusted_vlan(v, ip).spec_bytes(),
        None => Seq::<u8>::empty(),
    })
}

/// The IPv4 header and extensions with the builder's overrides for a
/// payload of `rest_len` bytes after the extensions, carried for the
/// transport protocol `tproto`: the protocol field points at the
/// first extension or the transport, the total length is computed,
/// the header checksum is set.
pub open spec fn spec_adjusted_ipv4(
    h: Ipv4Header,
    e: Ipv4Extensions,
    rest_len: int,
    tproto: u8,
) -> (Ipv4Header, Ipv4Extensions) {
    let e2 = e.spec_chained(tproto);
    let h2 = Ipv4Header {
        protocol: e.spec_first_header(tproto),
        payload_len: (e.spec_header_len() + rest_len) as u16,
        ..h
    };
    let h3 = Ipv4Header { header_checksum: h2.spec_header_checksum(), ..h2 };
    (h3, e2)
}

/// The IPv6 header and extensions with the builder's overrides: the
/// next-header chain is linked up and the payload length computed.
pub open spec fn spec_adjusted_ipv6(
    h: Ipv6Header,
    e: Ipv6Extensions,
    rest_len: int,
    tproto: u8,
) -> (Ipv6Header, Ipv6Extensions) {
    let e2 = e.spec_chained(tproto);
    let h2 = Ipv6Header {
        next_header: e.spec_first_header(tproto),
        payload_length: (e.spec_header_len() + rest_len) as u16,
        ..h
    };
    (h2, e2)
}

/// The bytes of the adjusted internet layer.
pub open spec fn spec_ip_bytes(ip: IpHeader, rest_len: int, tproto: u8) -> Seq<u8> {
    match ip {
        IpHeader::Version4(h, e) => {
            let (h2, e2) = spec_adjusted_ipv4(h, e, rest_len, tproto);
            h2.spec_bytes() + e2.spec_bytes()
        },
        IpHeader::Version6(h, e) => {
            let (h2, e2) = spec_adjusted_ipv6(h, e, rest_len, tproto);
            h2.spec_bytes() + e2.spec_bytes()
        },
    }
}

/// The source and destination bytes the transport checksum's
/// pseudo-header takes from `ip`.
pub open spec fn spec_ip_source(ip: IpHeader) -> Seq<u8> {
    match ip {
        IpHeader::Version4(h, _) => h.source@,
        IpHeader::Version6(h, _) => h.source@,
    }
}

/// The destination counterpart of `spec_ip_source`.
pub open spec fn spec_ip_destination(ip: IpHeader) -> Seq<u8> {
    match ip {
        IpHeader::Version4(h, _) => h.destination@,
        IpHeader::Version6(h, _) => h.destination@,
    }
}

/// True when the internet layer's length field leaves room for
/// `rest_len` bytes of transport header and payload behind its
/// extensions.
pub open spec fn spec_ip_payload_fits(ip: IpHeader, rest_len: int) -> bool {
    match ip {
        IpHeader::Version4(h, e) => e.spec_header_len() + rest_len <= 0xFFFF - 20 - h.options_len,
        IpHeader::Version6(_, e) => e.spec_header_len() + rest_len <= 0xFFFF,
    }
}

/// Number of bytes of the headers above the transport layer.
pub open spec fn spec_outer_len(
    link: Option<Ethernet2Header>,
    vlan: Option<VlanHeader>,
    ip: IpHeader,
) -> int {
    (match link {
        Some(_) => 14int,
        None => 0int,
    }) + (match vlan {
        Some(VlanHeader::Single(_)) => 4int,
        Some(VlanHeader::Double(_)) => 8int,
        None => 0int,
    }) + (match ip {
        IpHeader::Version4(h, e) => h.spec_header_len() + e.spec_header_len(),
        IpHeader::Version6(_, e) => 40 + e.spec_header_len(),
    })
}

/// Headers above the transport layer, well formed.
pub open spec fn spec_outer_wf(
    link: Option<Ethernet2Header>,
    vlan: Option<VlanHeader>,
    ip: IpHeader,
) -> bool {
    &&& (vlan matches Some(v) ==> v.wf())
    &&& ip.wf()
}

/// Entry point of the staged builder.
pub struct PacketBuilder {}

/// The builder after the link layer: an IP layer or a VLAN tagging
/// may follow.
pub struct PacketBuilderStepLink {
    pub link: Option<Ethernet2Header>,
}

/// The builder after a VLAN tagging: an IP layer must follow.
pub struct PacketBuilderStepVlan {
    pub link: Option<Ethernet2Header>,
    pub vlan: VlanHeader,
}

/// The builder after the internet layer: a transport layer must
/// follow.
pub struct PacketBuilderStepIp {
    pub link: Option<Ethernet2Header>,
    pub vlan: Option<VlanHeader>,
    pub ip: IpHeader,
}

impl PacketBuilder {
    /// Start with an Ethernet II header; its ether-type is computed
    /// at write time.
    pub fn ethernet2(source: [u8; 6], destination: [u8; 6]) -> (r: PacketBuilderStepLink)
        ensures
            r.link == Some(Ethernet2Header { source, destination, ether_type: 0 }),
    {
        PacketBuilderStepLink {
            link: Some(Ethernet2Header { source, destination, ether_type: 0 }),
        }
    }

    /// Start with an IP header, no link layer: the buffer begins
    /// with the IP header.
    pub fn ip(ip: IpHeader) -> (r: PacketBuilderStepIp)
        ensures
            r.link is None && r.vlan is None && r.ip == ip,
    {
        PacketBuilderStepIp { link: None, vlan: None, ip }
    }

    /// Start with a fresh IPv4 header, no link layer.
    pub fn ipv4(source: [u8; 4], destination: [u8; 4], time_to_live: u8) -> (r:
        PacketBuilderStepIp)
        ensures
            r.link is None && r.vlan is None && (r.ip matches IpHeader::Version4(h, e)
                && h.spec_is_fresh(0, time_to_live, 0, source, destination)
                && e.spec_is_empty()),
            spec_outer_wf(r.link, r.vlan, r.ip),
    {
        PacketBuilderStepIp {
            link: None,
            vlan: None,
            ip: IpHeader::Version4(
                Ipv4Header::new(0, time_to_live, 0, source, destination),
                Ipv4Extensions { auth: None },
            ),
        }
    }

    /// Start with a fresh IPv6 header, no link layer.
    pub fn ipv6(source: [u8; 16], destination: [u8; 16], hop_limit: u8) -> (r:
        PacketBuilderStepIp)
        ensures
            r.link is None && r.vlan is None && (r.ip matches IpHeader::Version6(h, e)
                && h == (Ipv6Header {
                traffic_class: 0,
                flow_label: 0,
                payload_length: 0,
                next_header: 0,
                hop_limit,
                source,
                destination,
            }) && e == Ipv6Extensions::spec_empty()),
            spec_outer_wf(r.link, r.vlan, r.ip),
    {
        PacketBuilderStepIp {
            link: None,
            vlan: None,
            ip: IpHeader::Version6(
                Ipv6Header {
                    traffic_class: 0,
                    flow_label: 0,
                    payload_length: 0,
                    next_header: 0,
                    hop_limit,
                    source,
                    destination,
                },
                Ipv6Extensions {
                    hop_by_hop_options: None,
                    destination_options: None,
                    routing: None,
                    fragment: None,
                    auth: None,
                },
            ),
        }
    }
}

impl PacketBuilderStepLink {
    /// Continue with an IP header; its linkage fields are computed
    /// at write time.
    pub fn ip(self, ip: IpHeader) -> (r: PacketBuilderStepIp)
        ensures
            r.link == self.link && r.vlan is None && r.ip == ip,
    {
        PacketBuilderStepIp { link: self.link, vlan: None, ip }
    }

    /// Continue with a fresh IPv4 header.
    pub fn ipv4(self, source: [u8; 4], destination: [u8; 4], time_to_live: u8) -> (r:
        PacketBuilderStepIp)
        ensures
            r.link == self.link && r.vlan is None && (r.ip matches IpHeader::Version4(h, e)
                && h.spec_is_fresh(0, time_to_live, 0, source, destination)
                && e.spec_is_empty()),
    {
        PacketBuilderStepIp {
            link: self.link,
            vlan: None,
            ip: IpHeader::Version4(
                Ipv4Header::new(0, time_to_live, 0, source, destination),
                Ipv4Extensions { auth: None },
            ),
        }
    }

    /// Continue with a fresh IPv6 header.
    pub fn ipv6(self, source: [u8; 16], destination: [u8; 16], hop_limit: u8) -> (r:
        PacketBuilderStepIp)
        ensures
            r.link == self.link && r.vlan is None && (r.ip matches IpHeader::Version6(h, e)
                && h == (Ipv6Header {
                traffic_class: 0,
                flow_label: 0,
                payload_length: 0,
                next_header: 0,
                hop_limit,
                source,
                destination,
            }) && e == Ipv6Extensions::spec_empty()),
    {
        PacketBuilderStepIp {
            link: self.link,
            vlan: None,
            ip: IpHeader::Version6(
                Ipv6Header {
                    traffic_class: 0,
                    flow_label: 0,
                    payload_length: 0,
                    next_header: 0,
                    hop_limit,
                    source,
                    destination,
                },
                Ipv6Extensions {
                    hop_by_hop_options: None,
                    destination_options: None,
                    routing: None,
                    fragment: None,
                    auth: None,
                },
            ),
        }
    }

    /// Continue with the given VLAN tagging; its ether-types are
    /// computed at write time.
    pub fn vlan(self, vlan: VlanHeader) -> (r: PacketBuilderStepVlan)
        ensures
            r.link == self.link && r.vlan == vlan,
    {
        PacketBuilderStepVlan { link: self.link, vlan }
    }

    /// Continue with one VLAN tag carrying the given identifier.
    pub fn single_vlan(self, vlan_identifier: u16) -> (r: PacketBuilderStepVlan)
        ensures
            r.link == self.link && r.vlan == VlanHeader::Single(
                SingleVlanHeader {
                    priority_code_point: 0,
                    drop_eligible_indicator: false,
                    vlan_identifier,
                    ether_type: 0,
                },
            ),
    {
        PacketBuilderStepVlan {
            link: self.link,
            vlan: VlanHeader::Single(
                SingleVlanHeader {
                    priority_code_point: 0,
                    drop_eligible_indicator: false,
                    vlan_identifier,
                    ether_type: 0,
                },
            ),
        }
    }

    /// Continue with a double VLAN tag carrying the given outer and
    /// inner identifiers.
    pub fn double_vlan(self, outer_vlan_identifier: u16, inner_vlan_identifier: u16) -> (r:
        PacketBuilderStepVlan)
        ensures
            r.link == self.link && r.vlan == VlanHeader::Double(
                DoubleVlanHeader {
                    outer: SingleVlanHeader {
                        priority_code_point: 0,
                        drop_eligible_indicator: false,
                        vlan_identifier: outer_vlan_identifier,
                        ether_type: 0,
                    },
                    inner: SingleVlanHeader {
                        priority_code_point: 0,
                        drop_eligible_indicator: false,
                        vlan_identifier: inner_vlan_identifier,
                        ether_type: 0,
                    },
                },
            ),
    {
        PacketBuilderStepVlan {
            link: self.link,
            vlan: VlanHeader::Double(
                DoubleVlanHeader {
                    outer: SingleVlanHeader {
                        priority_code_point: 0,
                        drop_eligible_indicator: false,
                        vlan_identifier: outer_vlan_identifier,
                        ether_type: 0,
                    },
                    inner: SingleVlanHeader {
                        priority_code_point: 0,
                        drop_eligible_indicator: false,
                        vlan_identifier: inner_vlan_identifier,
                        ether_type: 0,
                    },
                },
            ),
        }
    }
}

impl PacketBuilderStepVlan {
    /// Continue with an IP header.
    pub fn ip(self, ip: IpHeader) -> (r: PacketBuilderStepIp)
        ensures
            r.link == self.link && r.vlan == Some(self.vlan) && r.ip == ip,
    {
        PacketBuilderStepIp { link: self.link, vlan: Some(self.vlan), ip }
    }

    /// Continue with a fresh IPv4 header.
    pub fn ipv4(self, source: [u8; 4], destination: [u8; 4], time_to_live: u8) -> (r:
        PacketBuilderStepIp)
        ensures
            r.link == self.link && r.vlan == Some(self.vlan) && (r.ip matches IpHeader::Version4(
                h,
                e,
            ) && h.spec_is_fresh(0, time_to_live, 0, source, destination)
                && e.spec_is_empty()),
    {
        PacketBuilderStepIp {
            link: self.link,
            vlan: Some(self.vlan),
            ip: IpHeader::Version4(
                Ipv4Header::new(0, time_to_live, 0, source, destination),
                Ipv4Extensions { auth: None },
            ),
        }
    }

    /// Continue with a fresh IPv6 header.
    pub fn ipv6(self, source: [u8; 16], destination: [u8; 16], hop_limit: u8) -> (r:
        PacketBuilderStepIp)
        ensures
            r.link == self.link && r.vlan == Some(self.vlan) && (r.ip matches IpHeader::Version6(
                h,
                e,
            ) && h == (Ipv6Header {
                traffic_class: 0,
                flow_label: 0,
                payload_length: 0,
                next_header: 0,
                hop_limit,
                source,
                destination,
            }) && e == Ipv6Extensions::spec_empty()),
    {
        PacketBuilderStepIp {
            link: self.link,
            vlan: Some(self.vlan),
            ip: IpHeader::Version6(
                Ipv6Header {
                    traffic_class: 0,
                    flow_label: 0,
                    payload_length: 0,
                    next_header: 0,
                    hop_limit,
                    source,
                    destination,
                },
                Ipv6Extensions {
                    hop_by_hop_options: None,
                    destination_options: None,
                    routing: None,
                    fragment: None,
                    auth: None,
                },
            ),
        }
    }
}

impl PacketBuilderStepIp {
    /// Continue with a UDP header carrying the given ports; length
    /// and checksum are computed at write time.
    pub fn udp(self, source_port: u16, destination_port: u16) -> (r: PacketBuilderStepUdp)
        ensures
            r.link == self.link && r.vlan == self.vlan && r.ip == self.ip && r.source_port
                == source_port && r.destination_port == destination_port,
    {
        PacketBuilderStepUdp {
            link: self.link,
            vlan: self.vlan,
            ip: self.ip,
            source_port,
            destination_port,
        }
    }

    /// Continue with a TCP header; its data offset and checksum are
    /// computed at write time, flags and options may still be set.
    pub fn tcp(
        self,
        source_port: u16,
        destination_port: u16,
        sequence_number: u32,
        window_size: u16,
    ) -> (r: PacketBuilderStepTcp)
        ensures
            r.link == self.link && r.vlan == self.vlan && r.ip == self.ip
                && r.tcp.spec_is_fresh(
                source_port,
                destination_port,
                sequence_number,
                window_size,
            ),
            r.tcp.wf(),
    {
        PacketBuilderStepTcp {
            link: self.link,
            vlan: self.vlan,
            ip: self.ip,
            tcp: TcpHeader::new(source_port, destination_port, sequence_number, window_size),
        }
    }

    /// Continue with an ICMPv4 message of the given typed variant.
    pub fn icmpv4(self, icmp_type: Icmpv4Type) -> (r: PacketBuilderStepIcmpv4)
        ensures
            r.link == self.link && r.vlan == self.vlan && r.ip == self.ip && r.icmp_type
                == icmp_type,
    {
        PacketBuilderStepIcmpv4 {
            link: self.link,
            vlan: self.vlan,
            ip: self.ip,
            icmp_type,
        }
    }

    /// Continue with a raw ICMPv4 message: type, code and the four
    /// type-specific bytes as given.
    pub fn icmpv4_raw(self, type_u8: u8, code_u8: u8, bytes5to8: [u8; 4]) -> (r:
        PacketBuilderStepIcmpv4)
        ensures
            r.link == self.link && r.vlan == self.vlan && r.ip == self.ip && r.icmp_type
                == (Icmpv4Type::Unknown { type_u8, code_u8, bytes5to8 }),
    {
        PacketBuilderStepIcmpv4 {
            link: self.link,
            vlan: self.vlan,
            ip: self.ip,
            icmp_type: Icmpv4Type::Unknown { type_u8, code_u8, bytes5to8 },
        }
    }

    /// Continue with an ICMPv4 echo request.
    pub fn icmpv4_echo_request(self, id: u16, seq: u16) -> (r: PacketBuilderStepIcmpv4)
        ensures
            r.link == self.link && r.vlan == self.vlan && r.ip == self.ip && r.icmp_type
                == Icmpv4Type::EchoRequest(IcmpEchoHeader { id, seq }),
    {
        PacketBuilderStepIcmpv4 {
            link: self.link,
            vlan: self.vlan,
            ip: self.ip,
            icmp_type: Icmpv4Type::EchoRequest(IcmpEchoHeader { id, seq }),
        }
    }

    /// Continue with an ICMPv4 echo reply.
    pub fn icmpv4_echo_reply(self, id: u16, seq: u16) -> (r: PacketBuilderStepIcmpv4)
        ensures
            r.link == self.link && r.vlan == self.vlan && r.ip == self.ip && r.icmp_type
                == Icmpv4Type::EchoReply(IcmpEchoHeader { id, seq }),
    {
        PacketBuilderStepIcmpv4 {
            link: self.link,
            vlan: self.vlan,
            ip: self.ip,
            icmp_type: Icmpv4Type::EchoReply(IcmpEchoHeader { id, seq }),
        }
    }

    /// Continue with an ICMPv6 message of the given typed variant.
    /// Building it later fails unless the IP layer is IPv6: the
    /// ICMPv6 checksum needs IPv6 addresses.
    pub fn icmpv6(self, icmp_type: Icmpv6Type) -> (r: PacketBuilderStepIcmpv6)
        ensures
            r.link == self.link && r.vlan == self.vlan && r.ip == self.ip && r.icmp_type
                == icmp_type,
    {
        PacketBuilderStepIcmpv6 {
            link: self.link,
            vlan: self.vlan,
            ip: self.ip,
            icmp_type,
        }
    }

    /// Continue with a raw ICMPv6 message.
    pub fn icmpv6_raw(self, type_u8: u8, code_u8: u8, bytes5to8: [u8; 4]) -> (r:
        PacketBuilderStepIcmpv6)
        ensures
            r.link == self.link && r.vlan == self.vlan && r.ip == self.ip && r.icmp_type
                == (Icmpv6Type::Unknown { type_u8, code_u8, bytes5to8 }),
    {
        PacketBuilderStepIcmpv6 {
            link: self.link,
            vlan: self.vlan,
            ip: self.ip,
            icmp_type: Icmpv6Type::Unknown { type_u8, code_u8, bytes5to8 },
        }
    }

    /// Continue with an ICMPv6 echo request.
    pub fn icmpv6_echo_request(self, id: u16, seq: u16) -> (r: PacketBuilderStepIcmpv6)
        ensures
            r.link == self.link && r.vlan == self.vlan && r.ip == self.ip && r.icmp_type
                == Icmpv6Type::EchoRequest(IcmpEchoHeader { id, seq }),
    {
        PacketBuilderStepIcmpv6 {
            link: self.link,
            vlan: self.vlan,
            ip: self.ip,
            icmp_type: Icmpv6Type::EchoRequest(IcmpEchoHeader { id, seq }),
        }
    }

    /// Continue with an ICMPv6 echo reply.
    pub fn icmpv6_echo_reply(self, id: u16, seq: u16) -> (r: PacketBuilderStepIcmpv6)
        ensures
            r.link == self.link && r.vlan == self.vlan && r.ip == self.ip && r.icmp_type
                == Icmpv6Type::EchoReply(IcmpEchoHeader { id, seq }),
    {
        PacketBuilderStepIcmpv6 {
            link: self.link,
            vlan: self.vlan,
            ip: self.ip,
            icmp_type: Icmpv6Type::EchoReply(IcmpEchoHeader { id, seq }),
        }
    }
}

impl PacketBuilderStepIp {
    /// Number of bytes the finished packet will take for a payload
    /// of `payload_size` bytes written directly after the internet
    /// layer.
    pub fn size(&self, payload_size: usize) -> (r: usize)
        requires
            spec_outer_wf(self.link, self.vlan, self.ip),
            payload_size <= usize::MAX - 0x8000,
        ensures
            r == spec_outer_len(self.link, self.vlan, self.ip) + payload_size,
    {
        outer_len(&self.link, &self.vlan, &self.ip) + payload_size
    }

    /// Build a packet without a transport layer: the payload follows
    /// the internet layer directly and `last_next_header_protocol`
    /// is what the last extension header (or the IP header itself)
    /// announces for it.
    pub fn write(self, buf: &mut Vec<u8>, last_next_header_protocol: u8, payload: &[u8]) -> (r:
        Result<(), WriteError>)
        requires
            spec_outer_wf(self.link, self.vlan, self.ip),
        ensures
            r is Ok <==> payload@.len() <= 0xFFFF && spec_ip_payload_fits(
                self.ip,
                payload@.len() as int,
            ),
            match r {
                Ok(()) => final(buf)@ == old(buf)@ + spec_link_bytes(
                    self.link,
                    self.vlan,
                    self.ip,
                ) + spec_ip_bytes(self.ip, payload@.len() as int, last_next_header_protocol)
                    + payload@,
                Err(er) => final(buf)@ == old(buf)@ && er == WriteError::ValueError(
                    if payload@.len() > 0xFFFF {
                        match self.ip {
                            IpHeader::Version4(_, _) => ValueError::Ipv4PayloadLengthTooLarge(
                                payload@.len() as usize,
                            ),
                            IpHeader::Version6(_, _) => ValueError::Ipv6PayloadLengthTooLarge(
                                payload@.len() as usize,
                            ),
                        }
                    } else {
                        match self.ip {
                            IpHeader::Version4(_, e) => ValueError::Ipv4PayloadLengthTooLarge(
                                (e.spec_header_len() + payload@.len()) as usize,
                            ),
                            IpHeader::Version6(_, e) => ValueError::Ipv6PayloadLengthTooLarge(
                                (e.spec_header_len() + payload@.len()) as usize,
                            ),
                        }
                    },
                ),
            },
    {
        if payload.len() > 0xFFFF {
            let e = match &self.ip {
                IpHeader::Version4(_, _) => ValueError::Ipv4PayloadLengthTooLarge(payload.len()),
                IpHeader::Version6(_, _) => ValueError::Ipv6PayloadLengthTooLarge(payload.len()),
            };
            return Err(WriteError::ValueError(e));
        }
        match write_outer(
            buf,
            &self.link,
            &self.vlan,
            &self.ip,
            payload.len(),
            last_next_header_protocol,
        ) {
            Ok(()) => {},
            Err(e) => {
                return Err(WriteError::ValueError(e));
            },
        }
        crate::bytes::push_slice(buf, payload);
        proof {
            assert(buf@ =~= old(buf)@ + spec_link_bytes(self.link, self.vlan, self.ip)
                + spec_ip_bytes(self.ip, payload@.len() as int, last_next_header_protocol)
                + payload@);
        }
        Ok(())
    }
}

/// The builder with a UDP transport chosen.
pub struct PacketBuilderStepUdp {
    pub link: Option<Ethernet2Header>,
    pub vlan: Option<VlanHeader>,
    pub ip: IpHeader,
    pub source_port: u16,
    pub destination_port: u16,
}

/// The builder with a TCP transport chosen.
pub struct PacketBuilderStepTcp {
    pub link: Option<Ethernet2Header>,
    pub vlan: Option<VlanHeader>,
    pub ip: IpHeader,
    pub tcp: TcpHeader,
}

/// The builder with an ICMPv4 transport chosen.
pub struct PacketBuilderStepIcmpv4 {
    pub link: Option<Ethernet2Header>,
    pub vlan: Option<VlanHeader>,
    pub ip: IpHeader,
    pub icmp_type: Icmpv4Type,
}

/// The builder with an ICMPv6 transport chosen.
pub struct PacketBuilderStepIcmpv6 {
    pub link: Option<Ethernet2Header>,
    pub vlan: Option<VlanHeader>,
    pub ip: IpHeader,
    pub icmp_type: Icmpv6Type,
}

/// Write the adjusted link and internet layers; everything above the
/// transport layer.
fn write_outer(
    buf: &mut Vec<u8>,
    link: &Option<Ethernet2Header>,
    vlan: &Option<VlanHeader>,
    ip: &IpHeader,
    rest_len: usize,
    tproto: u8,
) -> (r: Result<(), ValueError>)
    requires
        spec_outer_wf(*link, *vlan, *ip),
        rest_len <= 0xFFFF,
    ensures
        r is Ok <==> spec_ip_payload_fits(*ip, rest_len as int),
        match r {
            Ok(()) => final(buf)@ == old(buf)@ + spec_link_bytes(*link, *vlan, *ip)
                + spec_ip_bytes(*ip, rest_len as int, tproto),
            Err(e) => final(buf)@ == old(buf)@ && match *ip {
                IpHeader::Version4(h, ex) => ex.spec_header_len() + rest_len > 0xFFFF - 20
                    - h.options_len && e == ValueError::Ipv4PayloadLengthTooLarge(
                    (ex.spec_header_len() + rest_len) as usize,
                ),
                IpHeader::Version6(_, ex) => ex.spec_header_len() + rest_len > 0xFFFF && e
                    == ValueError::Ipv6PayloadLengthTooLarge(
                    (ex.spec_header_len() + rest_len) as usize,
                ),
            },
        },
{
    // compute the adjusted internet layer first: its length checks
    // must pass before anything is emitted
    match ip {
        IpHeader::Version4(h, e) => {
            let ext_len = e.header_len();
            if ext_len + rest_len > 0xFFFF - 20 - (h.options_len as usize) {
                return Err(ValueError::Ipv4PayloadLengthTooLarge(ext_len + rest_len));
            }
            let mut e2 = *e;
            let protocol = e2.set_next_headers(tproto);
            let mut h2 = *h;
            h2.protocol = protocol;
            h2.payload_len = (ext_len + rest_len) as u16;
            let ck = match h2.calc_header_checksum() {
                Ok(c) => c,
                Err(_) => {
                    proof {
                        assert(false);
                    }
                    0
                },
            };
            h2.header_checksum = ck;
            write_link(buf, link, vlan, ip);
            h2.write(buf);
            e2.write(buf);
            proof {
                let (sh, se) = spec_adjusted_ipv4(*h, *e, rest_len as int, tproto);
                assert(h2 == sh && e2 == se);
                assert(buf@ =~= old(buf)@ + spec_link_bytes(*link, *vlan, *ip) + spec_ip_bytes(
                    *ip,
                    rest_len as int,
                    tproto,
                ));
            }
            Ok(())
        },
        IpHeader::Version6(h, e) => {
            let ext_len = e.header_len();
            if ext_len + rest_len > 0xFFFF {
                return Err(ValueError::Ipv6PayloadLengthTooLarge(ext_len + rest_len));
            }
            let mut e2 = *e;
            let next = e2.set_next_headers(tproto);
            let mut h2 = *h;
            h2.next_header = next;
            h2.payload_length = (ext_len + rest_len) as u16;
            write_link(buf, link, vlan, ip);
            h2.write(buf);
            proof {
                e.lemma_chained_preserves_shape(tproto);
            }
            e2.write(buf);
            proof {
                let (sh, se) = spec_adjusted_ipv6(*h, *e, rest_len as int, tproto);
                assert(h2 == sh && e2 == se);
                assert(buf@ =~= old(buf)@ + spec_link_bytes(*link, *vlan, *ip) + spec_ip_bytes(
                    *ip,
                    rest_len as int,
                    tproto,
                ));
            }
            Ok(())
        },
    }
}

/// Write the adjusted link header and VLAN tags.
fn write_link(
    buf: &mut Vec<u8>,
    link: &Option<Ethernet2Header>,
    vlan: &Option<VlanHeader>,
    ip: &IpHeader,
)
    requires
        vlan matches Some(v) ==> v.wf(),
    ensures
        final(buf)@ == old(buf)@ + spec_link_bytes(*link, *vlan, *ip),
{
    let ip_et: u16 = match ip {
        IpHeader::Version4(_, _) => ether_type::IPV4,
        IpHeader::Version6(_, _) => ether_type::IPV6,
    };
    match link {
        Some(l) => {
            let et: u16 = match vlan {
                None => ip_et,
                Some(VlanHeader::Single(_)) => ether_type::VLAN_TAGGED_FRAME,
                Some(VlanHeader::Double(_)) => ether_type::PROVIDER_BRIDGING,
            };
            let l2 = Ethernet2Header { ether_type: et, ..*l };
            l2.write(buf);
        },
        None => {},
    }
    match vlan {
        Some(VlanHeader::Single(s)) => {
            let s2 = SingleVlanHeader { ether_type: ip_et, ..*s };
            s2.write(buf);
        },
        Some(VlanHeader::Double(d)) => {
            let o2 = SingleVlanHeader { ether_type: ether_type::VLAN_TAGGED_FRAME, ..d.outer };
            let i2 = SingleVlanHeader { ether_type: ip_et, ..d.inner };
            o2.write(buf);
            i2.write(buf);
        },
        None => {},
    }
    assert(buf@ =~= old(buf)@ + spec_link_bytes(*link, *vlan, *ip));
}

impl PacketBuilderStepUdp {
    /// Number of bytes the finished packet will take for a payload
    /// of `payload_size` bytes.
    pub fn size(&self, payload_size: usize) -> (r: usize)
        requires
            spec_outer_wf(self.link, self.vlan, self.ip),
            payload_size <= usize::MAX - 0x8000,
        ensures
            r == spec_outer_len(self.link, self.vlan, self.ip) + 8 + payload_size,
    {
        outer_len(&self.link, &self.vlan, &self.ip) + 8 + payload_size
    }

    /// Build the packet: compute the linkage fields, lengths and
    /// checksums, and write every layer followed by the payload.
    pub fn write(self, buf: &mut Vec<u8>, payload: &[u8]) -> (r: Result<(), WriteError>)
        requires
            spec_outer_wf(self.link, self.vlan, self.ip),
        ensures
            r is Ok <==> payload@.len() + 8 <= 0xFFFF && spec_ip_payload_fits(
                self.ip,
                8 + payload@.len() as int,
            ),
            match r {
                Ok(()) => {
                    let udp = spec_built_udp(self.ip, self.source_port, self.destination_port, payload@);
                    final(buf)@ == old(buf)@ + spec_link_bytes(self.link, self.vlan, self.ip)
                        + spec_ip_bytes(self.ip, 8 + payload@.len() as int, ip_number::UDP)
                        + udp.spec_bytes() + payload@
                },
                Err(er) => final(buf)@ == old(buf)@ && er == WriteError::ValueError(
                    if payload@.len() + 8 > 0xFFFF {
                        ValueError::UdpPayloadLengthTooLarge(payload@.len() as usize)
                    } else {
                        match self.ip {
                            IpHeader::Version4(_, e) => ValueError::Ipv4PayloadLengthTooLarge(
                                (e.spec_header_len() + 8 + payload@.len()) as usize,
                            ),
                            IpHeader::Version6(_, e) => ValueError::Ipv6PayloadLengthTooLarge(
                                (e.spec_header_len() + 8 + payload@.len()) as usize,
                            ),
                        }
                    },
                ),
            },
    {
        if payload.len() > 0xFFFF - 8 {
            return Err(WriteError::ValueError(ValueError::UdpPayloadLengthTooLarge(payload.len())));
        }
        let udp = match &self.ip {
            IpHeader::Version4(h, _) => {
                match UdpHeader::with_ipv4_checksum(
                    self.source_port,
                    self.destination_port,
                    h,
                    payload,
                ) {
                    Ok(u) => u,
                    Err(e) => {
                        return Err(WriteError::ValueError(e));
                    },
                }
            },
            IpHeader::Version6(h, _) => {
                match UdpHeader::with_ipv6_checksum(
                    self.source_port,
                    self.destination_port,
                    h,
                    payload,
                ) {
                    Ok(u) => u,
                    Err(e) => {
                        return Err(WriteError::ValueError(e));
                    },
                }
            },
        };
        match write_outer(buf, &self.link, &self.vlan, &self.ip, 8 + payload.len(), ip_number::UDP) {
            Ok(()) => {},
            Err(e) => {
                return Err(WriteError::ValueError(e));
            },
        }
        udp.write(buf);
        crate::bytes::push_slice(buf, payload);
        proof {
            assert(udp == spec_built_udp(self.ip, self.source_port, self.destination_port, payload@));
            assert(buf@ =~= old(buf)@ + spec_link_bytes(self.link, self.vlan, self.ip)
                + spec_ip_bytes(self.ip, 8 + payload@.len() as int, ip_number::UDP)
                + udp.spec_bytes() + payload@);
        }
        Ok(())
    }
}

/// The UDP header the builder emits: ports as given, length from the
/// payload, checksum over the pseudo-header of the IP layer.
pub open spec fn spec_built_udp(
    ip: IpHeader,
    source_port: u16,
    destination_port: u16,
    payload: Seq<u8>,
) -> UdpHeader {
    let base = UdpHeader {
        source_port,
        destination_port,
        length: (8 + payload.len()) as u16,
        checksum: 0,
    };
    match ip {
        IpHeader::Version4(h, _) => UdpHeader {
            checksum: base.spec_checksum_v4(h.source@, h.destination@, payload),
            ..base
        },
        IpHeader::Version6(h, _) => UdpHeader {
            checksum: base.spec_checksum_v6(h.source@, h.destination@, payload),
            ..base
        },
    }
}

/// Number of bytes of the headers above the transport layer.
fn outer_len(link: &Option<Ethernet2Header>, vlan: &Option<VlanHeader>, ip: &IpHeader) -> (r:
    usize)
    requires
        spec_outer_wf(*link, *vlan, *ip),
    ensures
        r == spec_outer_len(*link, *vlan, *ip),
        r <= 0x8000,
{
    let link_len: usize = match link {
        Some(_) => 14,
        None => 0,
    };
    let vlan_len: usize = match vlan {
        Some(VlanHeader::Single(_)) => 4,
        Some(VlanHeader::Double(_)) => 8,
        None => 0,
    };
    let ip_len: usize = match ip {
        IpHeader::Version4(h, e) => h.header_len() + e.header_len(),
        IpHeader::Version6(_, e) => 40 + e.header_len(),
    };
    link_len + vlan_len + ip_len
}

/// The TCP header the builder emits: the configured header with its
/// checksum computed over the pseudo-header of the IP layer.
pub open spec fn spec_built_tcp(ip: IpHeader, tcp: TcpHeader, payload: Seq<u8>) -> TcpHeader {
    match ip {
        IpHeader::Version4(h, _) => TcpHeader {
            checksum: tcp.spec_checksum_v4(h.source@, h.destination@, payload),
            ..tcp
        },
        IpHeader::Version6(h, _) => TcpHeader {
            checksum: tcp.spec_checksum_v6(h.source@, h.destination@, payload),
            ..tcp
        },
    }
}

/// The ICMPv4 header the builder emits: checksum over message and
/// payload, no pseudo-header.
pub open spec fn spec_built_icmpv4(icmp_type: Icmpv4Type, payload: Seq<u8>) -> Icmpv4Header {
    let base = Icmpv4Header { icmp_type, checksum: 0 };
    Icmpv4Header { checksum: base.spec_checksum(payload), ..base }
}

/// The ICMPv6 header the builder emits: checksum over the IPv6
/// pseudo-header, message and payload.
pub open spec fn spec_built_icmpv6(
    icmp_type: Icmpv6Type,
    source: Seq<u8>,
    destination: Seq<u8>,
    payload: Seq<u8>,
) -> Icmpv6Header {
    let base = Icmpv6Header { icmp_type, checksum: 0 };
    Icmpv6Header { checksum: base.spec_checksum(source, destination, payload), ..base }
}

impl PacketBuilderStepTcp {
    /// Set the no-congestion-experienced (nonce sum) flag.
    pub fn ns(self) -> (r: PacketBuilderStepTcp)
        ensures
            r.link == self.link && r.vlan == self.vlan && r.ip == self.ip && r.tcp == (TcpHeader {
                ns: true,
                ..self.tcp
            }),
    {
        PacketBuilderStepTcp { tcp: TcpHeader { ns: true, ..self.tcp }, ..self }
    }

    /// Set the finish flag.
    pub fn fin(self) -> (r: PacketBuilderStepTcp)
        ensures
            r.link == self.link && r.vlan == self.vlan && r.ip == self.ip && r.tcp == (TcpHeader {
                fin: true,
                ..self.tcp
            }),
    {
        PacketBuilderStepTcp { tcp: TcpHeader { fin: true, ..self.tcp }, ..self }
    }

    /// Set the synchronize flag.
    pub fn syn(self) -> (r: PacketBuilderStepTcp)
        ensures
            r.link == self.link && r.vlan == self.vlan && r.ip == self.ip && r.tcp == (TcpHeader {
                syn: true,
                ..self.tcp
            }),
    {
        PacketBuilderStepTcp { tcp: TcpHeader { syn: true, ..self.tcp }, ..self }
    }

    /// Set the reset flag.
    pub fn rst(self) -> (r: PacketBuilderStepTcp)
        ensures
            r.link == self.link && r.vlan == self.vlan && r.ip == self.ip && r.tcp == (TcpHeader {
                rst: true,
                ..self.tcp
            }),
    {
        PacketBuilderStepTcp { tcp: TcpHeader { rst: true, ..self.tcp }, ..self }
    }

    /// Set the push flag.
    pub fn psh(self) -> (r: PacketBuilderStepTcp)
        ensures
            r.link == self.link && r.vlan == self.vlan && r.ip == self.ip && r.tcp == (TcpHeader {
                psh: true,
                ..self.tcp
            }),
    {
        PacketBuilderStepTcp { tcp: TcpHeader { psh: true, ..self.tcp }, ..self }
    }

    /// Set the acknowledgment flag and number.
    pub fn ack(self, acknowledgment_number: u32) -> (r: PacketBuilderStepTcp)
        ensures
            r.link == self.link && r.vlan == self.vlan && r.ip == self.ip && r.tcp == (TcpHeader {
                ack: true,
                acknowledgment_number,
                ..self.tcp
            }),
    {
        PacketBuilderStepTcp {
            tcp: TcpHeader { ack: true, acknowledgment_number, ..self.tcp },
            ..self
        }
    }

    /// Set the urgent flag and pointer.
    pub fn urg(self, urgent_pointer: u16) -> (r: PacketBuilderStepTcp)
        ensures
            r.link == self.link && r.vlan == self.vlan && r.ip == self.ip && r.tcp == (TcpHeader {
                urg: true,
                urgent_pointer,
                ..self.tcp
            }),
    {
        PacketBuilderStepTcp {
            tcp: TcpHeader { urg: true, urgent_pointer, ..self.tcp },
            ..self
        }
    }

    /// Set the explicit-congestion-notification echo flag.
    pub fn ece(self) -> (r: PacketBuilderStepTcp)
        ensures
            r.link == self.link && r.vlan == self.vlan && r.ip == self.ip && r.tcp == (TcpHeader {
                ece: true,
                ..self.tcp
            }),
    {
        PacketBuilderStepTcp { tcp: TcpHeader { ece: true, ..self.tcp }, ..self }
    }

    /// Set the congestion-window-reduced flag.
    pub fn cwr(self) -> (r: PacketBuilderStepTcp)
        ensures
            r.link == self.link && r.vlan == self.vlan && r.ip == self.ip && r.tcp == (TcpHeader {
                cwr: true,
                ..self.tcp
            }),
    {
        PacketBuilderStepTcp { tcp: TcpHeader { cwr: true, ..self.tcp }, ..self }
    }

    /// Set the options from typed elements. Fails when their
    /// serialization is longer than 40 bytes.
    pub fn options(self, elements: &[TcpOptionElement]) -> (r: Result<
        PacketBuilderStepTcp,
        ValueError,
    >)
        requires
            forall|i: int| 0 <= i < elements@.len() ==> elements@[i].wf(),
        ensures
            match r {
                Ok(b) => {
                    let raw = crate::tcp_options::spec_options_serialize(elements@);
                    &&& b.link == self.link
                    &&& b.vlan == self.vlan
                    &&& b.ip == self.ip
                    &&& raw.len() <= 40
                    &&& b.tcp == (TcpHeader {
                        options_buf: b.tcp.options_buf,
                        options_len: b.tcp.options_len,
                        ..self.tcp
                    })
                    &&& b.tcp.spec_options() == raw + crate::tcp_options::spec_pad4(
                        raw.len() as int,
                    )
                    &&& b.tcp.wf()
                },
                Err(e) => crate::tcp_options::spec_options_serialize(elements@).len() > 40 && e
                    == ValueError::TcpOptionsLengthBad(
                    crate::tcp_options::spec_options_serialize(elements@).len() as usize,
                ),
            },
    {
        let mut tcp = self.tcp;
        match tcp.set_options(elements) {
            Ok(()) => Ok(PacketBuilderStepTcp { tcp, ..self }),
            Err(e) => Err(e),
        }
    }

    /// Set the options from raw bytes. Fails when they are longer
    /// than 40 bytes or no multiple of 4.
    pub fn options_raw(self, data: &[u8]) -> (r: Result<PacketBuilderStepTcp, ValueError>)
        ensures
            match r {
                Ok(b) => {
                    &&& b.link == self.link
                    &&& b.vlan == self.vlan
                    &&& b.ip == self.ip
                    &&& data@.len() <= 40 && data@.len() % 4 == 0
                    &&& b.tcp == (TcpHeader {
                        options_buf: b.tcp.options_buf,
                        options_len: b.tcp.options_len,
                        ..self.tcp
                    })
                    &&& b.tcp.spec_options() == data@
                    &&& b.tcp.wf()
                },
                Err(e) => (data@.len() > 40 || data@.len() % 4 != 0) && e
                    == ValueError::TcpOptionsLengthBad(data@.len() as usize),
            },
    {
        let mut tcp = self.tcp;
        match tcp.set_options_raw(data) {
            Ok(()) => Ok(PacketBuilderStepTcp { tcp, ..self }),
            Err(e) => Err(e),
        }
    }

    /// Number of bytes the finished packet will take for a payload
    /// of `payload_size` bytes.
    pub fn size(&self, payload_size: usize) -> (r: usize)
        requires
            spec_outer_wf(self.link, self.vlan, self.ip),
            self.tcp.wf(),
            payload_size <= usize::MAX - 0x8000,
        ensures
            r == spec_outer_len(self.link, self.vlan, self.ip) + self.tcp.spec_header_len()
                + payload_size,
    {
        outer_len(&self.link, &self.vlan, &self.ip) + self.tcp.header_len() + payload_size
    }

    /// Build the packet: compute the linkage fields, lengths and
    /// checksums, and write every layer followed by the payload.
    pub fn write(self, buf: &mut Vec<u8>, payload: &[u8]) -> (r: Result<(), WriteError>)
        requires
            spec_outer_wf(self.link, self.vlan, self.ip),
            self.tcp.wf(),
        ensures
            r is Ok <==> self.tcp.spec_header_len() + payload@.len() <= 0xFFFF
                && spec_ip_payload_fits(
                self.ip,
                self.tcp.spec_header_len() + payload@.len() as int,
            ),
            match r {
                Ok(()) => {
                    let tcp = spec_built_tcp(self.ip, self.tcp, payload@);
                    final(buf)@ == old(buf)@ + spec_link_bytes(self.link, self.vlan, self.ip)
                        + spec_ip_bytes(
                        self.ip,
                        self.tcp.spec_header_len() + payload@.len() as int,
                        ip_number::TCP,
                    ) + tcp.spec_bytes() + payload@
                },
                Err(er) => final(buf)@ == old(buf)@ && er == WriteError::ValueError(
                    if self.tcp.spec_header_len() + payload@.len() > 0xFFFF {
                        match self.ip {
                            IpHeader::Version4(_, _) => ValueError::Ipv4PayloadLengthTooLarge(
                                payload@.len() as usize,
                            ),
                            IpHeader::Version6(_, _) => ValueError::Ipv6PayloadLengthTooLarge(
                                payload@.len() as usize,
                            ),
                        }
                    } else {
                        match self.ip {
                            IpHeader::Version4(_, e) => ValueError::Ipv4PayloadLengthTooLarge(
                                (e.spec_header_len() + self.tcp.spec_header_len()
                                    + payload@.len()) as usize,
                            ),
                            IpHeader::Version6(_, e) => ValueError::Ipv6PayloadLengthTooLarge(
                                (e.spec_header_len() + self.tcp.spec_header_len()
                                    + payload@.len()) as usize,
                            ),
                        }
                    },
                ),
            },
    {
        let hdr_len = self.tcp.header_len();
        if payload.len() > 0xFFFF - hdr_len {
            let e = match &self.ip {
                IpHeader::Version4(_, _) => ValueError::Ipv4PayloadLengthTooLarge(payload.len()),
                IpHeader::Version6(_, _) => ValueError::Ipv6PayloadLengthTooLarge(payload.len()),
            };
            return Err(WriteError::ValueError(e));
        }
        let tcp = match &self.ip {
            IpHeader::Version4(h, _) => {
                let mut t = self.tcp;
                let c = match t.calc_checksum_ipv4(h, payload) {
                    Ok(c) => c,
                    Err(_) => {
                        proof {
                            assert(false);
                        }
                        0
                    },
                };
                t.checksum = c;
                t
            },
            IpHeader::Version6(h, _) => {
                let mut t = self.tcp;
                let c = match t.calc_checksum_ipv6(h, payload) {
                    Ok(c) => c,
                    Err(_) => {
                        proof {
                            assert(false);
                        }
                        0
                    },
                };
                t.checksum = c;
                t
            },
        };
        match write_outer(
            buf,
            &self.link,
            &self.vlan,
            &self.ip,
            hdr_len + payload.len(),
            ip_number::TCP,
        ) {
            Ok(()) => {},
            Err(e) => {
                return Err(WriteError::ValueError(e));
            },
        }
        tcp.write(buf);
        crate::bytes::push_slice(buf, payload);
        proof {
            assert(tcp == spec_built_tcp(self.ip, self.tcp, payload@));
            assert(buf@ =~= old(buf)@ + spec_link_bytes(self.link, self.vlan, self.ip)
                + spec_ip_bytes(
                self.ip,
                self.tcp.spec_header_len() + payload@.len() as int,
                ip_number::TCP,
            ) + tcp.spec_bytes() + payload@);
        }
        Ok(())
    }
}

impl PacketBuilderStepIcmpv4 {
    /// Number of bytes the finished packet will take for a payload
    /// of `payload_size` bytes.
    pub fn size(&self, payload_size: usize) -> (r: usize)
        requires
            spec_outer_wf(self.link, self.vlan, self.ip),
            payload_size <= usize::MAX - 0x8000,
        ensures
            r == spec_outer_len(self.link, self.vlan, self.ip)
                + self.icmp_type.spec_header_len() + payload_size,
    {
        outer_len(&self.link, &self.vlan, &self.ip) + self.icmp_type.header_len() + payload_size
    }

    /// Build the packet: the ICMPv4 checksum covers message and
    /// payload, no pseudo-header, so this works over IPv4 and IPv6
    /// alike.
    pub fn write(self, buf: &mut Vec<u8>, payload: &[u8]) -> (r: Result<(), WriteError>)
        requires
            spec_outer_wf(self.link, self.vlan, self.ip),
        ensures
            r is Ok <==> self.icmp_type.spec_header_len() + payload@.len() <= 0xFFFF
                && spec_ip_payload_fits(
                self.ip,
                self.icmp_type.spec_header_len() + payload@.len() as int,
            ),
            match r {
                Ok(()) => {
                    let icmp = spec_built_icmpv4(self.icmp_type, payload@);
                    final(buf)@ == old(buf)@ + spec_link_bytes(self.link, self.vlan, self.ip)
                        + spec_ip_bytes(
                        self.ip,
                        self.icmp_type.spec_header_len() + payload@.len() as int,
                        ip_number::ICMP,
                    ) + icmp.spec_bytes() + payload@
                },
                Err(er) => final(buf)@ == old(buf)@ && er == WriteError::ValueError(
                    if self.icmp_type.spec_header_len() + payload@.len() > 0xFFFF {
                        match self.ip {
                            IpHeader::Version4(_, _) => ValueError::Ipv4PayloadLengthTooLarge(
                                payload@.len() as usize,
                            ),
                            IpHeader::Version6(_, _) => ValueError::Ipv6PayloadLengthTooLarge(
                                payload@.len() as usize,
                            ),
                        }
                    } else {
                        match self.ip {
                            IpHeader::Version4(_, e) => ValueError::Ipv4PayloadLengthTooLarge(
                                (e.spec_header_len() + self.icmp_type.spec_header_len()
                                    + payload@.len()) as usize,
                            ),
                            IpHeader::Version6(_, e) => ValueError::Ipv6PayloadLengthTooLarge(
                                (e.spec_header_len() + self.icmp_type.spec_header_len()
                                    + payload@.len()) as usize,
                            ),
                        }
                    },
                ),
            },
    {
        let hdr_len = self.icmp_type.header_len();
        if payload.len() > 0xFFFF - hdr_len {
            let e = match &self.ip {
                IpHeader::Version4(_, _) => ValueError::Ipv4PayloadLengthTooLarge(payload.len()),
                IpHeader::Version6(_, _) => ValueError::Ipv6PayloadLengthTooLarge(payload.len()),
            };
            return Err(WriteError::ValueError(e));
        }
        let icmp = Icmpv4Header::with_checksum(self.icmp_type, payload);
        match write_outer(
            buf,
            &self.link,
            &self.vlan,
            &self.ip,
            hdr_len + payload.len(),
            ip_number::ICMP,
        ) {
            Ok(()) => {},
            Err(e) => {
                return Err(WriteError::ValueError(e));
            },
        }
        icmp.write(buf);
        crate::bytes::push_slice(buf, payload);
        proof {
            assert(icmp == spec_built_icmpv4(self.icmp_type, payload@));
            assert(buf@ =~= old(buf)@ + spec_link_bytes(self.link, self.vlan, self.ip)
                + spec_ip_bytes(
                self.ip,
                self.icmp_type.spec_header_len() + payload@.len() as int,
                ip_number::ICMP,
            ) + icmp.spec_bytes() + payload@);
        }
        Ok(())
    }
}

impl PacketBuilderStepIcmpv6 {
    /// Number of bytes the finished packet will take for a payload
    /// of `payload_size` bytes.
    pub fn size(&self, payload_size: usize) -> (r: usize)
        requires
            spec_outer_wf(self.link, self.vlan, self.ip),
            payload_size <= usize::MAX - 0x8000,
        ensures
            r == spec_outer_len(self.link, self.vlan, self.ip) + 8 + payload_size,
    {
        outer_len(&self.link, &self.vlan, &self.ip) + 8 + payload_size
    }

    /// Build the packet. The ICMPv6 checksum needs the IPv6
    /// pseudo-header: over an IPv4 layer building fails.
    pub fn write(self, buf: &mut Vec<u8>, payload: &[u8]) -> (r: Result<(), WriteError>)
        requires
            spec_outer_wf(self.link, self.vlan, self.ip),
        ensures
            r is Ok <==> (self.ip matches IpHeader::Version6(_, e) && payload@.len() + 8 <= 0xFFFF
                && e.spec_header_len() + 8 + payload@.len() <= 0xFFFF),
            match r {
                Ok(()) => self.ip matches IpHeader::Version6(h, _) && {
                    let icmp = spec_built_icmpv6(
                        self.icmp_type,
                        h.source@,
                        h.destination@,
                        payload@,
                    );
                    final(buf)@ == old(buf)@ + spec_link_bytes(self.link, self.vlan, self.ip)
                        + spec_ip_bytes(
                        self.ip,
                        8 + payload@.len() as int,
                        ip_number::IPV6_ICMP,
                    ) + icmp.spec_bytes() + payload@
                },
                Err(er) => final(buf)@ == old(buf)@ && er == WriteError::ValueError(
                    match self.ip {
                        IpHeader::Version4(_, _) => ValueError::Icmpv6InIpv4,
                        IpHeader::Version6(_, e) => if payload@.len() + 8 > 0xFFFF {
                            ValueError::Ipv6PayloadLengthTooLarge(payload@.len() as usize)
                        } else {
                            ValueError::Ipv6PayloadLengthTooLarge(
                                (e.spec_header_len() + 8 + payload@.len()) as usize,
                            )
                        },
                    },
                ),
            },
    {
        let h6 = match &self.ip {
            IpHeader::Version4(_, _) => {
                return Err(WriteError::ValueError(ValueError::Icmpv6InIpv4));
            },
            IpHeader::Version6(h, _) => *h,
        };
        if payload.len() > 0xFFFF - 8 {
            return Err(
                WriteError::ValueError(ValueError::Ipv6PayloadLengthTooLarge(payload.len())),
            );
        }
        let icmp = match Icmpv6Header::with_checksum(
            self.icmp_type,
            h6.source,
            h6.destination,
            payload,
        ) {
            Ok(h) => h,
            Err(e) => {
                return Err(WriteError::ValueError(e));
            },
        };
        match write_outer(
            buf,
            &self.link,
            &self.vlan,
            &self.ip,
            8 + payload.len(),
            ip_number::IPV6_ICMP,
        ) {
            Ok(()) => {},
            Err(e) => {
                return Err(WriteError::ValueError(e));
            },
        }
        icmp.write(buf);
        crate::bytes::push_slice(buf, payload);
        proof {
            assert(icmp == spec_built_icmpv6(
                self.icmp_type,
                h6.source@,
                h6.destination@,
                payload@,
            ));
            assert(buf@ =~= old(buf)@ + spec_link_bytes(self.link, self.vlan, self.ip)
                + spec_ip_bytes(self.ip, 8 + payload@.len() as int, ip_number::IPV6_ICMP)
                + icmp.spec_bytes() + payload@);
        }
        Ok(())
    }
}

/// User-supplied linkage fields are ignored: two link headers that
/// differ only in their ether-type build the same packet prefix.
pub proof fn lemma_link_ether_type_overridden(
    l1: Ethernet2Header,
    l2: Ethernet2Header,
    vlan: Option<VlanHeader>,
    ip: IpHeader,
)
    requires
        l1.source == l2.source,
        l1.destination == l2.destination,
    ensures
        spec_adjusted_link(l1, vlan, ip) == spec_adjusted_link(l2, vlan, ip),
{
}

/// User-supplied ether-types in VLAN tags are ignored: two taggings
/// that differ only in their ether-type fields serialize the same.
pub proof fn lemma_vlan_ether_types_overridden(v1: VlanHeader, v2: VlanHeader, ip: IpHeader)
    requires
        match (v1, v2) {
            (VlanHeader::Single(a), VlanHeader::Single(b)) => a == SingleVlanHeader {
                ether_type: a.ether_type,
                ..b
            },
            (VlanHeader::Double(a), VlanHeader::Double(b)) => a.outer == (SingleVlanHeader {
                ether_type: a.outer.ether_type,
                ..b.outer
            }) && a.inner == (SingleVlanHeader { ether_type: a.inner.ether_type, ..b.inner }),
            _ => false,
        },
    ensures
        spec_adjusted_vlan(v1, ip) == spec_adjusted_vlan(v2, ip),
{
}

/// User-supplied protocol, total length and checksum fields of an
/// IPv4 header are ignored: the builder computes all three.
pub proof fn lemma_ipv4_linkage_overridden(
    h1: Ipv4Header,
    h2: Ipv4Header,
    e: Ipv4Extensions,
    rest_len: int,
    tproto: u8,
)
    requires
        h1 == (Ipv4Header {
            protocol: h1.protocol,
            payload_len: h1.payload_len,
            header_checksum: h1.header_checksum,
            ..h2
        }),
    ensures
        spec_adjusted_ipv4(h1, e, rest_len, tproto) == spec_adjusted_ipv4(h2, e, rest_len, tproto),
{
}

/// User-supplied next-header and payload length fields of an IPv6
/// header are ignored: the builder computes both.
pub proof fn lemma_ipv6_linkage_overridden(
    h1: Ipv6Header,
    h2: Ipv6Header,
    e: Ipv6Extensions,
    rest_len: int,
    tproto: u8,
)
    requires
        h1 == (Ipv6Header { next_header: h1.next_header, payload_length: h1.payload_length, ..h2 }),
    ensures
        spec_adjusted_ipv6(h1, e, rest_len, tproto) == spec_adjusted_ipv6(h2, e, rest_len, tproto),
{
}

/// The outer tag of a double tagging leaves the builder with one of
/// the recognized tagging ether-types, and so does the link header
/// above it: double tags stay recognizable on the wire.
pub proof fn lemma_double_vlan_ordering(
    link: Ethernet2Header,
    d: DoubleVlanHeader,
    ip: IpHeader,
)
    ensures
        match spec_adjusted_vlan(VlanHeader::Double(d), ip) {
            VlanHeader::Double(d2) => ether_type::spec_is_vlan_ether_type(d2.outer.ether_type),
            _ => false,
        },
        ether_type::spec_is_vlan_ether_type(
            spec_adjusted_link(link, Some(VlanHeader::Double(d)), ip).ether_type,
        ),
{
}

/// What the builder writes, the parsers read back: for a packet
/// built from an Ethernet II header, an IPv4 header without
/// extensions and a UDP transport, the emitted buffer stands in the
/// decoding relation of the owning parser with exactly the adjusted
/// headers and the payload. Together with the parsers' contracts
/// and the uniqueness of decoding, parsing a built packet returns
/// the headers the builder computed.
#[verifier::rlimit(100)]
#[verifier::spinoff_prover]
pub proof fn lemma_built_udp_v4_parses(
    link: Ethernet2Header,
    h: Ipv4Header,
    source_port: u16,
    destination_port: u16,
    payload: Seq<u8>,
)
    requires
        h.wf(),
        !h.more_fragments,
        h.fragments_offset == 0,
        8 + payload.len() <= 0xFFFF - 20 - h.options_len,
    ensures
        ({
            let ip = IpHeader::Version4(h, Ipv4Extensions { auth: None });
            let udp = spec_built_udp(ip, source_port, destination_port, payload);
            let b = spec_link_bytes(Some(link), None, ip) + spec_ip_bytes(
                ip,
                8 + payload.len() as int,
                ip_number::UDP,
            ) + udp.spec_bytes() + payload;
            let h3 = spec_adjusted_ipv4(
                h,
                Ipv4Extensions { auth: None },
                8 + payload.len() as int,
                ip_number::UDP,
            ).0;
            &&& b.len() >= 14
            &&& spec_adjusted_link(link, None, ip).spec_matches(b)
            &&& crate::bytes::be16(b[12], b[13]) == ether_type::IPV4
            &&& crate::packet::spec_hrel_et(
                crate::bytes::be16(b[12], b[13]),
                b.skip(14),
                None,
                Some(IpHeader::Version4(h3, Ipv4Extensions { auth: None })),
                Some(crate::transport::TransportHeader::Udp(udp)),
                payload,
            )
        }),
{
    let e0 = Ipv4Extensions { auth: None };
    let ip = IpHeader::Version4(h, e0);
    let udp = spec_built_udp(ip, source_port, destination_port, payload);
    let al = spec_adjusted_link(link, None, ip);
    let (h3, e2) = spec_adjusted_ipv4(h, e0, 8 + payload.len() as int, ip_number::UDP);
    let b = spec_link_bytes(Some(link), None, ip) + spec_ip_bytes(
        ip,
        8 + payload.len() as int,
        ip_number::UDP,
    ) + udp.spec_bytes() + payload;
    assert(e2 == e0);
    assert(h3.wf());
    let rest1 = h3.spec_bytes() + (udp.spec_bytes() + payload);
    assert(b =~= al.spec_bytes() + rest1);
    Ethernet2Header::lemma_matches_own_bytes(al, rest1);
    assert(al.spec_matches(b));
    assert(crate::bytes::be16(b[12], b[13]) == al.ether_type);
    assert(al.ether_type == ether_type::IPV4);
    let b1 = b.skip(14);
    assert(b1 =~= h3.spec_bytes() + (udp.spec_bytes() + payload));
    Ipv4Header::lemma_matches_own_bytes(h3, udp.spec_bytes() + payload);
    assert(h3.spec_matches(b1));
    assert(h3.protocol == ip_number::UDP);
    assert(!h3.more_fragments && h3.fragments_offset == 0);
    let b2 = b1.skip(20 + h3.options_len as int);
    assert(b2 =~= udp.spec_bytes() + payload);
    crate::udp::UdpHeader::lemma_matches_own_bytes(udp, payload);
    assert(udp.spec_matches(b2));
    assert(payload =~= b2.skip(8));
    assert(!ether_type::spec_is_vlan_ether_type(ether_type::IPV4));
}

/// The IPv6 counterpart of `lemma_built_udp_v4_parses`: a packet
/// built over an IPv6 header without extensions decodes back to the
/// adjusted headers and the payload.
#[verifier::rlimit(100)]
#[verifier::spinoff_prover]
pub proof fn lemma_built_udp_v6_parses(
    link: Ethernet2Header,
    h: Ipv6Header,
    source_port: u16,
    destination_port: u16,
    payload: Seq<u8>,
)
    requires
        h.wf(),
        8 + payload.len() <= 0xFFFF,
    ensures
        ({
            let ip = IpHeader::Version6(h, Ipv6Extensions::spec_empty());
            let udp = spec_built_udp(ip, source_port, destination_port, payload);
            let b = spec_link_bytes(Some(link), None, ip) + spec_ip_bytes(
                ip,
                8 + payload.len() as int,
                ip_number::UDP,
            ) + udp.spec_bytes() + payload;
            let h2 = spec_adjusted_ipv6(
                h,
                Ipv6Extensions::spec_empty(),
                8 + payload.len() as int,
                ip_number::UDP,
            ).0;
            &&& b.len() >= 14
            &&& spec_adjusted_link(link, None, ip).spec_matches(b)
            &&& crate::bytes::be16(b[12], b[13]) == ether_type::IPV6
            &&& crate::packet::spec_hrel_et(
                crate::bytes::be16(b[12], b[13]),
                b.skip(14),
                None,
                Some(IpHeader::Version6(h2, Ipv6Extensions::spec_empty())),
                Some(crate::transport::TransportHeader::Udp(udp)),
                payload,
            )
        }),
{
    let e0 = Ipv6Extensions::spec_empty();
    let ip = IpHeader::Version6(h, e0);
    let udp = spec_built_udp(ip, source_port, destination_port, payload);
    let al = spec_adjusted_link(link, None, ip);
    let (h2, e2) = spec_adjusted_ipv6(h, e0, 8 + payload.len() as int, ip_number::UDP);
    let b = spec_link_bytes(Some(link), None, ip) + spec_ip_bytes(
        ip,
        8 + payload.len() as int,
        ip_number::UDP,
    ) + udp.spec_bytes() + payload;
    assert(e2 == e0);
    assert(h2.wf());
    let rest1 = h2.spec_bytes() + (udp.spec_bytes() + payload);
    assert(b =~= al.spec_bytes() + rest1);
    Ethernet2Header::lemma_matches_own_bytes(al, rest1);
    assert(al.spec_matches(b));
    assert(crate::bytes::be16(b[12], b[13]) == al.ether_type);
    assert(al.ether_type == ether_type::IPV6);
    let b1 = b.skip(14);
    assert(b1 =~= h2.spec_bytes() + (udp.spec_bytes() + payload));
    Ipv6Header::lemma_matches_own_bytes(h2, udp.spec_bytes() + payload);
    assert(h2.spec_matches(b1));
    assert(h2.next_header == ip_number::UDP);
    let b2 = b1.skip(40);
    assert(b2 =~= udp.spec_bytes() + payload);
    crate::udp::UdpHeader::lemma_matches_own_bytes(udp, payload);
    assert(udp.spec_matches(b2));
    assert(payload =~= b2.skip(8));
    assert(!ether_type::spec_is_vlan_ether_type(ether_type::IPV6));
    assert(crate::packet::spec_hrel_transport(
        ip_number::UDP,
        crate::sliced::spec_frag6(e0),
        b2,
        Some(crate::transport::TransportHeader::Udp(udp)),
        payload,
    ));
    assert(crate::packet::spec_hrel_ipv6(
        b1,
        Some(IpHeader::Version6(h2, e0)),
        Some(crate::transport::TransportHeader::Udp(udp)),
        payload,
    )) by {
        assert(b1.skip(40 + 0int) =~= b2);
        assert(!crate::ip6ext::spec_is_ipv6_ext_header_value(h2.next_header));
        assert(crate::packet::spec_hrel_transport(
            h2.next_header,
            crate::sliced::spec_frag6(e0),
            b1.skip(40 + 0int),
            Some(crate::transport::TransportHeader::Udp(udp)),
            payload,
        ));
    }
}

/// The internet-and-transport part of `lemma_built_icmpv4_parses`:
/// the adjusted IPv4 header, the checksummed ICMPv4 header and the
/// message body decode from their own concatenation.
#[verifier::rlimit(100)]
#[verifier::spinoff_prover]
proof fn lemma_built_icmpv4_chain(h: Ipv4Header, icmp_type: Icmpv4Type, payload: Seq<u8>)
    requires
        h.wf(),
        !h.more_fragments,
        h.fragments_offset == 0,
        icmp_type.wf(),
        icmp_type.spec_header_len() + payload.len() <= 0xFFFF - 20 - h.options_len,
    ensures
        ({
            let e0 = Ipv4Extensions { auth: None };
            let ip = IpHeader::Version4(h, e0);
            let icmp = spec_built_icmpv4(icmp_type, payload);
            let rest_len = icmp_type.spec_header_len() + payload.len() as int;
            let h3 = spec_adjusted_ipv4(h, e0, rest_len, ip_number::ICMP).0;
            let c = spec_ip_bytes(ip, rest_len, ip_number::ICMP) + icmp.spec_bytes() + payload;
            crate::packet::spec_hrel_ipv4(
                c,
                Some(IpHeader::Version4(h3, e0)),
                Some(crate::transport::TransportHeader::Icmpv4(icmp)),
                payload,
            )
        }),
{
    let e0 = Ipv4Extensions { auth: None };
    let ip = IpHeader::Version4(h, e0);
    let icmp = spec_built_icmpv4(icmp_type, payload);
    let rest_len = icmp_type.spec_header_len() + payload.len() as int;
    let (h3, e2) = spec_adjusted_ipv4(h, e0, rest_len, ip_number::ICMP);
    let c = spec_ip_bytes(ip, rest_len, ip_number::ICMP) + icmp.spec_bytes() + payload;
    assert(e2 == e0);
    assert(h3.wf());
    assert(c =~= h3.spec_bytes() + (icmp.spec_bytes() + payload));
    Ipv4Header::lemma_matches_own_bytes(h3, icmp.spec_bytes() + payload);
    assert(h3.spec_matches(c));
    assert(h3.protocol == ip_number::ICMP);
    assert(!h3.more_fragments && h3.fragments_offset == 0);
    let b2 = c.skip(20 + h3.options_len as int);
    assert(b2 =~= icmp.spec_bytes() + payload);
    Icmpv4Header::lemma_matches_own_bytes(icmp, payload);
    assert(icmp.spec_matches(b2));
    assert(icmp.spec_bytes().len() == icmp.icmp_type.spec_header_len());
    assert(payload =~= b2.skip(icmp.icmp_type.spec_header_len()));
}

/// The ICMPv4 counterpart of `lemma_built_udp_v4_parses`: a built
/// ICMPv4 frame (an echo request among others) decodes back to the
/// adjusted IPv4 header and the ICMPv4 header with its fields
/// intact, and the decoded payload is exactly the message body
/// behind the ICMP header: the carve-out of the ICMP message on a
/// concretely built frame.
#[verifier::rlimit(100)]
#[verifier::spinoff_prover]
pub proof fn lemma_built_icmpv4_parses(
    link: Ethernet2Header,
    h: Ipv4Header,
    icmp_type: Icmpv4Type,
    payload: Seq<u8>,
)
    requires
        h.wf(),
        !h.more_fragments,
        h.fragments_offset == 0,
        icmp_type.wf(),
        icmp_type.spec_header_len() + payload.len() <= 0xFFFF - 20 - h.options_len,
    ensures
        ({
            let ip = IpHeader::Version4(h, Ipv4Extensions { auth: None });
            let icmp = spec_built_icmpv4(icmp_type, payload);
            let b = spec_link_bytes(Some(link), None, ip) + spec_ip_bytes(
                ip,
                icmp_type.spec_header_len() + payload.len() as int,
                ip_number::ICMP,
            ) + icmp.spec_bytes() + payload;
            let h3 = spec_adjusted_ipv4(
                h,
                Ipv4Extensions { auth: None },
                icmp_type.spec_header_len() + payload.len() as int,
                ip_number::ICMP,
            ).0;
            &&& b.len() >= 14
            &&& spec_adjusted_link(link, None, ip).spec_matches(b)
            &&& crate::bytes::be16(b[12], b[13]) == ether_type::IPV4
            &&& crate::packet::spec_hrel_et(
                crate::bytes::be16(b[12], b[13]),
                b.skip(14),
                None,
                Some(IpHeader::Version4(h3, Ipv4Extensions { auth: None })),
                Some(crate::transport::TransportHeader::Icmpv4(icmp)),
                payload,
            )
        }),
{
    let e0 = Ipv4Extensions { auth: None };
    let ip = IpHeader::Version4(h, e0);
    let icmp = spec_built_icmpv4(icmp_type, payload);
    let al = spec_adjusted_link(link, None, ip);
    let rest_len = icmp_type.spec_header_len() + payload.len() as int;
    let c = spec_ip_bytes(ip, rest_len, ip_number::ICMP) + icmp.spec_bytes() + payload;
    let b = spec_link_bytes(Some(link), None, ip) + spec_ip_bytes(ip, rest_len, ip_number::ICMP)
        + icmp.spec_bytes() + payload;
    assert(b =~= al.spec_bytes() + c);
    Ethernet2Header::lemma_matches_own_bytes(al, c);
    assert(al.spec_matches(b));
    assert(crate::bytes::be16(b[12], b[13]) == al.ether_type);
    assert(al.ether_type == ether_type::IPV4);
    assert(b.skip(14) =~= c);
    lemma_built_icmpv4_chain(h, icmp_type, payload);
    assert(!ether_type::spec_is_vlan_ether_type(ether_type::IPV4));
}

/// Truncation safety on a built frame: every prefix of a built
/// Ethernet II / IPv4 / UDP packet that ends inside one of the three
/// headers fails the slicers' success condition, so by their
/// contracts both the slicer and the owning parser return an error
/// on it. (A prefix shorter than the link header is already rejected
/// by the length clause of those contracts.)
#[verifier::rlimit(100)]
#[verifier::spinoff_prover]
pub proof fn lemma_built_udp_v4_truncation_errors(
    link: Ethernet2Header,
    h: Ipv4Header,
    source_port: u16,
    destination_port: u16,
    payload: Seq<u8>,
)
    requires
        h.wf(),
        !h.more_fragments,
        h.fragments_offset == 0,
        8 + payload.len() <= 0xFFFF - 20 - h.options_len,
    ensures
        ({
            let ip = IpHeader::Version4(h, Ipv4Extensions { auth: None });
            let udp = spec_built_udp(ip, source_port, destination_port, payload);
            let b = spec_link_bytes(Some(link), None, ip) + spec_ip_bytes(
                ip,
                8 + payload.len() as int,
                ip_number::UDP,
            ) + udp.spec_bytes() + payload;
            forall|k: int|
                14 <= k < 42 + h.options_len ==> !crate::sliced::spec_et_ok(
                    crate::bytes::be16(b[12], b[13]),
                    #[trigger] b.take(k).skip(14),
                )
        }),
{
    let ip = IpHeader::Version4(h, Ipv4Extensions { auth: None });
    let udp = spec_built_udp(ip, source_port, destination_port, payload);
    let b = spec_link_bytes(Some(link), None, ip) + spec_ip_bytes(
        ip,
        8 + payload.len() as int,
        ip_number::UDP,
    ) + udp.spec_bytes() + payload;
    let h3 = spec_adjusted_ipv4(
        h,
        Ipv4Extensions { auth: None },
        8 + payload.len() as int,
        ip_number::UDP,
    ).0;
    lemma_built_udp_v4_parses(link, h, source_port, destination_port, payload);
    let et = crate::bytes::be16(b[12], b[13]);
    let b1 = b.skip(14);
    assert(h3.spec_matches(b1));
    let hl = 20 + h3.options_len as int;
    assert((b1[0] % 16) * 4 == hl);
    assert forall|k: int|
        14 <= k < 42 + h.options_len implies !crate::sliced::spec_et_ok(
        et,
        #[trigger] b.take(k).skip(14),
    ) by {
        let b1k = b.take(k).skip(14);
        assert(b1k.len() == k - 14);
        assert(forall|i: int| 0 <= i < k - 14 ==> b1k[i] == b1[i]);
        assert(!ether_type::spec_is_vlan_ether_type(et));
        if k - 14 < 20 {
            assert(!crate::sliced::spec_ipv4_ok(b1k));
        } else if k - 14 < hl {
            assert(b1k[0] == b1[0]);
            assert(b1k.len() < (b1k[0] % 16) * 4);
            assert(!crate::sliced::spec_ipv4_ok(b1k));
        } else {
            assert(b1k[0] == b1[0] && b1k[6] == b1[6] && b1k[7] == b1[7] && b1k[9] == b1[9]);
            assert(b1k[9] == h3.protocol && h3.protocol == ip_number::UDP);
            assert((b1k[6] / 32) % 2 != 1 && (b1k[6] % 32) * 256 + b1k[7] == 0);
            assert(b1k.skip((b1k[0] % 16) * 4).len() == k - 14 - hl);
            assert(k - 14 - hl < 8);
            assert(!crate::sliced::spec_transport_ok(
                b1k[9] as u8,
                false,
                b1k.skip((b1k[0] % 16) * 4),
            ));
            assert(!crate::sliced::spec_ipv4_ok(b1k));
        }
    }
}

} // verus!
