//! Slicing buffers into packet views, the owning parser, and their
//! agreement.

use netheaders::builder::PacketBuilder;
use netheaders::err::{ValueError, WriteError};
use netheaders::icmp::IcmpEchoHeader;
use netheaders::icmpv4::Icmpv4Type;
use netheaders::icmpv6::Icmpv6Type;
use netheaders::ip::{IpHeader, Ipv4Extensions};
use netheaders::ip_number;
use netheaders::ipv4::Ipv4Header;
use netheaders::link::Ethernet2Header;
use netheaders::packet::PacketHeaders;
use netheaders::sliced::{InternetSlice, SlicedPacket, TransportSlice};
use netheaders::transport::TransportHeader;
use netheaders::udp::UdpHeader;

fn build_eth_ipv4_udp() -> Vec<u8> {
    let mut serialized = Vec::new();
    PacketBuilder::ethernet2([1, 2, 3, 4, 5, 6], [7, 8, 9, 10, 11, 12])
        .ipv4([13, 14, 15, 16], [17, 18, 19, 20], 21)
        .udp(22, 23)
        .write(&mut serialized, &[24, 25, 26, 27])
        .unwrap();
    serialized
}

#[test]
fn slice_eth_ipv4_udp() {
    let serialized = build_eth_ipv4_udp();
    assert_eq!(serialized.len(), 46);
    let sliced = SlicedPacket::from_ethernet(&serialized).unwrap();
    let link = sliced.link.unwrap();
    assert_eq!(
        link.to_header(),
        Ethernet2Header {
            source: [1, 2, 3, 4, 5, 6],
            destination: [7, 8, 9, 10, 11, 12],
            ether_type: netheaders::ether_type::IPV4
        }
    );
    assert!(sliced.vlan.is_none());
    match sliced.ip.unwrap() {
        InternetSlice::Ipv4(hs, exts) => {
            let h = hs.to_header();
            assert_eq!(h.protocol, ip_number::UDP);
            assert_eq!(h.payload_len, 12);
            assert_eq!(h.time_to_live, 21);
            assert!(exts.auth.is_none());
        },
        _ => panic!("expected an IPv4 slice"),
    }
    match sliced.transport.unwrap() {
        TransportSlice::Udp(us) => {
            let u = us.to_header();
            assert_eq!(u.source_port, 22);
            assert_eq!(u.destination_port, 23);
            assert_eq!(u.length, 12);
        },
        _ => panic!("expected a UDP slice"),
    }
    assert_eq!(sliced.payload, &[24, 25, 26, 27]);
}

#[test]
fn sliced_and_owned_agree() {
    // decoding the slices yields exactly the owned parser's headers
    let serialized = build_eth_ipv4_udp();
    let sliced = SlicedPacket::from_ethernet(&serialized).unwrap();
    let owned = PacketHeaders::from_ethernet_slice(&serialized).unwrap();
    assert_eq!(sliced.link.unwrap().to_header(), owned.link.unwrap());
    match (sliced.ip.unwrap(), owned.ip.unwrap()) {
        (InternetSlice::Ipv4(hs, se), IpHeader::Version4(oh, oe)) => {
            assert_eq!(hs.to_header(), oh);
            assert_eq!(se, oe);
        },
        _ => panic!("expected IPv4 on both sides"),
    }
    match (sliced.transport.unwrap(), owned.transport.unwrap()) {
        (TransportSlice::Udp(us), TransportHeader::Udp(ou)) => {
            assert_eq!(us.to_header(), ou);
        },
        _ => panic!("expected UDP on both sides"),
    }
    assert_eq!(sliced.payload, owned.payload);
}

#[test]
fn truncated_headers_error() {
    // every prefix that ends inside a header fails to slice
    let serialized = build_eth_ipv4_udp();
    let headers_len = 14 + 20 + 8;
    for k in 0..headers_len {
        assert!(
            SlicedPacket::from_ethernet(&serialized[..k]).is_err(),
            "expected an error at prefix length {}",
            k
        );
        assert!(PacketHeaders::from_ethernet_slice(&serialized[..k]).is_err());
    }
    // a prefix that only cuts the payload still slices
    assert!(SlicedPacket::from_ethernet(&serialized[..headers_len + 2]).is_ok());
}

#[test]
fn icmpv4_payload_carved_out() {
    // for ICMP the message body stays with the ICMP slice and the
    // packet payload is empty
    let payload = [9u8, 8, 7];
    let mut serialized = Vec::new();
    PacketBuilder::ethernet2([1, 2, 3, 4, 5, 6], [7, 8, 9, 10, 11, 12])
        .ipv4([13, 14, 15, 16], [17, 18, 19, 20], 21)
        .icmpv4_echo_request(51, 52)
        .write(&mut serialized, &payload)
        .unwrap();

    let sliced = SlicedPacket::from_ethernet(&serialized).unwrap();
    match sliced.transport.unwrap() {
        TransportSlice::Icmpv4(s) => {
            assert_eq!(s.payload(), &payload[..]);
            match s.to_header().icmp_type {
                Icmpv4Type::EchoRequest(e) => {
                    assert_eq!(e, IcmpEchoHeader { id: 51, seq: 52 });
                },
                _ => panic!("expected an echo request"),
            }
        },
        _ => panic!("expected an ICMPv4 slice"),
    }
    assert!(sliced.payload.is_empty());

    // the owning parser hands the body out as the packet payload
    let owned = PacketHeaders::from_ethernet_slice(&serialized).unwrap();
    match owned.transport.unwrap() {
        TransportHeader::Icmpv4(h) => match h.icmp_type {
            Icmpv4Type::EchoRequest(e) => {
                assert_eq!(e, IcmpEchoHeader { id: 51, seq: 52 });
            },
            _ => panic!("expected an echo request"),
        },
        _ => panic!("expected an ICMPv4 header"),
    }
    assert_eq!(owned.payload, &payload[..]);
}

#[test]
fn icmpv6_in_ipv4_fails_to_build() {
    let mut serialized = Vec::new();
    let r = PacketBuilder::ethernet2([1, 2, 3, 4, 5, 6], [7, 8, 9, 10, 11, 12])
        .ipv4([13, 14, 15, 16], [17, 18, 19, 20], 21)
        .icmpv6(Icmpv6Type::EchoRequest(IcmpEchoHeader { id: 1, seq: 2 }))
        .write(&mut serialized, &[1, 2, 3]);
    assert_eq!(
        r.unwrap_err(),
        WriteError::ValueError(ValueError::Icmpv6InIpv4)
    );
    assert!(serialized.is_empty());
}

#[test]
fn update_checksum_mismatches() {
    // the transport value refuses the checksum of the wrong IP version
    let v4 = Ipv4Header::new(0, 1, 0, [0; 4], [0; 4]);
    let v6 = netheaders::ipv6::Ipv6Header {
        traffic_class: 0,
        flow_label: 0,
        payload_length: 0,
        next_header: 0,
        hop_limit: 0,
        source: [0; 16],
        destination: [0; 16],
    };
    let mut t = TransportHeader::Icmpv6(
        netheaders::icmpv6::Icmpv6Header {
            icmp_type: Icmpv6Type::EchoReply(IcmpEchoHeader { id: 0, seq: 0 }),
            checksum: 0,
        },
    );
    assert_eq!(
        t.update_checksum_ipv4(&v4, &[]).unwrap_err(),
        ValueError::Icmpv6InIpv4
    );
    let mut t4 = TransportHeader::Icmpv4(
        netheaders::icmpv4::Icmpv4Header {
            icmp_type: Icmpv4Type::EchoReply(IcmpEchoHeader { id: 0, seq: 0 }),
            checksum: 0,
        },
    );
    assert_eq!(
        t4.update_checksum_ipv6(&v6, &[]).unwrap_err(),
        ValueError::Icmpv4InIpv6
    );
}

#[test]
fn transport_header_accessors() {
    let udp = UdpHeader {
        source_port: 1,
        destination_port: 2,
        length: 8,
        checksum: 0,
    };
    let mut t = TransportHeader::Udp(udp);
    assert_eq!(t.header_len(), 8);
    assert!(t.clone().tcp().is_none());
    assert!(t.clone().icmp4().is_none());
    assert!(t.clone().icmp6().is_none());
    assert_eq!(t.clone().udp().unwrap(), udp);
    // mutate through the borrow
    t.mut_udp().unwrap().source_port = 42;
    assert_eq!(t.udp().unwrap().source_port, 42);

    let tcp = netheaders::tcp::TcpHeader::new(10, 20, 30, 40);
    let mut t2 = TransportHeader::Tcp(tcp);
    assert_eq!(t2.header_len(), 20);
    assert!(t2.clone().udp().is_none());
    t2.mut_tcp().unwrap().window_size = 99;
    assert_eq!(t2.tcp().unwrap().window_size, 99);
}

#[test]
fn transport_update_checksum_and_write() {
    let payload = [24u8, 25, 26, 27];
    let ip = {
        let mut h = Ipv4Header::new(12, 21, ip_number::UDP, [13, 14, 15, 16], [17, 18, 19, 20]);
        h.header_checksum = h.calc_header_checksum().unwrap();
        h
    };
    let mut t = TransportHeader::Udp(UdpHeader {
        source_port: 22,
        destination_port: 23,
        length: 12,
        checksum: 0,
    });
    t.update_checksum_ipv4(&ip, &payload).unwrap();
    let expected = UdpHeader::with_ipv4_checksum(22, 23, &ip, &payload).unwrap();
    assert_eq!(t.clone().udp().unwrap(), expected);

    let mut buf = Vec::new();
    t.write(&mut buf).unwrap();
    let (decoded, _) = UdpHeader::from_slice(&buf).unwrap();
    assert_eq!(decoded, expected);
}

#[test]
fn from_ip_and_from_ether_type() {
    // the ladder can start below the link layer
    let mut serialized = Vec::new();
    PacketBuilder::ipv4([13, 14, 15, 16], [17, 18, 19, 20], 21)
        .udp(22, 23)
        .write(&mut serialized, &[1, 2])
        .unwrap();

    let sliced = SlicedPacket::from_ip(&serialized).unwrap();
    assert!(sliced.link.is_none());
    assert!(matches!(sliced.ip, Some(InternetSlice::Ipv4(_, _))));
    assert!(matches!(sliced.transport, Some(TransportSlice::Udp(_))));
    assert_eq!(sliced.payload, &[1, 2]);

    let owned = PacketHeaders::from_ip_slice(&serialized).unwrap();
    assert!(matches!(owned.ip, Some(IpHeader::Version4(_, _))));

    let sliced2 =
        SlicedPacket::from_ether_type(netheaders::ether_type::IPV4, &serialized).unwrap();
    assert!(sliced2.link.is_none());
    assert!(matches!(sliced2.transport, Some(TransportSlice::Udp(_))));

    // an unrecognized ether-type leaves the whole buffer as payload
    let other = SlicedPacket::from_ether_type(0x1234, &serialized).unwrap();
    assert!(other.ip.is_none());
    assert!(other.transport.is_none());
    assert_eq!(other.payload, &serialized[..]);

    // an unsupported IP version is rejected
    assert_eq!(
        SlicedPacket::from_ip(&[0x50u8; 40]).unwrap_err(),
        netheaders::err::ReadError::IpUnsupportedVersion(5)
    );
}

#[test]
fn unknown_protocol_and_fragmentation() {
    // an unknown IP protocol is no error: the remainder is payload
    let mut serialized = Vec::new();
    PacketBuilder::ip(IpHeader::Version4(
        Ipv4Header::new(0, 9, 0, [1, 1, 1, 1], [2, 2, 2, 2]),
        Default::default(),
    ))
    .write(&mut serialized, 200, &[5, 6, 7])
    .unwrap();
    let sliced = SlicedPacket::from_ip(&serialized).unwrap();
    match sliced.transport.unwrap() {
        TransportSlice::Unknown(p) => assert_eq!(p, 200),
        _ => panic!("expected an unknown transport"),
    }
    assert_eq!(sliced.payload, &[5, 6, 7]);

    // a fragmented IPv4 packet gets no transport slot
    let mut frag = Vec::new();
    let mut h = Ipv4Header::new(12, 9, 0, [1, 1, 1, 1], [2, 2, 2, 2]);
    h.more_fragments = true;
    h.protocol = ip_number::UDP;
    h.header_checksum = h.calc_header_checksum().unwrap();
    h.write(&mut frag);
    frag.extend_from_slice(&[0u8; 12]);
    let sliced = SlicedPacket::from_ip(&frag).unwrap();
    assert!(sliced.transport.is_none());
    assert_eq!(sliced.payload.len(), 12);
}

#[test]
#[should_panic]
fn test_packet_slicing_panics() {
    let v = Vec::new();
    let s = SlicedPacket {
        link: None,
        vlan: None,
        ip: None,
        transport: None,
        payload: &v[..],
    };
    // the expected link header is missing from the sliced packet
    let expected = Some(Ethernet2Header {
        source: [0; 6],
        destination: [0; 6],
        ether_type: 0,
    });
    assert_eq!(expected, s.link.map(|l| l.to_header()));
}

#[test]
fn qinq_ipv6_udp_scenario() {
    // double tagging into IPv6: the service tag outside, the customer
    // tag inside, every linkage field computed
    let in_payload = [32u8, 33, 34, 35];
    let mut serialized = Vec::new();
    PacketBuilder::ethernet2([1, 2, 3, 4, 5, 6], [7, 8, 9, 10, 11, 12])
        .double_vlan(0x123, 0x234)
        .ipv6(
            [11, 12, 13, 14, 15, 16, 17, 18, 19, 20, 21, 22, 23, 24, 25, 26],
            [31, 32, 33, 34, 35, 36, 37, 38, 39, 40, 41, 42, 43, 44, 45, 46],
            47,
        )
        .udp(48, 49)
        .write(&mut serialized, &in_payload)
        .unwrap();

    let (eth, rest) = Ethernet2Header::from_slice(&serialized).unwrap();
    assert_eq!(eth.ether_type, 0x88A8);
    let (outer, rest) = netheaders::link::SingleVlanHeader::from_slice(rest).unwrap();
    assert_eq!(outer.ether_type, 0x8100);
    assert_eq!(outer.vlan_identifier, 0x123);
    let (inner, rest) = netheaders::link::SingleVlanHeader::from_slice(rest).unwrap();
    assert_eq!(inner.ether_type, 0x86DD);
    assert_eq!(inner.vlan_identifier, 0x234);
    let (ip, rest) = netheaders::ipv6::Ipv6Header::from_slice(rest).unwrap();
    assert_eq!(ip.next_header, 17);
    assert_eq!(ip.payload_length, 12);
    assert_eq!(ip.hop_limit, 47);
    let (udp, rest) = UdpHeader::from_slice(rest).unwrap();
    assert_eq!(udp.source_port, 48);
    assert_eq!(udp.destination_port, 49);
    assert_eq!(udp.length, 12);
    assert_eq!(rest, &in_payload[..]);
}

#[test]
fn builder_write_error_values() {
    // the builder's write errors are pinned: an oversized UDP payload
    let big = vec![0u8; 0xFFFF - 7];
    let mut buf = Vec::new();
    let r = PacketBuilder::ipv4([1, 2, 3, 4], [5, 6, 7, 8], 9)
        .udp(10, 11)
        .write(&mut buf, &big);
    assert_eq!(
        r.unwrap_err(),
        WriteError::ValueError(ValueError::UdpPayloadLengthTooLarge(0xFFFF - 7))
    );
    assert!(buf.is_empty());

    // and a payload that no IPv4 total length field can carry
    let big2 = vec![0u8; 0x10000];
    let mut buf2 = Vec::new();
    let r2 = PacketBuilder::ipv4([1, 2, 3, 4], [5, 6, 7, 8], 9).write(&mut buf2, 200, &big2);
    assert_eq!(
        r2.unwrap_err(),
        WriteError::ValueError(ValueError::Ipv4PayloadLengthTooLarge(0x10000))
    );
    assert!(buf2.is_empty());
}

#[test]
fn ipv4_extensions_read_errors() {
    // reading extensions under the authentication protocol fails
    // exactly as the authentication header parser does
    assert_eq!(
        Ipv4Extensions::from_slice(ip_number::AUTH, &[0u8; 4]).unwrap_err(),
        netheaders::err::ReadError::UnexpectedEndOfSlice(12)
    );
    assert_eq!(
        Ipv4Extensions::from_slice(ip_number::AUTH, &[0u8; 12]).unwrap_err(),
        netheaders::err::ReadError::IpAuthenticationHeaderTooSmall(0)
    );
    // any other protocol reads nothing and cannot fail
    let (e, next, rest) = Ipv4Extensions::from_slice(ip_number::TCP, &[0u8; 4]).unwrap();
    assert!(e.auth.is_none());
    assert_eq!(next, ip_number::TCP);
    assert_eq!(rest.len(), 4);
}
