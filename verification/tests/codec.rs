//! Per-header codecs: write, decode back, checksum over the emitted
//! bytes, and the decoding errors.

use netheaders::checksum::{build_pseudo_header_v4, build_pseudo_header_v6, sum16_slice};
use netheaders::err::{ReadError, ValueError};
use netheaders::icmp::IcmpEchoHeader;
use netheaders::icmpv4::{Icmpv4Header, Icmpv4Type, TimestampMessage};
use netheaders::icmpv6::{Icmpv6Header, Icmpv6Type};
use netheaders::ip6ext::{Ipv6Extensions, Ipv6FragmentHeader, Ipv6RawExtHeader};
use netheaders::ip_auth::IpAuthenticationHeader;
use netheaders::ip_number;
use netheaders::ipv4::Ipv4Header;
use netheaders::ipv6::Ipv6Header;
use netheaders::link::{DoubleVlanHeader, Ethernet2Header, SingleVlanHeader};
use netheaders::tcp::TcpHeader;
use netheaders::udp::UdpHeader;

#[test]
fn ethernet2_roundtrip() {
    let h = Ethernet2Header {
        source: [1, 2, 3, 4, 5, 6],
        destination: [7, 8, 9, 10, 11, 12],
        ether_type: 0x0800,
    };
    let mut buf = Vec::new();
    h.write(&mut buf);
    assert_eq!(buf.len(), 14);
    assert_eq!(&buf[0..6], &[7, 8, 9, 10, 11, 12]);
    let (h2, rest) = Ethernet2Header::from_slice(&buf).unwrap();
    assert_eq!(h2, h);
    assert!(rest.is_empty());
}

#[test]
fn ethernet2_truncated() {
    assert_eq!(
        Ethernet2Header::from_slice(&[0u8; 13]).unwrap_err(),
        ReadError::UnexpectedEndOfSlice(14)
    );
}

#[test]
fn single_vlan_roundtrip() {
    let h = SingleVlanHeader {
        priority_code_point: 5,
        drop_eligible_indicator: true,
        vlan_identifier: 0xABC,
        ether_type: 0x86DD,
    };
    let mut buf = Vec::new();
    h.write(&mut buf);
    let (h2, rest) = SingleVlanHeader::from_slice(&buf).unwrap();
    assert_eq!(h2, h);
    assert!(rest.is_empty());
}

#[test]
fn double_vlan_roundtrip() {
    let h = DoubleVlanHeader {
        outer: SingleVlanHeader {
            priority_code_point: 1,
            drop_eligible_indicator: false,
            vlan_identifier: 0x123,
            ether_type: 0x8100,
        },
        inner: SingleVlanHeader {
            priority_code_point: 2,
            drop_eligible_indicator: true,
            vlan_identifier: 0x234,
            ether_type: 0x0800,
        },
    };
    let mut buf = Vec::new();
    h.write(&mut buf);
    let (h2, rest) = DoubleVlanHeader::from_slice(&buf).unwrap();
    assert_eq!(h2, h);
    assert!(rest.is_empty());
}

#[test]
fn ipv4_roundtrip_with_options() {
    let mut h = Ipv4Header::new(100, 64, 17, [192, 168, 0, 1], [10, 0, 0, 1]);
    h.set_options(&[1, 2, 3, 4, 5, 6, 7, 8]).unwrap();
    h.identification = 0x1234;
    h.header_checksum = h.calc_header_checksum().unwrap();
    let mut buf = Vec::new();
    h.write(&mut buf);
    assert_eq!(buf.len(), 28);
    let (h2, rest) = Ipv4Header::from_slice(&buf).unwrap();
    assert_eq!(h2, h);
    assert_eq!(h2.options(), &[1, 2, 3, 4, 5, 6, 7, 8]);
    assert!(rest.is_empty());
}

#[test]
fn ipv4_header_checksum_verifies() {
    // a correctly checksummed header sums to 0xFFFF word by word
    let mut h = Ipv4Header::new(32, 21, 17, [13, 14, 15, 16], [17, 18, 19, 20]);
    h.header_checksum = h.calc_header_checksum().unwrap();
    let mut buf = Vec::new();
    h.write(&mut buf);
    assert_eq!(sum16_slice(&buf, 0), 0xFFFF);
}

#[test]
fn ipv4_errors() {
    // too short
    assert_eq!(
        Ipv4Header::from_slice(&[0x45u8; 10]).unwrap_err(),
        ReadError::UnexpectedEndOfSlice(20)
    );
    // wrong version (6 instead of 4)
    let mut b = [0u8; 20];
    b[0] = 0x65;
    assert_eq!(
        Ipv4Header::from_slice(&b).unwrap_err(),
        ReadError::Ipv4UnexpectedVersion(6)
    );
    // header length below 5
    b[0] = 0x44;
    assert_eq!(
        Ipv4Header::from_slice(&b).unwrap_err(),
        ReadError::Ipv4HeaderLengthBad(4)
    );
    // total length smaller than the header
    b[0] = 0x45;
    b[2] = 0;
    b[3] = 10;
    assert_eq!(
        Ipv4Header::from_slice(&b).unwrap_err(),
        ReadError::Ipv4TotalLengthTooSmall(10)
    );
    // options not a multiple of 4
    let mut h = Ipv4Header::new(0, 1, 0, [0; 4], [0; 4]);
    assert_eq!(
        h.set_options(&[1, 2, 3]).unwrap_err(),
        ValueError::Ipv4OptionsLengthBad(3)
    );
}

#[test]
fn ipv4_fragmentation_flag() {
    let mut h = Ipv4Header::new(0, 1, 0, [0; 4], [0; 4]);
    assert!(!h.is_fragmenting_payload());
    h.more_fragments = true;
    assert!(h.is_fragmenting_payload());
    h.more_fragments = false;
    h.fragments_offset = 1;
    assert!(h.is_fragmenting_payload());
}

#[test]
fn ipv6_roundtrip() {
    let h = Ipv6Header {
        traffic_class: 0xAB,
        flow_label: 0xF_FF_FF,
        payload_length: 256,
        next_header: 17,
        hop_limit: 64,
        source: [1; 16],
        destination: [2; 16],
    };
    let mut buf = Vec::new();
    h.write(&mut buf);
    assert_eq!(buf.len(), 40);
    let (h2, rest) = Ipv6Header::from_slice(&buf).unwrap();
    assert_eq!(h2, h);
    assert!(rest.is_empty());
}

#[test]
fn ipv6_errors() {
    assert_eq!(
        Ipv6Header::from_slice(&[0x60u8; 39]).unwrap_err(),
        ReadError::UnexpectedEndOfSlice(40)
    );
    let mut b = [0u8; 40];
    b[0] = 0x45;
    assert_eq!(
        Ipv6Header::from_slice(&b).unwrap_err(),
        ReadError::Ipv6UnexpectedVersion(4)
    );
}

#[test]
fn ip_auth_roundtrip() {
    let h = IpAuthenticationHeader::new(6, 0xDEADBEEF, 42, &[9, 8, 7, 6, 5, 4, 3, 2]).unwrap();
    assert_eq!(h.header_len(), 20);
    assert_eq!(h.raw_icv(), &[9, 8, 7, 6, 5, 4, 3, 2]);
    let mut buf = Vec::new();
    h.write(&mut buf);
    let (h2, rest) = IpAuthenticationHeader::from_slice(&buf).unwrap();
    assert_eq!(h2, h);
    assert!(rest.is_empty());
}

#[test]
fn ip_auth_errors() {
    assert_eq!(
        IpAuthenticationHeader::new(0, 0, 0, &[1, 2, 3]).unwrap_err(),
        ValueError::IpAuthenticationHeaderIcvTooBig(3)
    );
    let big = vec![0u8; 1020];
    assert_eq!(
        IpAuthenticationHeader::new(0, 0, 0, &big).unwrap_err(),
        ValueError::IpAuthenticationHeaderIcvTooBig(1020)
    );
    // length field below the minimum of 1
    let b = [0u8; 12];
    assert_eq!(
        IpAuthenticationHeader::from_slice(&b).unwrap_err(),
        ReadError::IpAuthenticationHeaderTooSmall(0)
    );
}

#[test]
fn ipv6_raw_ext_roundtrip() {
    let h = Ipv6RawExtHeader::new_raw(59, &[1, 2, 3, 4, 5, 6]).unwrap();
    let mut buf = Vec::new();
    h.write(&mut buf);
    assert_eq!(buf.len(), 8);
    let (h2, rest) = Ipv6RawExtHeader::from_slice(&buf).unwrap();
    assert_eq!(h2, h);
    assert!(rest.is_empty());
}

#[test]
fn ipv6_fragment_roundtrip() {
    let h = Ipv6FragmentHeader {
        next_header: 6,
        fragment_offset: 0x1ABC,
        more_fragments: true,
        identification: 0xCAFEBABE,
    };
    let mut buf = Vec::new();
    h.write(&mut buf);
    assert_eq!(buf.len(), 8);
    let (h2, rest) = Ipv6FragmentHeader::from_slice(&buf).unwrap();
    assert_eq!(h2, h);
    assert!(rest.is_empty());
}

#[test]
fn ipv6_extensions_chain_roundtrip() {
    // hop-by-hop, fragment and auth, chained and written in
    // canonical order, then walked back
    let mut exts = Ipv6Extensions {
        hop_by_hop_options: Some(Ipv6RawExtHeader::new_raw(0, &[1, 2, 3, 4, 5, 6]).unwrap()),
        destination_options: None,
        routing: None,
        fragment: Some(Ipv6FragmentHeader {
            next_header: 0,
            fragment_offset: 0,
            more_fragments: false,
            identification: 7,
        }),
        auth: Some(IpAuthenticationHeader::new(0, 1, 2, &[3, 4, 5, 6]).unwrap()),
    };
    let first = exts.set_next_headers(ip_number::UDP);
    assert_eq!(first, ip_number::IPV6_HOP_BY_HOP);
    let mut buf = Vec::new();
    exts.write(&mut buf);
    assert_eq!(buf.len(), exts.header_len());
    let (walked, next, rest) = Ipv6Extensions::from_slice(first, &buf).unwrap();
    assert_eq!(walked, exts);
    assert_eq!(next, ip_number::UDP);
    assert!(rest.is_empty());
}

#[test]
fn ipv6_extensions_hop_by_hop_not_at_start() {
    // an auth header whose next header points at hop-by-hop
    let mut buf = Vec::new();
    let auth = IpAuthenticationHeader::new(ip_number::IPV6_HOP_BY_HOP, 1, 2, &[]).unwrap();
    auth.write(&mut buf);
    let hbh = Ipv6RawExtHeader::new_raw(ip_number::UDP, &[0, 0, 0, 0, 0, 0]).unwrap();
    hbh.write(&mut buf);
    assert_eq!(
        Ipv6Extensions::from_slice(ip_number::AUTH, &buf).unwrap_err(),
        ReadError::Ipv6HopByHopNotAtStart
    );
}

#[test]
fn ipv6_extensions_duplicate() {
    // two fragment headers in a row
    let mut buf = Vec::new();
    let f1 = Ipv6FragmentHeader {
        next_header: ip_number::IPV6_FRAG,
        fragment_offset: 0,
        more_fragments: false,
        identification: 1,
    };
    f1.write(&mut buf);
    let f2 = Ipv6FragmentHeader {
        next_header: ip_number::UDP,
        fragment_offset: 0,
        more_fragments: false,
        identification: 2,
    };
    f2.write(&mut buf);
    assert_eq!(
        Ipv6Extensions::from_slice(ip_number::IPV6_FRAG, &buf).unwrap_err(),
        ReadError::Ipv6TooManyHeaderExtensions
    );
}

#[test]
fn udp_roundtrip() {
    let h = UdpHeader {
        source_port: 1234,
        destination_port: 5678,
        length: 12,
        checksum: 0xABCD,
    };
    let mut buf = Vec::new();
    h.write(&mut buf);
    let (h2, rest) = UdpHeader::from_slice(&buf).unwrap();
    assert_eq!(h2, h);
    assert!(rest.is_empty());
}

#[test]
fn udp_checksum_verifies_over_pseudo_header() {
    let ip = Ipv4Header::new(12, 21, ip_number::UDP, [13, 14, 15, 16], [17, 18, 19, 20]);
    let payload = [24, 25, 26, 27];
    let udp = UdpHeader::with_ipv4_checksum(22, 23, &ip, &payload).unwrap();
    // recompute: pseudo-header, header and payload sum to 0xFFFF
    let pseudo = build_pseudo_header_v4(&ip.source, &ip.destination, ip_number::UDP, udp.length);
    let mut hdr = Vec::new();
    udp.write(&mut hdr);
    let s = sum16_slice(&pseudo, 0);
    let s = sum16_slice(&hdr, s);
    let s = sum16_slice(&payload, s);
    assert_eq!(s, 0xFFFF);
}

#[test]
fn udp_payload_too_large() {
    let ip = Ipv4Header::new(0, 21, ip_number::UDP, [0; 4], [0; 4]);
    let payload = vec![0u8; 0xFFFF - 7];
    assert_eq!(
        UdpHeader::with_ipv4_checksum(1, 2, &ip, &payload).unwrap_err(),
        ValueError::UdpPayloadLengthTooLarge(0xFFFF - 7)
    );
}

#[test]
fn tcp_roundtrip_with_flags_and_options() {
    let mut h = TcpHeader::new(80, 4711, 0x12345678, 1024);
    h.syn = true;
    h.ack = true;
    h.ns = true;
    h.cwr = true;
    h.acknowledgment_number = 0x9ABCDEF0;
    h.urgent_pointer = 7;
    h.set_options_raw(&[8, 10, 0, 0, 0, 1, 0, 0, 0, 2, 1, 1]).unwrap();
    let mut buf = Vec::new();
    h.write(&mut buf);
    assert_eq!(buf.len(), 32);
    let (h2, rest) = TcpHeader::from_slice(&buf).unwrap();
    assert_eq!(h2, h);
    assert!(rest.is_empty());
}

#[test]
fn tcp_checksum_verifies_over_pseudo_header() {
    let ip = Ipv6Header {
        traffic_class: 0,
        flow_label: 0,
        payload_length: 24,
        next_header: ip_number::TCP,
        hop_limit: 64,
        source: [3; 16],
        destination: [4; 16],
    };
    let payload = [1, 2, 3, 4];
    let mut h = TcpHeader::new(80, 443, 1, 1024);
    h.checksum = h.calc_checksum_ipv6(&ip, &payload).unwrap();
    let pseudo = build_pseudo_header_v6(
        &ip.source,
        &ip.destination,
        ip_number::TCP,
        (h.header_len() + payload.len()) as u32,
    );
    let mut hdr = Vec::new();
    h.write(&mut hdr);
    let s = sum16_slice(&pseudo, 0);
    let s = sum16_slice(&hdr, s);
    let s = sum16_slice(&payload, s);
    assert_eq!(s, 0xFFFF);
}

#[test]
fn tcp_errors() {
    assert_eq!(
        TcpHeader::from_slice(&[0u8; 19]).unwrap_err(),
        ReadError::UnexpectedEndOfSlice(20)
    );
    let mut b = [0u8; 20];
    b[12] = 0x40; // data offset 4
    assert_eq!(
        TcpHeader::from_slice(&b).unwrap_err(),
        ReadError::TcpDataOffsetTooSmall(4)
    );
    let mut h = TcpHeader::new(1, 2, 3, 4);
    assert_eq!(
        h.set_options_raw(&[0u8; 44]).unwrap_err(),
        ValueError::TcpOptionsLengthBad(44)
    );
}

#[test]
fn icmpv4_echo_roundtrip() {
    let h = Icmpv4Header::with_checksum(
        Icmpv4Type::EchoRequest(IcmpEchoHeader { id: 7, seq: 9 }),
        &[1, 2, 3],
    );
    let mut buf = Vec::new();
    h.write(&mut buf);
    assert_eq!(buf.len(), 8);
    buf.extend_from_slice(&[1, 2, 3]);
    let (h2, rest) = Icmpv4Header::from_slice(&buf).unwrap();
    assert_eq!(h2, h);
    assert_eq!(rest, &[1, 2, 3]);
    // the checksum verifies over header plus payload
    assert_eq!(sum16_slice(&buf, 0), 0xFFFF);
}

#[test]
fn icmpv4_timestamp_roundtrip() {
    let h = Icmpv4Header::with_checksum(
        Icmpv4Type::TimestampRequest(TimestampMessage {
            id: 1,
            seq: 2,
            originate_timestamp: 3,
            receive_timestamp: 4,
            transmit_timestamp: 5,
        }),
        &[],
    );
    assert_eq!(h.header_len(), 20);
    let mut buf = Vec::new();
    h.write(&mut buf);
    assert_eq!(buf.len(), 20);
    let (h2, rest) = Icmpv4Header::from_slice(&buf).unwrap();
    assert_eq!(h2, h);
    assert!(rest.is_empty());
}

#[test]
fn icmpv6_packet_too_big_roundtrip() {
    let src = [1u8; 16];
    let dst = [2u8; 16];
    let h = Icmpv6Header::with_checksum(
        Icmpv6Type::PacketTooBig { mtu: 1280 },
        src,
        dst,
        &[5, 6],
    )
    .unwrap();
    let mut buf = Vec::new();
    h.write(&mut buf);
    assert_eq!(buf.len(), 8);
    let (h2, rest) = Icmpv6Header::from_slice(&buf).unwrap();
    assert_eq!(h2, h);
    assert!(rest.is_empty());
    // the checksum verifies over the pseudo-header, header and payload
    let pseudo = build_pseudo_header_v6(&src, &dst, ip_number::IPV6_ICMP, 8 + 2);
    let s = sum16_slice(&pseudo, 0);
    let s = sum16_slice(&buf, s);
    let s = sum16_slice(&[5, 6], s);
    assert_eq!(s, 0xFFFF);
}

#[test]
fn icmpv6_echo_roundtrip() {
    let h = Icmpv6Header::with_checksum(
        Icmpv6Type::EchoRequest(IcmpEchoHeader { id: 11, seq: 13 }),
        [0; 16],
        [0; 16],
        &[],
    )
    .unwrap();
    let mut buf = Vec::new();
    h.write(&mut buf);
    let (h2, rest) = Icmpv6Header::from_slice(&buf).unwrap();
    assert_eq!(h2, h);
    assert!(rest.is_empty());
}
