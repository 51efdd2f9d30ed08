//! Building packets layer by layer and decoding them again.

use netheaders::builder::PacketBuilder;
use netheaders::ether_type;
use netheaders::ip::{IpHeader, Ipv4Extensions};
use netheaders::ip6ext::Ipv6Extensions;
use netheaders::ip_auth::IpAuthenticationHeader;
use netheaders::ip_number;
use netheaders::ipv4::Ipv4Header;
use netheaders::ipv6::Ipv6Header;
use netheaders::link::{DoubleVlanHeader, Ethernet2Header, SingleVlanHeader, VlanHeader};
use netheaders::packet::PacketHeaders;
use netheaders::tcp_options::{TcpOptionElement, TcpOptionReadError};
use netheaders::udp::UdpHeader;

#[test]
fn eth_ipv4_udp() {
    //generate
    let in_payload = [24, 25, 26, 27];
    let mut serialized = Vec::new();
    PacketBuilder::ethernet2([1, 2, 3, 4, 5, 6], [7, 8, 9, 10, 11, 12])
        .ipv4([13, 14, 15, 16], [17, 18, 19, 20], 21)
        .udp(22, 23)
        .write(&mut serialized, &in_payload)
        .unwrap();

    //check the deserialized size
    let expected_ip_size: usize = UdpHeader::SERIALIZED_SIZE + in_payload.len();
    assert_eq!(
        expected_ip_size + Ethernet2Header::SERIALIZED_SIZE + Ipv4Header::SERIALIZED_SIZE,
        serialized.len()
    );

    //deserialize each part of the message and check it
    let (eth_actual, rest) = Ethernet2Header::from_slice(&serialized[..]).unwrap();
    assert_eq!(
        eth_actual,
        Ethernet2Header {
            source: [1, 2, 3, 4, 5, 6],
            destination: [7, 8, 9, 10, 11, 12],
            ether_type: ether_type::IPV4
        }
    );

    //ip header
    let (ip_actual, rest) = Ipv4Header::from_slice(rest).unwrap();
    let mut ip_expected = Ipv4Header::new(
        expected_ip_size as u16,
        21, //ttl
        ip_number::UDP,
        [13, 14, 15, 16],
        [17, 18, 19, 20],
    );
    ip_expected.header_checksum = ip_expected.calc_header_checksum().unwrap();
    assert_eq!(ip_actual, ip_expected);

    //udp header
    let (udp_actual, rest) = UdpHeader::from_slice(rest).unwrap();
    let udp_expected = UdpHeader::with_ipv4_checksum(22, 23, &ip_expected, &in_payload).unwrap();
    assert_eq!(udp_actual, udp_expected);

    //payload
    assert_eq!(rest, &in_payload[..]);
}

#[test]
fn ipv4() {
    let auth_ext = IpAuthenticationHeader::new(0, 1, 2, &[3, 4, 5, 6]).unwrap();

    //generate
    let in_payload = [22, 23, 24, 25];
    let mut serialized = Vec::new();
    let builder = PacketBuilder::ip(IpHeader::Version4(
        Ipv4Header::new(
            in_payload.len() as u16,
            21,
            0,
            [13, 14, 15, 16],
            [17, 18, 19, 20],
        ),
        Ipv4Extensions {
            auth: Some(auth_ext.clone()),
        },
    ));

    // check size
    assert_eq!(
        builder.size(in_payload.len()),
        Ipv4Header::SERIALIZED_SIZE + auth_ext.header_len() + in_payload.len()
    );

    // write
    serialized.reserve(builder.size(in_payload.len()));
    builder.write(&mut serialized, 200, &in_payload).unwrap();

    //check the deserialized size
    assert_eq!(
        Ipv4Header::SERIALIZED_SIZE + auth_ext.header_len() + in_payload.len(),
        serialized.len()
    );

    //ip header
    let (ip_actual, rest) = Ipv4Header::from_slice(&serialized[..]).unwrap();
    let mut ip_expected = Ipv4Header::new(
        (auth_ext.header_len() + in_payload.len()) as u16,
        21, //ttl
        ip_number::AUTH, // should have been set
        [13, 14, 15, 16],
        [17, 18, 19, 20],
    );
    ip_expected.header_checksum = ip_expected.calc_header_checksum().unwrap();
    assert_eq!(ip_actual, ip_expected);

    // auth header
    let (auth_actual, rest) = IpAuthenticationHeader::from_slice(rest).unwrap();
    assert_eq!(
        auth_actual,
        IpAuthenticationHeader::new(
            200, // ip number should have been set
            1,
            2,
            &[3, 4, 5, 6]
        )
        .unwrap()
    );

    //payload
    assert_eq!(rest, &in_payload[..]);
}

#[test]
fn ipv6() {
    let auth_ext = IpAuthenticationHeader::new(0, 1, 2, &[3, 4, 5, 6]).unwrap();

    //generate
    let in_payload = [48, 49, 50, 51];
    let mut serialized = Vec::new();
    let builder = PacketBuilder::ip(IpHeader::Version6(
        Ipv6Header {
            traffic_class: 0,
            flow_label: 0,
            payload_length: in_payload.len() as u16,
            next_header: 0,
            hop_limit: 47,
            source: [11, 12, 13, 14, 15, 16, 17, 18, 19, 10, 21, 22, 23, 24, 25, 26],
            destination: [31, 32, 33, 34, 35, 36, 37, 38, 39, 40, 41, 42, 43, 44, 45, 46],
        },
        Ipv6Extensions {
            hop_by_hop_options: None,
            destination_options: None,
            routing: None,
            fragment: None,
            auth: Some(auth_ext.clone()),
        },
    ));

    // check size
    assert_eq!(
        builder.size(in_payload.len()),
        Ipv6Header::SERIALIZED_SIZE + auth_ext.header_len() + in_payload.len()
    );

    // write
    builder.write(&mut serialized, 200, &in_payload).unwrap();

    //check the deserialized size
    assert_eq!(
        Ipv6Header::SERIALIZED_SIZE + auth_ext.header_len() + in_payload.len(),
        serialized.len()
    );

    //ip header
    let (ip_actual, rest) = Ipv6Header::from_slice(&serialized[..]).unwrap();
    let ip_expected = Ipv6Header {
        traffic_class: 0,
        flow_label: 0,
        payload_length: (auth_ext.header_len() + in_payload.len()) as u16,
        next_header: ip_number::AUTH, // should have been set
        hop_limit: 47,
        source: [11, 12, 13, 14, 15, 16, 17, 18, 19, 10, 21, 22, 23, 24, 25, 26],
        destination: [31, 32, 33, 34, 35, 36, 37, 38, 39, 40, 41, 42, 43, 44, 45, 46],
    };

    assert_eq!(ip_actual, ip_expected);

    // auth header
    let (auth_actual, rest) = IpAuthenticationHeader::from_slice(rest).unwrap();
    assert_eq!(
        auth_actual,
        IpAuthenticationHeader::new(
            200, // ip number should have been set
            1,
            2,
            &[3, 4, 5, 6]
        )
        .unwrap()
    );

    //payload
    assert_eq!(rest, &in_payload[..]);
}

#[test]
fn ipv4_udp() {
    //generate
    let in_payload = [24, 25, 26, 27];
    let mut serialized = Vec::new();
    PacketBuilder::ipv4([13, 14, 15, 16], [17, 18, 19, 20], 21)
        .udp(22, 23)
        .write(&mut serialized, &in_payload)
        .unwrap();

    //check the deserialized size
    let expected_ip_size: usize = UdpHeader::SERIALIZED_SIZE + in_payload.len();
    assert_eq!(
        expected_ip_size + Ipv4Header::SERIALIZED_SIZE,
        serialized.len()
    );

    //ip header
    let (ip_actual, rest) = Ipv4Header::from_slice(&serialized[..]).unwrap();
    let mut ip_expected = Ipv4Header::new(
        expected_ip_size as u16,
        21, //ttl
        ip_number::UDP,
        [13, 14, 15, 16],
        [17, 18, 19, 20],
    );
    ip_expected.header_checksum = ip_expected.calc_header_checksum().unwrap();
    assert_eq!(ip_actual, ip_expected);

    //udp header
    let (udp_actual, rest) = UdpHeader::from_slice(rest).unwrap();
    let udp_expected = UdpHeader::with_ipv4_checksum(22, 23, &ip_expected, &in_payload).unwrap();
    assert_eq!(udp_actual, udp_expected);

    //payload
    assert_eq!(rest, &in_payload[..]);
}

#[test]
fn ipv6_udp() {
    //generate
    let in_payload = [24, 25, 26, 27];
    let mut serialized = Vec::new();
    PacketBuilder::ipv6(
        //source
        [11, 12, 13, 14, 15, 16, 17, 18, 19, 10, 21, 22, 23, 24, 25, 26],
        //destination
        [31, 32, 33, 34, 35, 36, 37, 38, 39, 40, 41, 42, 43, 44, 45, 46],
        //hop_limit
        47,
    )
    .udp(22, 23)
    .write(&mut serialized, &in_payload)
    .unwrap();

    //check the deserialized size
    let expected_ip_size: usize = UdpHeader::SERIALIZED_SIZE + in_payload.len();
    assert_eq!(
        expected_ip_size + Ipv6Header::SERIALIZED_SIZE,
        serialized.len()
    );

    //ip header
    let (ip_actual, rest) = Ipv6Header::from_slice(&serialized[..]).unwrap();
    let ip_expected = Ipv6Header {
        traffic_class: 0,
        flow_label: 0,
        payload_length: (UdpHeader::SERIALIZED_SIZE + in_payload.len()) as u16,
        next_header: ip_number::UDP,
        hop_limit: 47,
        source: [11, 12, 13, 14, 15, 16, 17, 18, 19, 10, 21, 22, 23, 24, 25, 26],
        destination: [31, 32, 33, 34, 35, 36, 37, 38, 39, 40, 41, 42, 43, 44, 45, 46],
    };

    assert_eq!(ip_actual, ip_expected);

    //udp header
    let (udp_actual, rest) = UdpHeader::from_slice(rest).unwrap();
    let udp_expected = UdpHeader::with_ipv6_checksum(22, 23, &ip_expected, &in_payload).unwrap();
    assert_eq!(udp_actual, udp_expected);

    //payload
    assert_eq!(rest, &in_payload[..]);
}

#[test]
fn ipv4_custom_udp() {
    //generate
    let in_payload = [24, 25, 26, 27];
    let mut serialized = Vec::new();
    PacketBuilder::ip(IpHeader::Version4(
        Ipv4Header::new(
            0,              //payload_len will be replaced during write
            12,             //time_to_live
            ip_number::TCP, //will be replaced during write
            [13, 14, 15, 16], //source
            [17, 18, 19, 20], //destination
        ),
        Default::default(),
    ))
    .udp(22, 23)
    .write(&mut serialized, &in_payload)
    .unwrap();

    //check the deserialized size
    let expected_ip_size: usize = UdpHeader::SERIALIZED_SIZE + in_payload.len();
    assert_eq!(
        expected_ip_size + Ipv4Header::SERIALIZED_SIZE,
        serialized.len()
    );

    //ip header
    let (ip_actual, rest) = Ipv4Header::from_slice(&serialized[..]).unwrap();
    let mut ip_expected = Ipv4Header::new(
        expected_ip_size as u16,
        12, //ttl
        ip_number::UDP,
        [13, 14, 15, 16],
        [17, 18, 19, 20],
    );
    ip_expected.header_checksum = ip_expected.calc_header_checksum().unwrap();
    assert_eq!(ip_actual, ip_expected);

    //udp header
    let (udp_actual, rest) = UdpHeader::from_slice(rest).unwrap();
    let udp_expected = UdpHeader::with_ipv4_checksum(22, 23, &ip_expected, &in_payload).unwrap();
    assert_eq!(udp_actual, udp_expected);

    //payload
    assert_eq!(rest, &in_payload[..]);
}

#[test]
fn udp_builder_eth_ipv6_udp() {
    //generate
    let in_payload = [50, 51, 52, 53];
    let mut serialized = Vec::new();
    PacketBuilder::ethernet2([1, 2, 3, 4, 5, 6], [7, 8, 9, 10, 11, 12])
        .ipv6(
            [11, 12, 13, 14, 15, 16, 17, 18, 19, 10, 21, 22, 23, 24, 25, 26],
            [31, 32, 33, 34, 35, 36, 37, 38, 39, 40, 41, 42, 43, 44, 45, 46],
            47,
        )
        .udp(48, 49)
        .write(&mut serialized, &in_payload)
        .unwrap();

    //check the deserialized size
    assert_eq!(
        Ethernet2Header::SERIALIZED_SIZE
            + Ipv6Header::SERIALIZED_SIZE
            + UdpHeader::SERIALIZED_SIZE
            + in_payload.len(),
        serialized.len()
    );

    //ethernet 2 header
    let (eth_actual, rest) = Ethernet2Header::from_slice(&serialized[..]).unwrap();
    assert_eq!(
        eth_actual,
        Ethernet2Header {
            source: [1, 2, 3, 4, 5, 6],
            destination: [7, 8, 9, 10, 11, 12],
            ether_type: ether_type::IPV6
        }
    );

    //ip header
    let (ip_actual, rest) = Ipv6Header::from_slice(rest).unwrap();
    let ip_expected = Ipv6Header {
        traffic_class: 0,
        flow_label: 0,
        payload_length: (UdpHeader::SERIALIZED_SIZE + in_payload.len()) as u16,
        next_header: ip_number::UDP,
        hop_limit: 47,
        source: [11, 12, 13, 14, 15, 16, 17, 18, 19, 10, 21, 22, 23, 24, 25, 26],
        destination: [31, 32, 33, 34, 35, 36, 37, 38, 39, 40, 41, 42, 43, 44, 45, 46],
    };
    assert_eq!(ip_actual, ip_expected);

    //udp header
    let (udp_actual, rest) = UdpHeader::from_slice(rest).unwrap();
    let udp_expected = UdpHeader::with_ipv6_checksum(48, 49, &ip_expected, &in_payload).unwrap();
    assert_eq!(udp_actual, udp_expected);

    //payload
    assert_eq!(rest, &in_payload[..]);
}

#[test]
fn udp_builder_eth_single_vlan_ipv4_udp() {
    //generate
    let in_payload = [50, 51, 52, 53];
    let mut serialized = Vec::new();
    PacketBuilder::ethernet2([1, 2, 3, 4, 5, 6], [7, 8, 9, 10, 11, 12])
        .single_vlan(0x123)
        .ipv4([13, 14, 15, 16], [17, 18, 19, 20], 21)
        .udp(48, 49)
        .write(&mut serialized, &in_payload)
        .unwrap();

    //check the deserialized size
    let expected_ip_size: usize = UdpHeader::SERIALIZED_SIZE + in_payload.len();
    assert_eq!(
        expected_ip_size
            + Ethernet2Header::SERIALIZED_SIZE
            + Ipv4Header::SERIALIZED_SIZE
            + SingleVlanHeader::SERIALIZED_SIZE,
        serialized.len()
    );

    //ethernet 2 header
    let (eth_actual, rest) = Ethernet2Header::from_slice(&serialized[..]).unwrap();
    assert_eq!(
        eth_actual,
        Ethernet2Header {
            source: [1, 2, 3, 4, 5, 6],
            destination: [7, 8, 9, 10, 11, 12],
            ether_type: ether_type::VLAN_TAGGED_FRAME
        }
    );

    //vlan header
    let (vlan_actual, rest) = SingleVlanHeader::from_slice(rest).unwrap();
    assert_eq!(
        vlan_actual,
        SingleVlanHeader {
            priority_code_point: 0,
            drop_eligible_indicator: false,
            vlan_identifier: 0x123,
            ether_type: ether_type::IPV4
        }
    );

    //ip header
    let (ip_actual, rest) = Ipv4Header::from_slice(rest).unwrap();
    let mut ip_expected = Ipv4Header::new(
        expected_ip_size as u16, //payload_len
        21,                      //ttl
        ip_number::UDP,
        [13, 14, 15, 16],
        [17, 18, 19, 20],
    );
    ip_expected.header_checksum = ip_expected.calc_header_checksum().unwrap();
    assert_eq!(ip_actual, ip_expected);

    //udp header
    let (udp_actual, rest) = UdpHeader::from_slice(rest).unwrap();
    let udp_expected = UdpHeader::with_ipv4_checksum(48, 49, &ip_expected, &in_payload).unwrap();
    assert_eq!(udp_actual, udp_expected);

    //payload
    assert_eq!(rest, &in_payload[..]);
}

#[test]
fn udp_builder_eth_double_vlan_ipv6_udp() {
    //generate
    let in_payload = [50, 51, 52, 53];
    let mut serialized = Vec::new();
    PacketBuilder::ethernet2([1, 2, 3, 4, 5, 6], [7, 8, 9, 10, 11, 12])
        .double_vlan(0x123, 0x234)
        .ipv6(
            [11, 12, 13, 14, 15, 16, 17, 18, 19, 10, 21, 22, 23, 24, 25, 26],
            [31, 32, 33, 34, 35, 36, 37, 38, 39, 40, 41, 42, 43, 44, 45, 46],
            47,
        )
        .udp(48, 49)
        .write(&mut serialized, &in_payload)
        .unwrap();

    //check the deserialized size
    assert_eq!(
        Ethernet2Header::SERIALIZED_SIZE
            + DoubleVlanHeader::SERIALIZED_SIZE
            + Ipv6Header::SERIALIZED_SIZE
            + UdpHeader::SERIALIZED_SIZE
            + in_payload.len(),
        serialized.len()
    );

    //ethernet 2 header
    let (eth_actual, rest) = Ethernet2Header::from_slice(&serialized[..]).unwrap();
    assert_eq!(
        eth_actual,
        Ethernet2Header {
            source: [1, 2, 3, 4, 5, 6],
            destination: [7, 8, 9, 10, 11, 12],
            ether_type: ether_type::PROVIDER_BRIDGING
        }
    );

    //outer vlan header
    let (outer_actual, rest) = SingleVlanHeader::from_slice(rest).unwrap();
    assert_eq!(
        outer_actual,
        SingleVlanHeader {
            priority_code_point: 0,
            drop_eligible_indicator: false,
            vlan_identifier: 0x123,
            ether_type: ether_type::VLAN_TAGGED_FRAME
        }
    );

    //inner vlan header
    let (inner_actual, rest) = SingleVlanHeader::from_slice(rest).unwrap();
    assert_eq!(
        inner_actual,
        SingleVlanHeader {
            priority_code_point: 0,
            drop_eligible_indicator: false,
            vlan_identifier: 0x234,
            ether_type: ether_type::IPV6
        }
    );

    //ip header
    let (ip_actual, rest) = Ipv6Header::from_slice(rest).unwrap();
    let ip_expected = Ipv6Header {
        traffic_class: 0,
        flow_label: 0,
        payload_length: (UdpHeader::SERIALIZED_SIZE + in_payload.len()) as u16,
        next_header: ip_number::UDP,
        hop_limit: 47,
        source: [11, 12, 13, 14, 15, 16, 17, 18, 19, 10, 21, 22, 23, 24, 25, 26],
        destination: [31, 32, 33, 34, 35, 36, 37, 38, 39, 40, 41, 42, 43, 44, 45, 46],
    };
    assert_eq!(ip_actual, ip_expected);

    //udp header
    let (udp_actual, rest) = UdpHeader::from_slice(rest).unwrap();
    let udp_expected = UdpHeader::with_ipv6_checksum(48, 49, &ip_expected, &in_payload).unwrap();
    assert_eq!(udp_actual, udp_expected);

    //payload
    assert_eq!(rest, &in_payload[..]);
}

#[test]
fn udp_builder_eth_ip_udp() {
    //generate
    let in_payload = [50, 51, 52, 53];
    let mut serialized = Vec::new();
    PacketBuilder::ethernet2([1, 2, 3, 4, 5, 6], [7, 8, 9, 10, 11, 12])
        .ip(IpHeader::Version6(
            Ipv6Header {
                traffic_class: 1,
                flow_label: 2,
                payload_length: (UdpHeader::SERIALIZED_SIZE + in_payload.len()) as u16,
                next_header: ip_number::UDP,
                hop_limit: 47,
                source: [11, 12, 13, 14, 15, 16, 17, 18, 19, 10, 21, 22, 23, 24, 25, 26],
                destination: [31, 32, 33, 34, 35, 36, 37, 38, 39, 40, 41, 42, 43, 44, 45, 46],
            },
            Default::default(),
        ))
        .udp(48, 49)
        .write(&mut serialized, &in_payload)
        .unwrap();

    //check the deserialized size
    assert_eq!(
        Ethernet2Header::SERIALIZED_SIZE
            + Ipv6Header::SERIALIZED_SIZE
            + UdpHeader::SERIALIZED_SIZE
            + in_payload.len(),
        serialized.len()
    );

    //ethernet 2 header
    let (eth_actual, rest) = Ethernet2Header::from_slice(&serialized[..]).unwrap();
    assert_eq!(
        eth_actual,
        Ethernet2Header {
            source: [1, 2, 3, 4, 5, 6],
            destination: [7, 8, 9, 10, 11, 12],
            ether_type: ether_type::IPV6
        }
    );

    //ip header
    let (ip_actual, rest) = Ipv6Header::from_slice(rest).unwrap();
    let ip_expected = Ipv6Header {
        traffic_class: 1,
        flow_label: 2,
        payload_length: (UdpHeader::SERIALIZED_SIZE + in_payload.len()) as u16,
        next_header: ip_number::UDP,
        hop_limit: 47,
        source: [11, 12, 13, 14, 15, 16, 17, 18, 19, 10, 21, 22, 23, 24, 25, 26],
        destination: [31, 32, 33, 34, 35, 36, 37, 38, 39, 40, 41, 42, 43, 44, 45, 46],
    };
    assert_eq!(ip_actual, ip_expected);

    //udp header
    let (udp_actual, rest) = UdpHeader::from_slice(rest).unwrap();
    let udp_expected = UdpHeader::with_ipv6_checksum(48, 49, &ip_expected, &in_payload).unwrap();
    assert_eq!(udp_actual, udp_expected);

    //payload
    assert_eq!(rest, &in_payload[..]);
}

#[test]
fn udp_builder_eth_vlan_ip_udp() {
    //generate
    let in_payload = [50, 51, 52, 53];
    let mut serialized = Vec::new();
    PacketBuilder::ethernet2([1, 2, 3, 4, 5, 6], [7, 8, 9, 10, 11, 12])
        .vlan(VlanHeader::Single(SingleVlanHeader {
            priority_code_point: 1,
            drop_eligible_indicator: true,
            vlan_identifier: 0x123,
            ether_type: 0, //should be overwritten
        }))
        .ip(IpHeader::Version6(
            Ipv6Header {
                traffic_class: 1,
                flow_label: 2,
                payload_length: (UdpHeader::SERIALIZED_SIZE + in_payload.len()) as u16,
                next_header: ip_number::UDP,
                hop_limit: 47,
                source: [11, 12, 13, 14, 15, 16, 17, 18, 19, 10, 21, 22, 23, 24, 25, 26],
                destination: [31, 32, 33, 34, 35, 36, 37, 38, 39, 40, 41, 42, 43, 44, 45, 46],
            },
            Default::default(),
        ))
        .udp(48, 49)
        .write(&mut serialized, &in_payload)
        .unwrap();

    //check the deserialized size
    assert_eq!(
        Ethernet2Header::SERIALIZED_SIZE
            + SingleVlanHeader::SERIALIZED_SIZE
            + Ipv6Header::SERIALIZED_SIZE
            + UdpHeader::SERIALIZED_SIZE
            + in_payload.len(),
        serialized.len()
    );

    //ethernet 2 header
    let (eth_actual, rest) = Ethernet2Header::from_slice(&serialized[..]).unwrap();
    assert_eq!(
        eth_actual,
        Ethernet2Header {
            source: [1, 2, 3, 4, 5, 6],
            destination: [7, 8, 9, 10, 11, 12],
            ether_type: ether_type::VLAN_TAGGED_FRAME
        }
    );

    //outer vlan header
    let (vlan_actual, rest) = SingleVlanHeader::from_slice(rest).unwrap();
    assert_eq!(
        vlan_actual,
        SingleVlanHeader {
            priority_code_point: 1,
            drop_eligible_indicator: true,
            vlan_identifier: 0x123,
            ether_type: ether_type::IPV6
        }
    );

    //ip header
    let (ip_actual, rest) = Ipv6Header::from_slice(rest).unwrap();
    let ip_expected = Ipv6Header {
        traffic_class: 1,
        flow_label: 2,
        payload_length: (UdpHeader::SERIALIZED_SIZE + in_payload.len()) as u16,
        next_header: ip_number::UDP,
        hop_limit: 47,
        source: [11, 12, 13, 14, 15, 16, 17, 18, 19, 10, 21, 22, 23, 24, 25, 26],
        destination: [31, 32, 33, 34, 35, 36, 37, 38, 39, 40, 41, 42, 43, 44, 45, 46],
    };
    assert_eq!(ip_actual, ip_expected);

    //udp header
    let (udp_actual, rest) = UdpHeader::from_slice(rest).unwrap();
    let udp_expected = UdpHeader::with_ipv6_checksum(48, 49, &ip_expected, &in_payload).unwrap();
    assert_eq!(udp_actual, udp_expected);

    //payload
    assert_eq!(rest, &in_payload[..]);
}

#[test]
fn tcp_options() {
    let mut serialized = Vec::new();

    let options = vec![
        TcpOptionElement::MaximumSegmentSize(1234),
        TcpOptionElement::Noop,
    ];

    PacketBuilder::ethernet2([1, 2, 3, 4, 5, 6], [7, 8, 9, 10, 11, 12])
        .ipv4([13, 14, 15, 16], [17, 18, 19, 20], 21)
        .tcp(1, 2, 3, 4)
        .options(&options)
        .unwrap()
        .write(&mut serialized, &[])
        .unwrap();

    let decoded = PacketHeaders::from_ethernet_slice(&serialized[..]).unwrap();
    let dec_options: Vec<Result<TcpOptionElement, TcpOptionReadError>> =
        decoded.transport.unwrap().tcp().unwrap().options_elements();
    assert_eq!(
        &[
            Ok(TcpOptionElement::MaximumSegmentSize(1234)),
            Ok(TcpOptionElement::Noop)
        ],
        &dec_options[..]
    );
}

#[test]
fn size() {
    //ipv4 no vlan
    assert_eq!(
        Ethernet2Header::SERIALIZED_SIZE
            + Ipv4Header::SERIALIZED_SIZE
            + UdpHeader::SERIALIZED_SIZE
            + 123,
        PacketBuilder::ethernet2([1, 2, 3, 4, 5, 6], [7, 8, 9, 10, 11, 12])
            .ipv4([13, 14, 15, 16], [17, 18, 19, 20], 21)
            .udp(22, 23)
            .size(123)
    );

    //ipv6 no vlan
    assert_eq!(
        Ethernet2Header::SERIALIZED_SIZE
            + Ipv6Header::SERIALIZED_SIZE
            + UdpHeader::SERIALIZED_SIZE
            + 123,
        PacketBuilder::ethernet2([1, 2, 3, 4, 5, 6], [7, 8, 9, 10, 11, 12])
            .ipv6(
                [11, 12, 13, 14, 15, 16, 17, 18, 19, 10, 21, 22, 23, 24, 25, 26],
                [31, 32, 33, 34, 35, 36, 37, 38, 39, 40, 41, 42, 43, 44, 45, 46],
                47,
            )
            .udp(22, 23)
            .size(123)
    );

    //ipv4 single vlan
    assert_eq!(
        Ethernet2Header::SERIALIZED_SIZE
            + SingleVlanHeader::SERIALIZED_SIZE
            + Ipv4Header::SERIALIZED_SIZE
            + UdpHeader::SERIALIZED_SIZE
            + 123,
        PacketBuilder::ethernet2([1, 2, 3, 4, 5, 6], [7, 8, 9, 10, 11, 12])
            .single_vlan(0x123)
            .ipv4([13, 14, 15, 16], [17, 18, 19, 20], 21)
            .udp(22, 23)
            .size(123)
    );

    //ipv6 double vlan
    assert_eq!(
        Ethernet2Header::SERIALIZED_SIZE
            + DoubleVlanHeader::SERIALIZED_SIZE
            + Ipv6Header::SERIALIZED_SIZE
            + UdpHeader::SERIALIZED_SIZE
            + 123,
        PacketBuilder::ethernet2([1, 2, 3, 4, 5, 6], [7, 8, 9, 10, 11, 12])
            .double_vlan(0x123, 0x234)
            .ipv6(
                [11, 12, 13, 14, 15, 16, 17, 18, 19, 10, 21, 22, 23, 24, 25, 26],
                [31, 32, 33, 34, 35, 36, 37, 38, 39, 40, 41, 42, 43, 44, 45, 46],
                47,
            )
            .udp(22, 23)
            .size(123)
    );
}
