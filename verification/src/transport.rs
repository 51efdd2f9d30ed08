//! The transport layer as one value: ICMPv4, ICMPv6, UDP or TCP.

use vstd::prelude::*;

use crate::err::{ValueError, WriteError};
use crate::icmpv4::Icmpv4Header;
use crate::icmpv6::Icmpv6Header;
use crate::ipv4::Ipv4Header;
use crate::ipv6::Ipv6Header;
use crate::tcp::TcpHeader;
use crate::udp::UdpHeader;

verus! {

/// The possible headers on the transport layer.
#[derive(Clone, Copy, Debug, Eq, PartialEq)]
pub enum TransportHeader {
    Icmpv4(Icmpv4Header),
    Icmpv6(Icmpv6Header),
    Udp(UdpHeader),
    Tcp(TcpHeader),
}

impl TransportHeader {
    /// The header inside well formed.
    pub open spec fn wf(self) -> bool {
        match self {
            TransportHeader::Icmpv4(h) => h.wf(),
            TransportHeader::Icmpv6(h) => h.wf(),
            TransportHeader::Udp(_) => true,
            TransportHeader::Tcp(h) => h.wf(),
        }
    }

    /// Wire encoding of the header inside.
    pub open spec fn spec_bytes(self) -> Seq<u8> {
        match self {
            TransportHeader::Icmpv4(h) => h.spec_bytes(),
            TransportHeader::Icmpv6(h) => h.spec_bytes(),
            TransportHeader::Udp(h) => h.spec_bytes(),
            TransportHeader::Tcp(h) => h.spec_bytes(),
        }
    }

    /// Number of bytes the header inside takes on the wire.
    pub open spec fn spec_header_len(self) -> int {
        match self {
            TransportHeader::Icmpv4(h) => h.icmp_type.spec_header_len(),
            TransportHeader::Icmpv6(_) => 8,
            TransportHeader::Udp(_) => 8,
            TransportHeader::Tcp(h) => h.spec_header_len(),
        }
    }

    /// The ICMPv4 header, when this is one.
    pub fn icmp4(self) -> (r: Option<Icmpv4Header>)
        ensures
            match self {
                TransportHeader::Icmpv4(v) => r == Some(v),
                _ => r is None,
            },
    {
        if let TransportHeader::Icmpv4(value) = self {
            Some(value)
        } else {
            None
        }
    }

    /// The ICMPv6 header, when this is one.
    pub fn icmp6(self) -> (r: Option<Icmpv6Header>)
        ensures
            match self {
                TransportHeader::Icmpv6(v) => r == Some(v),
                _ => r is None,
            },
    {
        if let TransportHeader::Icmpv6(value) = self {
            Some(value)
        } else {
            None
        }
    }

    /// The UDP header, when this is one.
    pub fn udp(self) -> (r: Option<UdpHeader>)
        ensures
            match self {
                TransportHeader::Udp(v) => r == Some(v),
                _ => r is None,
            },
    {
        if let TransportHeader::Udp(value) = self {
            Some(value)
        } else {
            None
        }
    }

    /// A mutable borrow of the UDP header, when this is one.
    pub fn mut_udp(&mut self) -> (r: Option<&mut UdpHeader>)
        ensures
            match *old(self) {
                TransportHeader::Udp(u) => match r {
                    Some(m) => *m == u && *final(self) == TransportHeader::Udp(*final(m)),
                    None => false,
                },
                _ => r is None && *final(self) == *old(self),
            },
    {
        if let TransportHeader::Udp(value) = self {
            Some(value)
        } else {
            None
        }
    }

    /// The TCP header, when this is one.
    pub fn tcp(self) -> (r: Option<TcpHeader>)
        ensures
            match self {
                TransportHeader::Tcp(v) => r == Some(v),
                _ => r is None,
            },
    {
        if let TransportHeader::Tcp(value) = self {
            Some(value)
        } else {
            None
        }
    }

    /// A mutable borrow of the TCP header, when this is one.
    pub fn mut_tcp(&mut self) -> (r: Option<&mut TcpHeader>)
        ensures
            match *old(self) {
                TransportHeader::Tcp(t) => match r {
                    Some(m) => *m == t && *final(self) == TransportHeader::Tcp(*final(m)),
                    None => false,
                },
                _ => r is None && *final(self) == *old(self),
            },
    {
        if let TransportHeader::Tcp(value) = self {
            Some(value)
        } else {
            None
        }
    }

    /// Number of bytes this header takes on the wire: fixed for UDP
    /// and ICMPv6, type-dependent for ICMPv4, options included for
    /// TCP.
    pub fn header_len(&self) -> (r: usize)
        ensures
            r == self.spec_header_len(),
            self.wf() ==> r == self.spec_bytes().len(),
    {
        match self {
            TransportHeader::Icmpv4(value) => value.header_len(),
            TransportHeader::Icmpv6(value) => value.header_len(),
            TransportHeader::Udp(_) => 8,
            TransportHeader::Tcp(value) => value.header_len(),
        }
    }

    /// Compute the checksum under an IPv4 header and store it in the
    /// header. An ICMPv6 header cannot be checksummed here: its
    /// checksum needs IPv6 addresses.
    pub fn update_checksum_ipv4(&mut self, ip_header: &Ipv4Header, payload: &[u8]) -> (r: Result<
        (),
        ValueError,
    >)
        requires
            *old(self) matches TransportHeader::Tcp(t) ==> t.wf(),
        ensures
            match *old(self) {
                TransportHeader::Icmpv6(_) => r == Result::<(), ValueError>::Err(
                    ValueError::Icmpv6InIpv4,
                ) && *final(self) == *old(self),
                TransportHeader::Icmpv4(h) => r is Ok && *final(self) == TransportHeader::Icmpv4(
                    Icmpv4Header { checksum: h.spec_checksum(payload@), ..h },
                ),
                TransportHeader::Udp(u) => if payload@.len() + 8 <= 0xFFFF {
                    r is Ok && *final(self) == TransportHeader::Udp(
                        UdpHeader {
                            checksum: u.spec_checksum_v4(
                                ip_header.source@,
                                ip_header.destination@,
                                payload@,
                            ),
                            ..u
                        },
                    )
                } else {
                    r == Result::<(), ValueError>::Err(
                        ValueError::UdpPayloadLengthTooLarge(payload@.len() as usize),
                    ) && *final(self) == *old(self)
                },
                TransportHeader::Tcp(t) => if t.spec_header_len() + payload@.len() <= 0xFFFF {
                    r is Ok && *final(self) == TransportHeader::Tcp(
                        TcpHeader {
                            checksum: t.spec_checksum_v4(
                                ip_header.source@,
                                ip_header.destination@,
                                payload@,
                            ),
                            ..t
                        },
                    )
                } else {
                    r == Result::<(), ValueError>::Err(
                        ValueError::Ipv4PayloadLengthTooLarge(payload@.len() as usize),
                    ) && *final(self) == *old(self)
                },
            },
    {
        match self {
            TransportHeader::Icmpv4(header) => {
                let c = match header.calc_checksum_ipv4(payload) {
                    Ok(c) => c,
                    Err(e) => {
                        return Err(e);
                    },
                };
                header.checksum = c;
                Ok(())
            },
            TransportHeader::Icmpv6(_) => Err(ValueError::Icmpv6InIpv4),
            TransportHeader::Udp(header) => {
                let c = match header.calc_checksum_ipv4(ip_header, payload) {
                    Ok(c) => c,
                    Err(e) => {
                        return Err(e);
                    },
                };
                header.checksum = c;
                Ok(())
            },
            TransportHeader::Tcp(header) => {
                let c = match header.calc_checksum_ipv4(ip_header, payload) {
                    Ok(c) => c,
                    Err(e) => {
                        return Err(e);
                    },
                };
                header.checksum = c;
                Ok(())
            },
        }
    }

    /// Compute the checksum under an IPv6 header and store it in the
    /// header. An ICMPv4 header cannot be checksummed here: its
    /// checksum belongs under IPv4.
    pub fn update_checksum_ipv6(&mut self, ip_header: &Ipv6Header, payload: &[u8]) -> (r: Result<
        (),
        ValueError,
    >)
        requires
            *old(self) matches TransportHeader::Tcp(t) ==> t.wf(),
        ensures
            match *old(self) {
                TransportHeader::Icmpv4(_) => r == Result::<(), ValueError>::Err(
                    ValueError::Icmpv4InIpv6,
                ) && *final(self) == *old(self),
                TransportHeader::Icmpv6(h) => if payload@.len() + 8 <= u32::MAX {
                    r is Ok && *final(self) == TransportHeader::Icmpv6(
                        Icmpv6Header {
                            checksum: h.spec_checksum(
                                ip_header.source@,
                                ip_header.destination@,
                                payload@,
                            ),
                            ..h
                        },
                    )
                } else {
                    r == Result::<(), ValueError>::Err(
                        ValueError::Ipv6PayloadLengthTooLarge(payload@.len() as usize),
                    ) && *final(self) == *old(self)
                },
                TransportHeader::Udp(u) => if payload@.len() + 8 <= 0xFFFF {
                    r is Ok && *final(self) == TransportHeader::Udp(
                        UdpHeader {
                            checksum: u.spec_checksum_v6(
                                ip_header.source@,
                                ip_header.destination@,
                                payload@,
                            ),
                            ..u
                        },
                    )
                } else {
                    r == Result::<(), ValueError>::Err(
                        ValueError::UdpPayloadLengthTooLarge(payload@.len() as usize),
                    ) && *final(self) == *old(self)
                },
                TransportHeader::Tcp(t) => if t.spec_header_len() + payload@.len() <= u32::MAX {
                    r is Ok && *final(self) == TransportHeader::Tcp(
                        TcpHeader {
                            checksum: t.spec_checksum_v6(
                                ip_header.source@,
                                ip_header.destination@,
                                payload@,
                            ),
                            ..t
                        },
                    )
                } else {
                    r == Result::<(), ValueError>::Err(
                        ValueError::Ipv6PayloadLengthTooLarge(payload@.len() as usize),
                    ) && *final(self) == *old(self)
                },
            },
    {
        match self {
            TransportHeader::Icmpv4(_) => Err(ValueError::Icmpv4InIpv6),
            TransportHeader::Icmpv6(header) => {
                match header.update_checksum(ip_header, payload) {
                    Ok(()) => Ok(()),
                    Err(e) => Err(e),
                }
            },
            TransportHeader::Udp(header) => {
                let c = match header.calc_checksum_ipv6(ip_header, payload) {
                    Ok(c) => c,
                    Err(e) => {
                        return Err(e);
                    },
                };
                header.checksum = c;
                Ok(())
            },
            TransportHeader::Tcp(header) => {
                let c = match header.calc_checksum_ipv6(ip_header, payload) {
                    Ok(c) => c,
                    Err(e) => {
                        return Err(e);
                    },
                };
                header.checksum = c;
                Ok(())
            },
        }
    }

    /// Append the wire encoding to `buf`.
    pub fn write(&self, buf: &mut Vec<u8>) -> (r: Result<(), WriteError>)
        requires
            *self matches TransportHeader::Tcp(t) ==> t.wf(),
        ensures
            r is Ok,
            final(buf)@ == old(buf)@ + self.spec_bytes(),
    {
        match self {
            TransportHeader::Icmpv4(value) => {
                value.write(buf);
                Ok(())
            },
            TransportHeader::Icmpv6(value) => {
                value.write(buf);
                Ok(())
            },
            TransportHeader::Udp(value) => {
                value.write(buf);
                Ok(())
            },
            TransportHeader::Tcp(value) => {
                value.write(buf);
                Ok(())
            },
        }
    }
}

} // verus!
