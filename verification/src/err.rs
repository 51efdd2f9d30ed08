//! Error types: decoding errors, value errors raised while encoding,
//! and the error type returned by the writers.

use vstd::prelude::*;

verus! {

/// Errors that can occur while decoding headers from a byte buffer.
#[derive(Clone, Copy, Debug, PartialEq, Eq)]
pub enum ReadError {
    /// The buffer ended before the header was complete. Carries the
    /// minimum number of bytes the current header would have needed.
    UnexpectedEndOfSlice(usize),
    /// The IP version field held neither 4 nor 6.
    IpUnsupportedVersion(u8),
    /// An IPv4 header was expected but the version field was not 4.
    Ipv4UnexpectedVersion(u8),
    /// The IPv4 internet header length was below the minimum of 5.
    Ipv4HeaderLengthBad(u8),
    /// The IPv4 total length field was smaller than the header itself.
    Ipv4TotalLengthTooSmall(u16),
    /// An IPv6 header was expected but the version field was not 6.
    Ipv6UnexpectedVersion(u8),
    /// A hop-by-hop extension header stood somewhere other than
    /// directly after the IPv6 base header.
    Ipv6HopByHopNotAtStart,
    /// The same IPv6 extension header type occurred twice.
    Ipv6TooManyHeaderExtensions,
    /// The TCP data offset was below the minimum of 5.
    TcpDataOffsetTooSmall(u8),
    /// The length field of an IP authentication header was below the
    /// minimum of 1 (payload length in 4 byte units minus one).
    IpAuthenticationHeaderTooSmall(u8),
}

/// Errors raised when a value handed to an encoder cannot be
/// represented on the wire.
#[derive(Clone, Copy, Debug, PartialEq, Eq)]
pub enum ValueError {
    /// IPv4 options were longer than 40 bytes or not a multiple of 4.
    Ipv4OptionsLengthBad(usize),
    /// The payload does not fit the IPv4 total length field.
    Ipv4PayloadLengthTooLarge(usize),
    /// The payload does not fit the IPv6 payload length field.
    Ipv6PayloadLengthTooLarge(usize),
    /// The payload does not fit the UDP length field.
    UdpPayloadLengthTooLarge(usize),
    /// TCP options were longer than 40 bytes or not a multiple of 4.
    TcpOptionsLengthBad(usize),
    /// An ICMPv6 transport header was combined with an IPv4 header:
    /// the ICMPv6 checksum needs IPv6 addresses.
    Icmpv6InIpv4,
    /// An ICMPv4 transport header was combined with an IPv6 header.
    Icmpv4InIpv6,
    /// The integrity check value of an authentication header was too
    /// big for the 8 bit length field.
    IpAuthenticationHeaderIcvTooBig(usize),
}

/// Errors returned by the writers; wraps the value errors.
#[derive(Clone, Copy, Debug, PartialEq, Eq)]
pub enum WriteError {
    ValueError(ValueError),
}

impl WriteError {
    /// The value error inside, if this write error wraps one.
    pub fn value_error(self) -> (r: Option<ValueError>)
        ensures
            match self {
                WriteError::ValueError(v) => r == Some(v),
            },
    {
        match self {
            WriteError::ValueError(v) => Some(v),
        }
    }
}

} // verus!
