//! Shared ICMP pieces: the echo header used by ICMPv4 and ICMPv6
//! echo requests and replies.

use vstd::prelude::*;

use crate::bytes::be16_seq;

verus! {

/// Identifier and sequence number of an echo request or reply; they
/// occupy the four type-specific bytes of the ICMP base header.
#[derive(Clone, Copy, Debug, PartialEq, Eq)]
pub struct IcmpEchoHeader {
    pub id: u16,
    pub seq: u16,
}

impl IcmpEchoHeader {
    /// The four type-specific bytes: identifier then sequence number.
    pub open spec fn spec_bytes(self) -> Seq<u8> {
        be16_seq(self.id) + be16_seq(self.seq)
    }
}

} // verus!
