//! IP protocol numbers: values of the IPv4 protocol field and of the
//! IPv6 next-header chain.

use vstd::prelude::*;

verus! {

/// IPv6 hop-by-hop options extension header.
pub const IPV6_HOP_BY_HOP: u8 = 0;
pub const ICMP: u8 = 1;
pub const TCP: u8 = 6;
pub const UDP: u8 = 17;
/// IPv6 routing extension header.
pub const IPV6_ROUTE: u8 = 43;
/// IPv6 fragment extension header.
pub const IPV6_FRAG: u8 = 44;
/// IPsec authentication header.
pub const AUTH: u8 = 51;
pub const IPV6_ICMP: u8 = 58;
/// IPv6 destination options extension header.
pub const IPV6_DEST_OPTIONS: u8 = 60;

} // verus!
