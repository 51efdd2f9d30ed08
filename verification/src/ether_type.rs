//! Ether-type values used to identify the protocol that follows an
//! Ethernet or VLAN header.

use vstd::prelude::*;

verus! {

pub const IPV4: u16 = 0x0800;
pub const IPV6: u16 = 0x86DD;
/// Customer tag of IEEE 802.1Q.
pub const VLAN_TAGGED_FRAME: u16 = 0x8100;
/// Service tag of IEEE 802.1ad (Q-in-Q).
pub const PROVIDER_BRIDGING: u16 = 0x88A8;
/// Pre-standard double tagging value still seen on the wire.
pub const VLAN_DOUBLE_TAGGED_FRAME: u16 = 0x9100;

/// True for the ether-types under which a VLAN tag follows.
pub open spec fn spec_is_vlan_ether_type(v: u16) -> bool {
    v == VLAN_TAGGED_FRAME || v == PROVIDER_BRIDGING || v == VLAN_DOUBLE_TAGGED_FRAME
}

/// True for the ether-types under which a VLAN tag follows.
pub fn is_vlan_ether_type(v: u16) -> (r: bool)
    ensures
        r == spec_is_vlan_ether_type(v),
{
    v == VLAN_TAGGED_FRAME || v == PROVIDER_BRIDGING || v == VLAN_DOUBLE_TAGGED_FRAME
}

} // verus!
