use vstd::prelude::*;

use crate::net::{IpAddress, Ipv4Address, SocketAddress};

pub mod membership;
pub mod membership_dissemination;
pub mod membership_dynamic_join;
pub mod membership_maintenance;

verus! {

/// The multicast group that the membership components join.
pub open spec fn group_address() -> Ipv4Address {
    Ipv4Address { a: 239, b: 0, c: 0, d: 1 }
}

/// The address of the multicast group.
pub fn multicast_address() -> (ip: Ipv4Address)
    ensures
        ip == group_address(),
{
    Ipv4Address { a: 239, b: 0, c: 0, d: 1 }
}

/// Where a component listening at `socket_address` multicasts: the group,
/// at the component's own port.
pub open spec fn group_target(socket_address: SocketAddress) -> SocketAddress {
    SocketAddress { ip: IpAddress::V4(group_address()), port: socket_address.port }
}

} // verus!
