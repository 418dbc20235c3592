use vstd::prelude::*;

use crate::bytes::bytes_equal;
use crate::communication::{group_address, group_target, multicast_address};
use crate::net::{IpAddress, Ipv4Address, SocketAddress};

verus! {

/// The request a node multicasts to announce that it wants to join.
#[derive(Debug, PartialEq, Eq, Structural)]
pub enum Message {
    Join,
}

/// The ASCII word `join` that carries the request.
pub open spec fn join_word() -> Seq<u8> {
    seq![106u8, 111u8, 105u8, 110u8]
}

impl Message {
    /// The bytes of the request.
    pub fn build(&self) -> (bytes: &'static [u8])
        ensures
            bytes@ == join_word(),
    {
        &[106u8, 111u8, 105u8, 110u8]
    }

    /// The request that `bytes` carry.
    pub fn from_bytes(bytes: &[u8]) -> (message: Message)
        requires
            bytes@ == join_word(),
        ensures
            message == Message::Join,
    {
        Message::Join
    }

    /// Whether `bytes` carry the join request.
    pub fn is_message(bytes: &[u8]) -> (known: bool)
        ensures
            known == (bytes@ == join_word()),
    {
        bytes_equal(bytes, Message::Join.build())
    }
}

/// The dynamic join component: where it listens, its receive buffer, the
/// multicast group it joins and the interface it joins it on.
pub struct MembershipDynamicJoin {
    pub socket_address: SocketAddress,
    pub buffer: [u8; 1024],
    pub multicast_address: Ipv4Address,
    pub multicast_interface: Ipv4Address,
}

impl MembershipDynamicJoin {
    /// A component listening at `socket_address`, joining the group on the
    /// interface of its own address; the group is an IPv4 one, so an IPv6
    /// address has no component.
    pub fn init(socket_address: SocketAddress) -> (join: Option<MembershipDynamicJoin>)
        ensures
            match socket_address.ip {
                IpAddress::V4(interface) => join == Some(
                    MembershipDynamicJoin {
                        socket_address,
                        buffer: join->0.buffer,
                        multicast_address: group_address(),
                        multicast_interface: interface,
                    },
                ) && join->0.buffer@ == Seq::new(1024, |i: int| 0u8),
                IpAddress::V6(_) => join is None,
            },
    {
        let interface = match socket_address.ip {
            IpAddress::V4(interface) => interface,
            IpAddress::V6(_) => return None,
        };
        let buffer = [0u8; 1024];
        assert(buffer@ =~= Seq::new(1024, |i: int| 0u8));
        Some(
            MembershipDynamicJoin {
                socket_address,
                buffer,
                multicast_address: multicast_address(),
                multicast_interface: interface,
            },
        )
    }

    /// Where join requests are multicast: the group, at this component's
    /// port.
    pub fn multicast_target(&self) -> (target: SocketAddress)
        ensures
            target == (SocketAddress {
                ip: IpAddress::V4(self.multicast_address),
                port: self.socket_address.port,
            }),
            self.multicast_address == group_address() ==> target == group_target(
                self.socket_address,
            ),
    {
        SocketAddress { ip: IpAddress::V4(self.multicast_address), port: self.socket_address.port }
    }
}

} // verus!
