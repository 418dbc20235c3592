use vstd::prelude::*;

use crate::bytes::bytes_equal;
use crate::communication::{group_address, group_target, multicast_address};
use crate::net::{IpAddress, Ipv4Address, SocketAddress};

verus! {

/// The messages of the multicast membership protocol, each carried as a
/// short ASCII word in a UDP datagram.
#[derive(Debug, PartialEq, Eq, Structural)]
pub enum Message {
    Ack,
    Failed,
    Ping,
    PingReq,
}

/// The ASCII word that carries each message on the wire:
/// `ack`, `failed`, `ping` and `ping-req`.
pub open spec fn message_word(message: Message) -> Seq<u8> {
    match message {
        Message::Ack => seq![97u8, 99u8, 107u8],
        Message::Failed => seq![102u8, 97u8, 105u8, 108u8, 101u8, 100u8],
        Message::Ping => seq![112u8, 105u8, 110u8, 103u8],
        Message::PingReq => seq![112u8, 105u8, 110u8, 103u8, 45u8, 114u8, 101u8, 113u8],
    }
}

/// The byte strings that carry a message.
pub open spec fn is_message_word(bytes: Seq<u8>) -> bool {
    exists|message: Message| message_word(message) == bytes
}

impl Message {
    /// The bytes of this message.
    pub fn build(&self) -> (bytes: &'static [u8])
        ensures
            bytes@ == message_word(*self),
    {
        match self {
            Message::Ack => &[97u8, 99u8, 107u8],
            Message::Failed => &[102u8, 97u8, 105u8, 108u8, 101u8, 100u8],
            Message::Ping => &[112u8, 105u8, 110u8, 103u8],
            Message::PingReq => &[112u8, 105u8, 110u8, 103u8, 45u8, 114u8, 101u8, 113u8],
        }
    }

    /// The message that `bytes` carry. Bytes that carry none of the four
    /// words are not a message of this protocol.
    pub fn from_bytes(bytes: &[u8]) -> (message: Message)
        requires
            is_message_word(bytes@),
        ensures
            message_word(message) == bytes@,
    {
        if bytes_equal(bytes, Message::Ack.build()) {
            Message::Ack
        } else if bytes_equal(bytes, Message::Failed.build()) {
            Message::Failed
        } else if bytes_equal(bytes, Message::Ping.build()) {
            Message::Ping
        } else {
            assert(bytes@ == message_word(Message::PingReq)) by {
                let m = choose|m: Message| message_word(m) == bytes@;
            }
            Message::PingReq
        }
    }
}

impl Message {
    /// Whether `bytes` carry a message, for callers that receive arbitrary
    /// datagrams.
    pub fn is_message(bytes: &[u8]) -> (known: bool)
        ensures
            known == is_message_word(bytes@),
    {
        let known = bytes_equal(bytes, Message::Ack.build()) || bytes_equal(
            bytes,
            Message::Failed.build(),
        ) || bytes_equal(bytes, Message::Ping.build()) || bytes_equal(
            bytes,
            Message::PingReq.build(),
        );
        proof {
            if is_message_word(bytes@) {
                let m = choose|m: Message| message_word(m) == bytes@;
                assert(known);
            }
            if known {
                if bytes@ == message_word(Message::Ack) {
                    assert(message_word(Message::Ack) == bytes@);
                } else if bytes@ == message_word(Message::Failed) {
                    assert(message_word(Message::Failed) == bytes@);
                } else if bytes@ == message_word(Message::Ping) {
                    assert(message_word(Message::Ping) == bytes@);
                } else {
                    assert(message_word(Message::PingReq) == bytes@);
                }
            }
        }
        known
    }
}

/// Two messages are carried by different words.
pub proof fn lemma_message_word_injective(a: Message, b: Message)
    ensures
        message_word(a) == message_word(b) ==> a == b,
{
    if message_word(a) == message_word(b) {
        assert(message_word(a).len() == message_word(b).len());
        assert(message_word(a)[0] == message_word(b)[0]);
        assert(message_word(a)[message_word(a).len() - 1] == message_word(b)[message_word(b).len() - 1]);
    }
}

/// Reading back the bytes of a message gives that message.
pub proof fn law_from_bytes_of_build(message: Message, bytes: Seq<u8>)
    requires
        bytes == message_word(message),
    ensures
        is_message_word(bytes),
        forall|read: Message| message_word(read) == bytes ==> read == message,
{
    assert forall|read: Message| message_word(read) == bytes implies read == message by {
        lemma_message_word_injective(read, message);
    }
}

/// The membership communication component: where it listens, its receive
/// buffer, the multicast group it joins and the interface it joins it on.
pub struct MembershipCommunication {
    pub socket_address: SocketAddress,
    pub buffer: [u8; 1024],
    pub multicast_address: Ipv4Address,
    pub multicast_interface: Ipv4Address,
}

impl MembershipCommunication {
    /// A component listening at `socket_address`, joining the group on the
    /// interface of its own address; the group is an IPv4 one, so an IPv6
    /// address has no component.
    pub fn init(socket_address: SocketAddress) -> (communication: Option<MembershipCommunication>)
        ensures
            match socket_address.ip {
                IpAddress::V4(interface) => communication == Some(
                    MembershipCommunication {
                        socket_address,
                        buffer: communication->0.buffer,
                        multicast_address: group_address(),
                        multicast_interface: interface,
                    },
                ) && communication->0.buffer@ == Seq::new(1024, |i: int| 0u8),
                IpAddress::V6(_) => communication is None,
            },
    {
        let interface = match socket_address.ip {
            IpAddress::V4(interface) => interface,
            IpAddress::V6(_) => return None,
        };
        let buffer = [0u8; 1024];
        assert(buffer@ =~= Seq::new(1024, |i: int| 0u8));
        Some(
            MembershipCommunication {
                socket_address,
                buffer,
                multicast_address: multicast_address(),
                multicast_interface: interface,
            },
        )
    }

    /// Where received messages are passed on: the group, at this
    /// component's port.
    pub fn multicast_target(&self) -> (target: SocketAddress)
        ensures
            target == (SocketAddress {
                ip: IpAddress::V4(self.multicast_address),
                port: self.socket_address.port,
            }),
            self.multicast_address == group_address() ==> target == group_target(
                self.socket_address,
            ),
    {
        SocketAddress { ip: IpAddress::V4(self.multicast_address), port: self.socket_address.port }
    }
}

} // verus!
