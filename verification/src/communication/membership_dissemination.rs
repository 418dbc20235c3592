use vstd::prelude::*;

use crate::bytes::bytes_equal;
use crate::communication::membership_maintenance::dissemination::MemberTable;
use crate::communication::membership_maintenance::suspicion::GroupMember;
use crate::net::{IpAddress, Ipv4Address, SocketAddress};

verus! {

/// The messages of the dissemination component, each carried as a short ASCII word
/// in a UDP datagram.
#[derive(Clone, Copy, Debug, PartialEq, Eq, Structural)]
pub enum Message {
    Ack,
    Ping,
    PingReq,
}

/// The ASCII word that carries each message: `ack`, `ping` and `ping-req`.
pub open spec fn message_word(message: Message) -> Seq<u8> {
    match message {
        Message::Ack => seq![97u8, 99u8, 107u8],
        Message::Ping => seq![112u8, 105u8, 110u8, 103u8],
        Message::PingReq => seq![112u8, 105u8, 110u8, 103u8, 45u8, 114u8, 101u8, 113u8],
    }
}

/// The byte strings that carry a message.
pub open spec fn is_message_word(bytes: Seq<u8>) -> bool {
    exists|message: Message| message_word(message) == bytes
}

impl Message {
    /// The bytes of this message.
    pub fn build(&self) -> (bytes: &'static [u8])
        ensures
            bytes@ == message_word(*self),
    {
        match self {
            Message::Ack => &[97u8, 99u8, 107u8],
            Message::Ping => &[112u8, 105u8, 110u8, 103u8],
            Message::PingReq => &[112u8, 105u8, 110u8, 103u8, 45u8, 114u8, 101u8, 113u8],
        }
    }

    /// The message that `bytes` carry.
    pub fn from_bytes(bytes: &[u8]) -> (message: Message)
        requires
            is_message_word(bytes@),
        ensures
            message_word(message) == bytes@,
    {
        if bytes_equal(bytes, Message::Ack.build()) {
            Message::Ack
        } else if bytes_equal(bytes, Message::Ping.build()) {
            Message::Ping
        } else {
            assert(bytes@ == message_word(Message::PingReq)) by {
                let m = choose|m: Message| message_word(m) == bytes@;
            }
            Message::PingReq
        }
    }

    /// Whether `bytes` carry a message, for callers that receive arbitrary
    /// datagrams.
    pub fn is_message(bytes: &[u8]) -> (known: bool)
        ensures
            known == is_message_word(bytes@),
    {
        let known = bytes_equal(bytes, Message::Ack.build()) || bytes_equal(
            bytes,
            Message::Ping.build(),
        ) || bytes_equal(bytes, Message::PingReq.build());
        proof {
            if is_message_word(bytes@) {
                let m = choose|m: Message| message_word(m) == bytes@;
                assert(known);
            }
            if known {
                if bytes@ == message_word(Message::Ack) {
                    assert(message_word(Message::Ack) == bytes@);
                } else if bytes@ == message_word(Message::Ping) {
                    assert(message_word(Message::Ping) == bytes@);
                } else {
                    assert(message_word(Message::PingReq) == bytes@);
                }
            }
        }
        known
    }
}

/// Two messages are carried by different words.
pub proof fn lemma_message_word_injective(a: Message, b: Message)
    ensures
        message_word(a) == message_word(b) ==> a == b,
{
    if message_word(a) == message_word(b) {
        assert(message_word(a).len() == message_word(b).len());
        assert(message_word(a)[message_word(a).len() - 1] == message_word(b)[message_word(
            b,
        ).len() - 1]);
    }
}

/// Reading back the bytes of a message gives that message.
pub proof fn law_from_bytes_of_build(message: Message, bytes: Seq<u8>)
    requires
        bytes == message_word(message),
    ensures
        is_message_word(bytes),
        forall|read: Message| message_word(read) == bytes ==> read == message,
{
    assert forall|read: Message| message_word(read) == bytes implies read == message by {
        lemma_message_word_injective(read, message);
    }
}

/// The member that a ping request received here asks to probe.
pub open spec fn requested_member() -> SocketAddress {
    SocketAddress { ip: IpAddress::V4(Ipv4Address { a: 0, b: 0, c: 0, d: 0 }), port: 25055 }
}

/// What the messages received by the dissemination component are answered
/// with: nothing for an acknowledgement; an acknowledgement to the sender
/// of a ping; a ping to the requested member and then an acknowledgement
/// to the sender of a ping request.
pub open spec fn dissemination_replies(message: Message, origin: SocketAddress) -> Seq<
    (Message, SocketAddress),
> {
    match message {
        Message::Ack => seq![],
        Message::Ping => seq![(Message::Ack, origin)],
        Message::PingReq => seq![(Message::Ping, requested_member()), (Message::Ack, origin)],
    }
}

/// The messages to send, in order, on receiving `message` from `origin`.
pub fn udp_replies(message: Message, origin: SocketAddress) -> (replies: Vec<(Message, SocketAddress)>)
    ensures
        replies@ == dissemination_replies(message, origin),
{
    let mut replies: Vec<(Message, SocketAddress)> = Vec::new();
    match message {
        Message::Ack => {},
        Message::Ping => {
            replies.push((Message::Ack, origin));
        },
        Message::PingReq => {
            let member = SocketAddress { ip: IpAddress::V4(Ipv4Address { a: 0, b: 0, c: 0, d: 0 }), port: 25055 };
            replies.push((Message::Ping, member));
            replies.push((Message::Ack, origin));
        },
    }
    assert(replies@ =~= dissemination_replies(message, origin));
    replies
}

/// The dissemination component: where it listens, its receive buffer and
/// the members it suspects or has confirmed as failed, by address.
pub struct MembershipDissemination {
    pub socket_address: SocketAddress,
    pub buffer: [u8; 1024],
    pub suspected: MemberTable,
    pub confirmed: MemberTable,
}

impl MembershipDissemination {
    /// A component listening at `socket_address`, with a zeroed buffer and
    /// nobody suspected or confirmed.
    pub fn init(socket_address: SocketAddress) -> (dissemination: MembershipDissemination)
        ensures
            dissemination.socket_address == socket_address,
            dissemination.buffer@ == Seq::new(1024, |i: int| 0u8),
            dissemination.suspected@ == Map::<SocketAddress, GroupMember>::empty(),
            dissemination.confirmed@ == Map::<SocketAddress, GroupMember>::empty(),
    {
        let buffer = [0u8; 1024];
        assert(buffer@ =~= Seq::new(1024, |i: int| 0u8));
        MembershipDissemination {
            socket_address,
            buffer,
            suspected: MemberTable::new(),
            confirmed: MemberTable::new(),
        }
    }

    /// Files a member as confirmed failed.
    pub fn add_confirmed(&mut self, socket_address: SocketAddress, group_member: GroupMember)
        ensures
            final(self).socket_address == old(self).socket_address,
            final(self).buffer == old(self).buffer,
            final(self).confirmed@ == old(self).confirmed@.insert(socket_address, group_member),
            final(self).suspected@ == old(self).suspected@,
    {
        self.confirmed.insert(socket_address, group_member);
    }

    /// Files a member as suspected.
    pub fn add_suspect(&mut self, socket_address: SocketAddress, group_member: GroupMember)
        ensures
            final(self).socket_address == old(self).socket_address,
            final(self).buffer == old(self).buffer,
            final(self).suspected@ == old(self).suspected@.insert(socket_address, group_member),
            final(self).confirmed@ == old(self).confirmed@,
    {
        self.suspected.insert(socket_address, group_member);
    }

    /// Drops a member from the confirmed ones.
    pub fn remove_confirmed(&mut self, socket_address: &SocketAddress)
        ensures
            final(self).socket_address == old(self).socket_address,
            final(self).buffer == old(self).buffer,
            final(self).confirmed@ == old(self).confirmed@.remove(*socket_address),
            final(self).suspected@ == old(self).suspected@,
    {
        self.confirmed.remove(socket_address);
    }

    /// Drops a member from the suspected ones.
    pub fn remove_suspected(&mut self, socket_address: &SocketAddress)
        ensures
            final(self).socket_address == old(self).socket_address,
            final(self).buffer == old(self).buffer,
            final(self).suspected@ == old(self).suspected@.remove(*socket_address),
            final(self).confirmed@ == old(self).confirmed@,
    {
        self.suspected.remove(socket_address);
    }
}

} // verus!
