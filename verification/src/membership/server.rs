use vstd::prelude::*;

use crate::communication::membership_maintenance::{is_message_word, message_word, Message};
use crate::net::SocketAddress;

verus! {

/// The membership interface: the address it listens on for UDP messages.
#[derive(Clone, Copy, Debug)]
pub struct MembershipServer {
    pub socket_address: SocketAddress,
}

impl MembershipServer {
    /// An interface listening at `socket_address`.
    pub fn init(socket_address: SocketAddress) -> (server: MembershipServer)
        ensures
            server.socket_address == socket_address,
    {
        MembershipServer { socket_address }
    }

    /// The message that received bytes carry: `ack`, `ping` or `ping-req`.
    /// Any other bytes are not a message of this protocol.
    pub fn receive_bytes(bytes: &[u8]) -> (message: Message)
        requires
            is_message_word(bytes@),
        ensures
            message_word(message) == bytes@,
    {
        Message::from_bytes(bytes)
    }
}

} // verus!
