use vstd::prelude::*;

use crate::bytes::bytes_equal;
use crate::net::{IpAddress, Ipv4Address, SocketAddress};

pub mod dissemination;
pub mod suspicion;

use dissemination::Dissemination;
use suspicion::GroupMember;

verus! {

/// The messages of the failure detector, each carried as a short ASCII word
/// in a UDP datagram.
#[derive(Clone, Copy, Debug, PartialEq, Eq, Structural)]
pub enum Message {
    Ack,
    Ping,
    PingReq,
}

/// The ASCII word that carries each message: `ack`, `ping` and `ping-req`.
pub open spec fn message_word(message: Message) -> Seq<u8> {
    match message {
        Message::Ack => seq![97u8, 99u8, 107u8],
        Message::Ping => seq![112u8, 105u8, 110u8, 103u8],
        Message::PingReq => seq![112u8, 105u8, 110u8, 103u8, 45u8, 114u8, 101u8, 113u8],
    }
}

/// The byte strings that carry a message.
pub open spec fn is_message_word(bytes: Seq<u8>) -> bool {
    exists|message: Message| message_word(message) == bytes
}

impl Message {
    /// The bytes of this message.
    pub fn build(&self) -> (bytes: &'static [u8])
        ensures
            bytes@ == message_word(*self),
    {
        match self {
            Message::Ack => &[97u8, 99u8, 107u8],
            Message::Ping => &[112u8, 105u8, 110u8, 103u8],
            Message::PingReq => &[112u8, 105u8, 110u8, 103u8, 45u8, 114u8, 101u8, 113u8],
        }
    }

    /// The message that `bytes` carry.
    pub fn from_bytes(bytes: &[u8]) -> (message: Message)
        requires
            is_message_word(bytes@),
        ensures
            message_word(message) == bytes@,
    {
        if bytes_equal(bytes, Message::Ack.build()) {
            Message::Ack
        } else if bytes_equal(bytes, Message::Ping.build()) {
            Message::Ping
        } else {
            assert(bytes@ == message_word(Message::PingReq)) by {
                let m = choose|m: Message| message_word(m) == bytes@;
            }
            Message::PingReq
        }
    }

    /// Whether `bytes` carry a message, for callers that receive arbitrary
    /// datagrams.
    pub fn is_message(bytes: &[u8]) -> (known: bool)
        ensures
            known == is_message_word(bytes@),
    {
        let known = bytes_equal(bytes, Message::Ack.build()) || bytes_equal(
            bytes,
            Message::Ping.build(),
        ) || bytes_equal(bytes, Message::PingReq.build());
        proof {
            if is_message_word(bytes@) {
                let m = choose|m: Message| message_word(m) == bytes@;
                assert(known);
            }
            if known {
                if bytes@ == message_word(Message::Ack) {
                    assert(message_word(Message::Ack) == bytes@);
                } else if bytes@ == message_word(Message::Ping) {
                    assert(message_word(Message::Ping) == bytes@);
                } else {
                    assert(message_word(Message::PingReq) == bytes@);
                }
            }
        }
        known
    }
}

/// Two messages are carried by different words.
pub proof fn lemma_message_word_injective(a: Message, b: Message)
    ensures
        message_word(a) == message_word(b) ==> a == b,
{
    if message_word(a) == message_word(b) {
        assert(message_word(a).len() == message_word(b).len());
        assert(message_word(a)[message_word(a).len() - 1] == message_word(b)[message_word(
            b,
        ).len() - 1]);
    }
}

/// Reading back the bytes of a message gives that message.
pub proof fn law_from_bytes_of_build(message: Message, bytes: Seq<u8>)
    requires
        bytes == message_word(message),
    ensures
        is_message_word(bytes),
        forall|read: Message| message_word(read) == bytes ==> read == message,
{
    assert forall|read: Message| message_word(read) == bytes implies read == message by {
        lemma_message_word_injective(read, message);
    }
}

/// A request to the maintenance component: a report of `bytes` received
/// from an address, or shutting down.
#[derive(Debug)]
pub enum MembershipMaintenanceRequest {
    Message((Vec<u8>, SocketAddress)),
    Shutdown,
}

/// The lengths of report the maintenance component understands: five bytes
/// suspect the sender, six confirm it as failed, seven clear it.
pub open spec fn is_report_length(length: nat) -> bool {
    length == 5 || length == 6 || length == 7
}

/// The member a suspicion files: suspected, in its first suspected
/// incarnation.
pub open spec fn suspected_member() -> GroupMember {
    GroupMember { suspicion: suspicion::Suspicion::Suspect, incarnation: 1 }
}

/// The member a failure report files: confirmed as failed.
pub open spec fn confirmed_member() -> GroupMember {
    GroupMember { suspicion: suspicion::Suspicion::Confirm, incarnation: 0 }
}

/// The suspected and confirmed tables after a report of `length` bytes
/// from `origin`: five bytes move the address to the suspected table, six
/// to the confirmed one, seven take it out of both.
pub open spec fn after_report(
    suspected: Map<SocketAddress, GroupMember>,
    confirmed: Map<SocketAddress, GroupMember>,
    length: nat,
    origin: SocketAddress,
) -> (Map<SocketAddress, GroupMember>, Map<SocketAddress, GroupMember>) {
    if length == 5 {
        (suspected.insert(origin, suspected_member()), confirmed.remove(origin))
    } else if length == 6 {
        (suspected.remove(origin), confirmed.insert(origin, confirmed_member()))
    } else {
        (suspected.remove(origin), confirmed.remove(origin))
    }
}

/// Law: a report files the reporting address in at most one table (the
/// suspected one for a suspicion, the confirmed one for a failure, neither
/// when it is cleared) and leaves every other address as it was; so no
/// address ends up in both tables unless one was there before.
pub proof fn law_report_keeps_tables_apart(
    suspected: Map<SocketAddress, GroupMember>,
    confirmed: Map<SocketAddress, GroupMember>,
    length: nat,
    origin: SocketAddress,
    other: SocketAddress,
)
    requires
        is_report_length(length),
        other != origin,
    ensures
        ({
            let (s, c) = after_report(suspected, confirmed, length, origin);
            &&& length == 5 ==> s.contains_key(origin) && !c.contains_key(origin)
            &&& length == 6 ==> !s.contains_key(origin) && c.contains_key(origin)
            &&& length == 7 ==> !s.contains_key(origin) && !c.contains_key(origin)
            &&& s.contains_key(other) == suspected.contains_key(other)
            &&& s.contains_key(other) ==> s[other] == suspected[other]
            &&& c.contains_key(other) == confirmed.contains_key(other)
            &&& c.contains_key(other) ==> c[other] == confirmed[other]
            &&& (forall|a: SocketAddress|
                !(#[trigger] suspected.contains_key(a) && confirmed.contains_key(a)))
                ==> forall|a: SocketAddress| !(#[trigger] s.contains_key(a) && c.contains_key(a))
        }),
{
}

/// Law: a report files the reporter with the verdict it carries. A
/// suspicion (five bytes) files it as suspected, in the incarnation after a
/// new member's first (a new member starts alive in incarnation 0, and
/// each suspicion starts the next one); a failure report (six bytes) files
/// it as confirmed failed, still in its first incarnation; a cleared report
/// (seven bytes) files it nowhere.
pub proof fn law_report_files_its_verdict(
    suspected: Map<SocketAddress, GroupMember>,
    confirmed: Map<SocketAddress, GroupMember>,
    origin: SocketAddress,
)
    ensures
        ({
            let (s, c) = after_report(suspected, confirmed, 5, origin);
            &&& s.contains_key(origin)
            &&& s[origin].suspicion == suspicion::Suspicion::Suspect
            &&& s[origin].incarnation == 1
        }),
        ({
            let (s, c) = after_report(suspected, confirmed, 6, origin);
            &&& c.contains_key(origin)
            &&& c[origin].suspicion == suspicion::Suspicion::Confirm
            &&& c[origin].incarnation == 0
        }),
        ({
            let (s, c) = after_report(suspected, confirmed, 7, origin);
            &&& !s.contains_key(origin)
            &&& !c.contains_key(origin)
        }),
{
}

/// Updates the dissemination tables for a report of `bytes` from `origin`,
/// as [`after_report`] describes.
pub fn handle_message(dissemination: &mut Dissemination, bytes: &[u8], origin: SocketAddress)
    requires
        is_report_length(bytes@.len()),
    ensures
        (final(dissemination).suspected@, final(dissemination).confirmed@) == after_report(
            old(dissemination).suspected@,
            old(dissemination).confirmed@,
            bytes@.len(),
            origin,
        ),
{
    let mut group_member = GroupMember::init();
    if bytes.len() == 5 {
        group_member.suspect();
        dissemination.remove_confirmed(&origin);
        dissemination.add_suspected(origin, group_member);
    } else if bytes.len() == 6 {
        group_member.confirm();
        dissemination.remove_suspected(&origin);
        dissemination.add_confirmed(origin, group_member);
    } else {
        group_member.alive();
        dissemination.remove_confirmed(&origin);
        dissemination.remove_suspected(&origin);
    }
}

/// The loopback address at `port`.
pub open spec fn loopback(port: u16) -> SocketAddress {
    SocketAddress { ip: IpAddress::V4(Ipv4Address { a: 127, b: 0, c: 0, d: 1 }), port }
}

/// The member the failure detector probes directly.
pub fn probed_member() -> (address: SocketAddress)
    ensures
        address == loopback(25200),
{
    SocketAddress { ip: IpAddress::localhost(), port: 25200 }
}

/// The member the failure detector asks to probe on its behalf when the
/// direct probe goes unanswered.
pub fn relay_member() -> (address: SocketAddress)
    ensures
        address == loopback(25202),
{
    SocketAddress { ip: IpAddress::localhost(), port: 25202 }
}

/// The member that a ping request received here asks to probe.
pub fn requested_member() -> (address: SocketAddress)
    ensures
        address == loopback(25055),
{
    SocketAddress { ip: IpAddress::localhost(), port: 25055 }
}

/// What the messages received by the maintenance component are answered
/// with: nothing for an acknowledgement; an acknowledgement to the sender
/// of a ping; a ping to the requested member and then an acknowledgement
/// to the sender of a ping request.
pub open spec fn maintenance_replies(message: Message, origin: SocketAddress) -> Seq<
    (Message, SocketAddress),
> {
    match message {
        Message::Ack => seq![],
        Message::Ping => seq![(Message::Ack, origin)],
        Message::PingReq => seq![(Message::Ping, loopback(25055)), (Message::Ack, origin)],
    }
}

/// The messages to send, in order, on receiving `message` from `origin`.
pub fn udp_replies(message: Message, origin: SocketAddress) -> (replies: Vec<(Message, SocketAddress)>)
    ensures
        replies@ == maintenance_replies(message, origin),
{
    let mut replies: Vec<(Message, SocketAddress)> = Vec::new();
    match message {
        Message::Ack => {},
        Message::Ping => {
            replies.push((Message::Ack, origin));
        },
        Message::PingReq => {
            replies.push((Message::Ping, requested_member()));
            replies.push((Message::Ack, origin));
        },
    }
    assert(replies@ =~= maintenance_replies(message, origin));
    replies
}

/// How waiting for an acknowledgement ended: one arrived, receiving
/// failed, or the second of waiting ran out.
#[derive(Clone, Copy, Debug, PartialEq, Eq, Structural)]
pub enum AckWait {
    Received,
    Failed,
    TimedOut,
}

/// What the failure detector sends after waiting on its direct probe: an
/// acknowledged member is alive and the round ends; otherwise the relay
/// member is asked, with a ping request, to probe.
pub fn after_probe(wait: AckWait) -> (next: Option<(Message, SocketAddress)>)
    ensures
        next == (if wait == AckWait::Received {
            None
        } else {
            Some((Message::PingReq, loopback(25202)))
        }),
{
    match wait {
        AckWait::Received => None,
        _ => Some((Message::PingReq, relay_member())),
    }
}

/// The maintenance component: where it listens, its receive buffer and
/// the members it suspects or has confirmed as failed.
pub struct MembershipMaintenance {
    pub socket_address: SocketAddress,
    pub buffer: [u8; 1024],
    pub dissemination: Dissemination,
}

impl MembershipMaintenance {
    /// A component listening at `socket_address`, with a zeroed buffer and
    /// no member suspected or confirmed.
    pub fn init(socket_address: SocketAddress) -> (maintenance: MembershipMaintenance)
        ensures
            maintenance.socket_address == socket_address,
            maintenance.buffer@ == Seq::new(1024, |i: int| 0u8),
            maintenance.dissemination.suspected@.is_empty(),
            maintenance.dissemination.confirmed@.is_empty(),
    {
        let buffer = [0u8; 1024];
        assert(buffer@ =~= Seq::new(1024, |i: int| 0u8));
        MembershipMaintenance { socket_address, buffer, dissemination: Dissemination::init() }
    }

    /// Serves one request: a report updates the tables as
    /// [`handle_message`] does and the component goes on; shutting down
    /// changes nothing and tells the caller to stop.
    pub fn handle(&mut self, request: MembershipMaintenanceRequest) -> (stop: bool)
        requires
            request matches MembershipMaintenanceRequest::Message((bytes, _)) ==> is_report_length(
                bytes@.len(),
            ),
        ensures
            final(self).socket_address == old(self).socket_address,
            final(self).buffer == old(self).buffer,
            stop == (request is Shutdown),
            request is Shutdown ==> final(self).dissemination == old(self).dissemination,
            request matches MembershipMaintenanceRequest::Message((bytes, origin)) ==> (
                final(self).dissemination.suspected@,
                final(self).dissemination.confirmed@,
            ) == after_report(
                old(self).dissemination.suspected@,
                old(self).dissemination.confirmed@,
                bytes@.len(),
                origin,
            ),
    {
        match request {
            MembershipMaintenanceRequest::Message((bytes, origin)) => {
                handle_message(&mut self.dissemination, bytes.as_slice(), origin);
                false
            },
            MembershipMaintenanceRequest::Shutdown => true,
        }
    }
}

} // verus!
