use vstd::prelude::*;

use crate::membership::communications::{confirm_updates, push_confirm_updates};
use crate::membership::list::ListRequest;
use crate::membership::message::Message;
use crate::net::SocketAddress;
use crate::node::Node;

verus! {

/// A message to send: its kind, the probe it relays (the address to
/// answer and the suspected member's address), and where it goes.
#[derive(Clone, Copy, Debug, PartialEq, Eq)]
pub struct Outgoing {
    pub message: Message,
    pub suspect: Option<(SocketAddress, SocketAddress)>,
    pub target: SocketAddress,
}

/// What the receiver does with a datagram: the updates it makes to the
/// list, in order; then the message it sends, built from the list as it
/// stands after the updates; and the address it hands to the failure
/// detector as having answered its probe.
pub struct UdpPlan {
    pub updates: Vec<ListRequest>,
    pub send: Option<Outgoing>,
    pub ping_target: Option<SocketAddress>,
}

/// Each node reported alive leaves the suspected group and is filed as
/// alive.
pub open spec fn revive_updates(nodes: Seq<Node>) -> Seq<ListRequest>
    decreases nodes.len(),
{
    if nodes.len() == 0 {
        Seq::empty()
    } else {
        revive_updates(nodes.drop_last()) + seq![
            ListRequest::RemoveSuspected(nodes.last()),
            ListRequest::InsertAlive(nodes.last()),
        ]
    }
}

/// Each node reported suspected is filed as suspected and leaves the alive
/// group.
pub open spec fn suspicion_updates(nodes: Seq<Node>) -> Seq<ListRequest>
    decreases nodes.len(),
{
    if nodes.len() == 0 {
        Seq::empty()
    } else {
        suspicion_updates(nodes.drop_last()) + seq![
            ListRequest::InsertSuspected(nodes.last()),
            ListRequest::RemoveAlive(nodes.last()),
        ]
    }
}

/// The updates for any datagram: the sender is alive, and the sender's
/// alive, suspected and confirmed reports are adopted in that order.
pub open spec fn gossip_updates(
    origin_node: Node,
    alive: Seq<Node>,
    suspected: Seq<Node>,
    confirmed: Seq<Node>,
) -> Seq<ListRequest> {
    seq![ListRequest::InsertAlive(origin_node)] + revive_updates(alive) + suspicion_updates(
        suspected,
    ) + confirm_updates(confirmed)
}

/// The message sent and the address handed to the failure detector for a
/// datagram. An `Ack` goes to the failure detector when one is waiting: for
/// a relayed probe, the suspect's address if this node asked for the probe,
/// else the `Ack` is passed on to the node that asked; for a direct probe,
/// the sender's address. A `Ping` is answered with an `Ack`. A `PingReq`
/// is relayed as a `Ping` to the suspect.
pub open spec fn udp_action(
    message: Message,
    origin: SocketAddress,
    suspect: Option<(SocketAddress, SocketAddress)>,
    local_address: SocketAddress,
    detector_listening: bool,
) -> (Option<Outgoing>, Option<SocketAddress>) {
    match message {
        Message::Ack => if !detector_listening {
            (None, None)
        } else {
            match suspect {
                Some((forward, suspect_address)) => if local_address == forward {
                    (None, Some(suspect_address))
                } else {
                    (Some(Outgoing { message: Message::Ack, suspect, target: forward }), None)
                },
                None => (None, Some(origin)),
            }
        },
        Message::Ping => (Some(Outgoing { message: Message::Ack, suspect: None, target: origin }), None),
        Message::PingReq => match suspect {
            Some((forward, suspect_address)) => (
                Some(Outgoing { message: Message::Ping, suspect, target: suspect_address }),
                None,
            ),
            None => (None, None),
        },
    }
}

fn push_revive_updates(updates: &mut Vec<ListRequest>, nodes: &[Node])
    ensures
        final(updates)@ == old(updates)@ + revive_updates(nodes@),
{
    let mut i: usize = 0;
    while i < nodes.len()
        invariant
            i <= nodes@.len(),
            updates@ == old(updates)@ + revive_updates(nodes@.subrange(0, i as int)),
        decreases nodes@.len() - i,
    {
        updates.push(ListRequest::RemoveSuspected(nodes[i]));
        updates.push(ListRequest::InsertAlive(nodes[i]));
        assert(nodes@.subrange(0, i + 1).drop_last() =~= nodes@.subrange(0, i as int));
        i = i + 1;
        assert(updates@ =~= old(updates)@ + revive_updates(nodes@.subrange(0, i as int)));
    }
    assert(nodes@.subrange(0, i as int) =~= nodes@);
}

fn push_suspicion_updates(updates: &mut Vec<ListRequest>, nodes: &[Node])
    ensures
        final(updates)@ == old(updates)@ + suspicion_updates(nodes@),
{
    let mut i: usize = 0;
    while i < nodes.len()
        invariant
            i <= nodes@.len(),
            updates@ == old(updates)@ + suspicion_updates(nodes@.subrange(0, i as int)),
        decreases nodes@.len() - i,
    {
        updates.push(ListRequest::InsertSuspected(nodes[i]));
        updates.push(ListRequest::RemoveAlive(nodes[i]));
        assert(nodes@.subrange(0, i + 1).drop_last() =~= nodes@.subrange(0, i as int));
        i = i + 1;
        assert(updates@ =~= old(updates)@ + suspicion_updates(nodes@.subrange(0, i as int)));
    }
    assert(nodes@.subrange(0, i as int) =~= nodes@);
}


/// Decides what to do with a datagram received from `origin`: the message,
/// the probe it relays, its sender and the sender's three lists, given this
/// node's membership address and whether the failure detector waits for an
/// answer.
pub fn process(
    message: Message,
    origin: SocketAddress,
    suspect: Option<(SocketAddress, SocketAddress)>,
    origin_node: Node,
    peer_alive: &[Node],
    peer_suspected: &[Node],
    peer_confirmed: &[Node],
    local_address: SocketAddress,
    detector_listening: bool,
) -> (plan: UdpPlan)
    ensures
        plan.updates@ == gossip_updates(origin_node, peer_alive@, peer_suspected@, peer_confirmed@),
        (plan.send, plan.ping_target) == udp_action(
            message,
            origin,
            suspect,
            local_address,
            detector_listening,
        ),
{
    let mut updates: Vec<ListRequest> = Vec::new();
    updates.push(ListRequest::InsertAlive(origin_node));
    push_revive_updates(&mut updates, peer_alive);
    push_suspicion_updates(&mut updates, peer_suspected);
    push_confirm_updates(&mut updates, peer_confirmed);
    let (send, ping_target) = match message {
        Message::Ack => ack(origin, suspect, local_address, detector_listening),
        Message::Ping => ping(origin),
        Message::PingReq => ping_req(suspect),
    };
    UdpPlan { updates, send, ping_target }
}

/// What an `Ack` leads to.
pub fn ack(
    origin: SocketAddress,
    suspect: Option<(SocketAddress, SocketAddress)>,
    local_address: SocketAddress,
    detector_listening: bool,
) -> (action: (Option<Outgoing>, Option<SocketAddress>))
    ensures
        action == udp_action(Message::Ack, origin, suspect, local_address, detector_listening),
{
    if detector_listening {
        match suspect {
            Some((forward, suspect_address)) => {
                if local_address == forward {
                    (None, Some(suspect_address))
                } else {
                    (Some(Outgoing { message: Message::Ack, suspect, target: forward }), None)
                }
            },
            None => (None, Some(origin)),
        }
    } else {
        (None, None)
    }
}

/// What a `Ping` leads to: an `Ack` to its sender.
pub fn ping(origin: SocketAddress) -> (action: (Option<Outgoing>, Option<SocketAddress>))
    ensures
        action == (Some(Outgoing { message: Message::Ack, suspect: None, target: origin }), None::<
            SocketAddress,
        >),
{
    (Some(Outgoing { message: Message::Ack, suspect: None, target: origin }), None)
}

/// What a `PingReq` leads to: a `Ping` to the suspect, relaying the probe.
pub fn ping_req(suspect: Option<(SocketAddress, SocketAddress)>) -> (action: (
    Option<Outgoing>,
    Option<SocketAddress>,
))
    ensures
        action.0 == match suspect {
            Some((forward, suspect_address)) => Some(
                Outgoing { message: Message::Ping, suspect, target: suspect_address },
            ),
            None => None,
        },
        action.1 is None,
{
    match suspect {
        Some((_forward, suspect_address)) => (
            Some(Outgoing { message: Message::Ping, suspect, target: suspect_address }),
            None,
        ),
        None => (None, None),
    }
}

/// Law: what the failure detector hears of. An `Ack` is handed to it only
/// while it listens: an `Ack` that relays no probe hands it the datagram's
/// origin, the member it probed directly, and sends nothing; an `Ack` for
/// a probe this node asked others to relay hands it the suspect's address;
/// an `Ack` for a probe another node asked for is passed back to that node.
/// A `Ping` is answered with an `Ack` to its origin and a `PingReq` is
/// relayed to its suspect, neither of them reaching the failure detector.
pub proof fn law_acks_reach_the_failure_detector(
    origin: SocketAddress,
    local_address: SocketAddress,
    forward: SocketAddress,
    suspect_address: SocketAddress,
    listening: bool,
)
    ensures
        udp_action(Message::Ack, origin, None, local_address, true) == (
            None::<Outgoing>,
            Some(origin),
        ),
        udp_action(Message::Ack, origin, Some((local_address, suspect_address)), local_address, true).1
            == Some(suspect_address),
        forward != local_address ==> udp_action(
            Message::Ack,
            origin,
            Some((forward, suspect_address)),
            local_address,
            true,
        ) == (
            Some(
                Outgoing {
                    message: Message::Ack,
                    suspect: Some((forward, suspect_address)),
                    target: forward,
                },
            ),
            None::<SocketAddress>,
        ),
        forall|suspect: Option<(SocketAddress, SocketAddress)>|
            #[trigger] udp_action(Message::Ack, origin, suspect, local_address, false) == (
                None::<Outgoing>,
                None::<SocketAddress>,
            ),
        forall|suspect: Option<(SocketAddress, SocketAddress)>|
            #[trigger] udp_action(Message::Ping, origin, suspect, local_address, listening) == (
                Some(Outgoing { message: Message::Ack, suspect: None, target: origin }),
                None::<SocketAddress>,
            ),
        udp_action(Message::PingReq, origin, Some((forward, suspect_address)), local_address, listening)
            == (
            Some(
                Outgoing {
                    message: Message::Ping,
                    suspect: Some((forward, suspect_address)),
                    target: suspect_address,
                },
            ),
            None::<SocketAddress>,
        ),
{
}

} // verus!
