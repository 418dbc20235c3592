use vstd::prelude::*;

use crate::membership::list::{lemma_apply_all_append, ListRequest, ListView};
use crate::membership::message::Message;
use crate::net::SocketAddress;
use crate::node::Node;

verus! {

/// What the membership interface does with a message it received: the
/// updates it makes to the list, in order; the answer it sends back, built
/// from the list as it stood before the updates; and the address it hands
/// to the failure detector as having answered its probe.
pub struct ReceivePlan {
    pub updates: Vec<ListRequest>,
    pub reply: Option<(Message, SocketAddress)>,
    pub ping_target: Option<SocketAddress>,
}

/// Filing each node as alive.
pub open spec fn alive_updates(nodes: Seq<Node>) -> Seq<ListRequest> {
    nodes.map_values(|n: Node| ListRequest::InsertAlive(n))
}

/// Moving each node to the suspected group: out of the alive and confirmed
/// groups, into the suspected one.
pub open spec fn suspect_updates(nodes: Seq<Node>) -> Seq<ListRequest>
    decreases nodes.len(),
{
    if nodes.len() == 0 {
        Seq::empty()
    } else {
        let n = nodes.last();
        suspect_updates(nodes.drop_last()) + seq![
            ListRequest::RemoveAlive(n),
            ListRequest::RemoveConfirmed(n),
            ListRequest::InsertSuspected(n),
        ]
    }
}

/// Moving each node to the confirmed group: out of the alive and suspected
/// groups, into the confirmed one.
pub open spec fn confirm_updates(nodes: Seq<Node>) -> Seq<ListRequest>
    decreases nodes.len(),
{
    if nodes.len() == 0 {
        Seq::empty()
    } else {
        let n = nodes.last();
        confirm_updates(nodes.drop_last()) + seq![
            ListRequest::RemoveAlive(n),
            ListRequest::RemoveSuspected(n),
            ListRequest::InsertConfirmed(n),
        ]
    }
}

/// The updates made for a message from `origin_node` carrying the sender's
/// alive, suspected and confirmed lists. An `Ack` files the sender and its
/// alive members as alive; a `Ping` takes the sender out of the suspected
/// and confirmed groups, then does the same; a `PingReq` adopts the
/// sender's suspicions and confirmations.
pub open spec fn receive_updates(
    message: Message,
    origin_node: Node,
    alive: Seq<Node>,
    suspected: Seq<Node>,
    confirmed: Seq<Node>,
) -> Seq<ListRequest> {
    match message {
        Message::Ack => seq![ListRequest::InsertAlive(origin_node)] + alive_updates(alive),
        Message::Ping => seq![
            ListRequest::RemoveConfirmed(origin_node),
            ListRequest::RemoveSuspected(origin_node),
            ListRequest::InsertAlive(origin_node),
        ] + alive_updates(alive),
        Message::PingReq => suspect_updates(suspected) + confirm_updates(confirmed),
    }
}

/// Appends to `updates` the moves of each node to the suspected group.
fn push_suspect_updates(updates: &mut Vec<ListRequest>, nodes: &[Node])
    ensures
        final(updates)@ == old(updates)@ + suspect_updates(nodes@),
{
    let mut i: usize = 0;
    while i < nodes.len()
        invariant
            i <= nodes@.len(),
            updates@ == old(updates)@ + suspect_updates(nodes@.subrange(0, i as int)),
        decreases nodes@.len() - i,
    {
        let n = nodes[i];
        updates.push(ListRequest::RemoveAlive(n));
        updates.push(ListRequest::RemoveConfirmed(n));
        updates.push(ListRequest::InsertSuspected(n));
        assert(nodes@.subrange(0, i + 1).drop_last() =~= nodes@.subrange(0, i as int));
        i = i + 1;
        assert(updates@ =~= old(updates)@ + suspect_updates(nodes@.subrange(0, i as int)));
    }
    assert(nodes@.subrange(0, i as int) =~= nodes@);
}

/// Appends to `updates` the moves of each node to the confirmed group.
pub(crate) fn push_confirm_updates(updates: &mut Vec<ListRequest>, nodes: &[Node])
    ensures
        final(updates)@ == old(updates)@ + confirm_updates(nodes@),
{
    let mut i: usize = 0;
    while i < nodes.len()
        invariant
            i <= nodes@.len(),
            updates@ == old(updates)@ + confirm_updates(nodes@.subrange(0, i as int)),
        decreases nodes@.len() - i,
    {
        let n = nodes[i];
        updates.push(ListRequest::RemoveAlive(n));
        updates.push(ListRequest::RemoveSuspected(n));
        updates.push(ListRequest::InsertConfirmed(n));
        assert(nodes@.subrange(0, i + 1).drop_last() =~= nodes@.subrange(0, i as int));
        i = i + 1;
        assert(updates@ =~= old(updates)@ + confirm_updates(nodes@.subrange(0, i as int)));
    }
    assert(nodes@.subrange(0, i as int) =~= nodes@);
}

/// Appends to `updates` the filing of each node as alive.
fn push_alive_updates(updates: &mut Vec<ListRequest>, nodes: &[Node])
    ensures
        final(updates)@ == old(updates)@ + alive_updates(nodes@),
{
    let mut i: usize = 0;
    while i < nodes.len()
        invariant
            i <= nodes@.len(),
            updates@ == old(updates)@ + alive_updates(nodes@.subrange(0, i as int)),
        decreases nodes@.len() - i,
    {
        updates.push(ListRequest::InsertAlive(nodes[i]));
        i = i + 1;
        assert(updates@ =~= old(updates)@ + alive_updates(nodes@.subrange(0, i as int)));
    }
    assert(nodes@.subrange(0, i as int) =~= nodes@);
}

/// Decides what to do with a message received from `origin`, sent by
/// `origin_node` with its alive, suspected and confirmed lists: a `Ping`
/// or a `PingReq` is answered with an `Ack` to `origin`, and a `Ping`
/// tells the failure detector that `origin` answers.
pub fn receive_bytes(
    message: Message,
    origin_node: Node,
    peer_alive: &[Node],
    peer_suspected: &[Node],
    peer_confirmed: &[Node],
    origin: SocketAddress,
) -> (plan: ReceivePlan)
    ensures
        plan.updates@ == receive_updates(
            message,
            origin_node,
            peer_alive@,
            peer_suspected@,
            peer_confirmed@,
        ),
        plan.reply == match message {
            Message::Ack => None,
            _ => Some((Message::Ack, origin)),
        },
        plan.ping_target == match message {
            Message::Ping => Some(origin),
            _ => None,
        },
{
    let mut updates: Vec<ListRequest> = Vec::new();
    match message {
        Message::Ack => {
            updates.push(ListRequest::InsertAlive(origin_node));
            push_alive_updates(&mut updates, peer_alive);
            ReceivePlan { updates, reply: None, ping_target: None }
        },
        Message::Ping => {
            updates.push(ListRequest::RemoveConfirmed(origin_node));
            updates.push(ListRequest::RemoveSuspected(origin_node));
            updates.push(ListRequest::InsertAlive(origin_node));
            push_alive_updates(&mut updates, peer_alive);
            ReceivePlan {
                updates,
                reply: Some((Message::Ack, origin)),
                ping_target: Some(origin),
            }
        },
        Message::PingReq => {
            push_suspect_updates(&mut updates, peer_suspected);
            push_confirm_updates(&mut updates, peer_confirmed);
            ReceivePlan { updates, reply: Some((Message::Ack, origin)), ping_target: None }
        },
    }
}

/// Filing nodes as alive keeps every member alive that was, and leaves the
/// suspected and confirmed groups as they are.
proof fn lemma_alive_updates(list: ListView, nodes: Seq<Node>)
    ensures
        list.apply_all(alive_updates(nodes)).server == list.server,
        list.apply_all(alive_updates(nodes)).suspected == list.suspected,
        list.apply_all(alive_updates(nodes)).confirmed == list.confirmed,
        forall|id: u128|
            list.alive.contains_key(id) ==> #[trigger] list.apply_all(
                alive_updates(nodes),
            ).alive.contains_key(id),
    decreases nodes.len(),
{
    if nodes.len() > 0 {
        let rest = nodes.drop_last();
        assert(alive_updates(nodes) =~= alive_updates(rest) + seq![
            ListRequest::InsertAlive(nodes.last()),
        ]);
        lemma_apply_all_append(list, alive_updates(rest), seq![ListRequest::InsertAlive(nodes.last())]);
        lemma_alive_updates(list, rest);
        let mid = list.apply_all(alive_updates(rest));
        reveal_with_fuel(ListView::apply_all, 2);
        assert(seq![ListRequest::InsertAlive(nodes.last())].drop_first() =~= Seq::<ListRequest>::empty());
        assert(mid.apply_all(seq![ListRequest::InsertAlive(nodes.last())]) == mid.apply(
            ListRequest::InsertAlive(nodes.last()),
        ));
    } else {
        assert(alive_updates(nodes) =~= Seq::<ListRequest>::empty());
    }
}

/// Law: after the updates for a `Ping`, its sender is alive and neither
/// suspected nor confirmed as failed, whatever lists it carried.
pub proof fn law_ping_sender_is_alive(
    list: ListView,
    origin_node: Node,
    alive: Seq<Node>,
    suspected: Seq<Node>,
    confirmed: Seq<Node>,
)
    requires
        origin_node != list.server,
    ensures
        ({
            let after = list.apply_all(
                receive_updates(Message::Ping, origin_node, alive, suspected, confirmed),
            );
            &&& after.alive.contains_key(origin_node.id)
            &&& !after.suspected.contains_key(origin_node.id)
            &&& !after.confirmed.contains_key(origin_node.id)
        }),
{
    let first = seq![
        ListRequest::RemoveConfirmed(origin_node),
        ListRequest::RemoveSuspected(origin_node),
        ListRequest::InsertAlive(origin_node),
    ];
    lemma_apply_all_append(list, first, alive_updates(alive));
    reveal_with_fuel(ListView::apply_all, 4);
    let mid = list.apply_all(first);
    assert(first.drop_first().drop_first().drop_first() =~= Seq::<ListRequest>::empty());
    assert(mid == list.apply(first[0]).apply(first[1]).apply(first[2]));
    lemma_alive_updates(mid, alive);
}

/// Law: after the updates for an `Ack`, its sender is alive.
pub proof fn law_ack_sender_is_alive(
    list: ListView,
    origin_node: Node,
    alive: Seq<Node>,
    suspected: Seq<Node>,
    confirmed: Seq<Node>,
)
    requires
        origin_node != list.server,
    ensures
        list.apply_all(
            receive_updates(Message::Ack, origin_node, alive, suspected, confirmed),
        ).alive.contains_key(origin_node.id),
{
    let first = seq![ListRequest::InsertAlive(origin_node)];
    lemma_apply_all_append(list, first, alive_updates(alive));
    let mid = list.apply_all(first);
    reveal_with_fuel(ListView::apply_all, 2);
    assert(first.drop_first() =~= Seq::<ListRequest>::empty());
    assert(mid == list.apply(first[0]));
    lemma_alive_updates(mid, alive);
}

/// After confirming nodes, each of them (but the server) is confirmed as
/// failed and neither alive nor suspected.
proof fn lemma_confirm_updates(list: ListView, nodes: Seq<Node>)
    ensures
        list.apply_all(confirm_updates(nodes)).server == list.server,
        forall|i: int|
            0 <= i < nodes.len() && #[trigger] nodes[i] != list.server ==> {
                let after = list.apply_all(confirm_updates(nodes));
                &&& after.confirmed.contains_key(nodes[i].id)
                &&& !after.alive.contains_key(nodes[i].id)
                &&& !after.suspected.contains_key(nodes[i].id)
            },
    decreases nodes.len(),
{
    if nodes.len() > 0 {
        let rest = nodes.drop_last();
        let last = nodes.last();
        let tail = seq![
            ListRequest::RemoveAlive(last),
            ListRequest::RemoveSuspected(last),
            ListRequest::InsertConfirmed(last),
        ];
        lemma_apply_all_append(list, confirm_updates(rest), tail);
        lemma_confirm_updates(list, rest);
        let mid = list.apply_all(confirm_updates(rest));
        reveal_with_fuel(ListView::apply_all, 4);
        assert(tail.drop_first().drop_first().drop_first() =~= Seq::<ListRequest>::empty());
        let after = mid.apply(tail[0]).apply(tail[1]).apply(tail[2]);
        assert(list.apply_all(confirm_updates(nodes)) == after);
        assert forall|i: int| 0 <= i < nodes.len() && #[trigger] nodes[i] != list.server implies {
            &&& after.confirmed.contains_key(nodes[i].id)
            &&& !after.alive.contains_key(nodes[i].id)
            &&& !after.suspected.contains_key(nodes[i].id)
        } by {
            if i < rest.len() {
                assert(rest[i] == nodes[i]);
            }
        }
    }
}

/// Law: after the updates for a `PingReq`, every member its sender reports
/// as confirmed failed (other than the server itself) is confirmed here
/// too, and neither alive nor suspected.
pub proof fn law_ping_req_adopts_confirmations(
    list: ListView,
    origin_node: Node,
    alive: Seq<Node>,
    suspected: Seq<Node>,
    confirmed: Seq<Node>,
)
    ensures
        forall|i: int|
            0 <= i < confirmed.len() && #[trigger] confirmed[i] != list.server ==> {
                let after = list.apply_all(
                    receive_updates(Message::PingReq, origin_node, alive, suspected, confirmed),
                );
                &&& after.confirmed.contains_key(confirmed[i].id)
                &&& !after.alive.contains_key(confirmed[i].id)
                &&& !after.suspected.contains_key(confirmed[i].id)
            },
{
    lemma_apply_all_append(list, suspect_updates(suspected), confirm_updates(confirmed));
    let mid = list.apply_all(suspect_updates(suspected));
    lemma_suspect_updates_server(list, suspected);
    lemma_confirm_updates(mid, confirmed);
}

/// Suspecting nodes keeps the list's server.
proof fn lemma_suspect_updates_server(list: ListView, nodes: Seq<Node>)
    ensures
        list.apply_all(suspect_updates(nodes)).server == list.server,
    decreases nodes.len(),
{
    if nodes.len() > 0 {
        let rest = nodes.drop_last();
        let last = nodes.last();
        let tail = seq![
            ListRequest::RemoveAlive(last),
            ListRequest::RemoveConfirmed(last),
            ListRequest::InsertSuspected(last),
        ];
        lemma_apply_all_append(list, suspect_updates(rest), tail);
        lemma_suspect_updates_server(list, rest);
        reveal_with_fuel(ListView::apply_all, 4);
        assert(tail.drop_first().drop_first().drop_first() =~= Seq::<ListRequest>::empty());
    }
}

/// After suspecting nodes, each of them (but the server) is suspected and
/// neither alive nor confirmed as failed.
proof fn lemma_suspect_updates(list: ListView, nodes: Seq<Node>)
    ensures
        forall|i: int|
            0 <= i < nodes.len() && #[trigger] nodes[i] != list.server ==> {
                let after = list.apply_all(suspect_updates(nodes));
                &&& after.suspected.contains_key(nodes[i].id)
                &&& !after.alive.contains_key(nodes[i].id)
                &&& !after.confirmed.contains_key(nodes[i].id)
            },
    decreases nodes.len(),
{
    if nodes.len() > 0 {
        let rest = nodes.drop_last();
        let last = nodes.last();
        let tail = seq![
            ListRequest::RemoveAlive(last),
            ListRequest::RemoveConfirmed(last),
            ListRequest::InsertSuspected(last),
        ];
        lemma_apply_all_append(list, suspect_updates(rest), tail);
        lemma_suspect_updates(list, rest);
        lemma_suspect_updates_server(list, rest);
        let mid = list.apply_all(suspect_updates(rest));
        reveal_with_fuel(ListView::apply_all, 4);
        assert(tail.drop_first().drop_first().drop_first() =~= Seq::<ListRequest>::empty());
        let after = mid.apply(tail[0]).apply(tail[1]).apply(tail[2]);
        assert(list.apply_all(suspect_updates(nodes)) == after);
        assert forall|i: int| 0 <= i < nodes.len() && #[trigger] nodes[i] != list.server implies {
            &&& after.suspected.contains_key(nodes[i].id)
            &&& !after.alive.contains_key(nodes[i].id)
            &&& !after.confirmed.contains_key(nodes[i].id)
        } by {
            if i < rest.len() {
                assert(rest[i] == nodes[i]);
            }
        }
    }
}

/// Confirming nodes leaves every member whose identifier none of them has
/// where it was.
proof fn lemma_confirm_updates_keep_others(list: ListView, nodes: Seq<Node>, id: u128)
    requires
        forall|j: int| 0 <= j < nodes.len() ==> #[trigger] nodes[j].id != id,
    ensures
        list.apply_all(confirm_updates(nodes)).alive.contains_key(id) == list.alive.contains_key(id),
        list.apply_all(confirm_updates(nodes)).suspected.contains_key(id)
            == list.suspected.contains_key(id),
        list.apply_all(confirm_updates(nodes)).confirmed.contains_key(id)
            == list.confirmed.contains_key(id),
    decreases nodes.len(),
{
    if nodes.len() > 0 {
        let rest = nodes.drop_last();
        let last = nodes.last();
        let tail = seq![
            ListRequest::RemoveAlive(last),
            ListRequest::RemoveSuspected(last),
            ListRequest::InsertConfirmed(last),
        ];
        assert(last.id != id) by {
            assert(nodes[nodes.len() - 1].id != id);
        }
        assert forall|j: int| 0 <= j < rest.len() implies #[trigger] rest[j].id != id by {
            assert(rest[j] == nodes[j]);
        }
        lemma_apply_all_append(list, confirm_updates(rest), tail);
        lemma_confirm_updates_keep_others(list, rest, id);
        reveal_with_fuel(ListView::apply_all, 4);
        assert(tail.drop_first().drop_first().drop_first() =~= Seq::<ListRequest>::empty());
    }
}

/// Law: after the updates for a `PingReq`, every member its sender reports
/// as suspected (other than the server itself, and not also reported as
/// confirmed failed) is suspected here too, and neither alive nor
/// confirmed as failed.
pub proof fn law_ping_req_adopts_suspicions(
    list: ListView,
    origin_node: Node,
    alive: Seq<Node>,
    suspected: Seq<Node>,
    confirmed: Seq<Node>,
)
    ensures
        forall|i: int|
            0 <= i < suspected.len() && #[trigger] suspected[i] != list.server && (forall|j: int|
                0 <= j < confirmed.len() ==> confirmed[j].id != suspected[i].id) ==> {
                let after = list.apply_all(
                    receive_updates(Message::PingReq, origin_node, alive, suspected, confirmed),
                );
                &&& after.suspected.contains_key(suspected[i].id)
                &&& !after.alive.contains_key(suspected[i].id)
                &&& !after.confirmed.contains_key(suspected[i].id)
            },
{
    lemma_apply_all_append(list, suspect_updates(suspected), confirm_updates(confirmed));
    let mid = list.apply_all(suspect_updates(suspected));
    lemma_suspect_updates(list, suspected);
    assert forall|i: int|
        0 <= i < suspected.len() && #[trigger] suspected[i] != list.server && (forall|j: int|
            0 <= j < confirmed.len() ==> confirmed[j].id != suspected[i].id) implies {
        let after = list.apply_all(
            receive_updates(Message::PingReq, origin_node, alive, suspected, confirmed),
        );
        &&& after.suspected.contains_key(suspected[i].id)
        &&& !after.alive.contains_key(suspected[i].id)
        &&& !after.confirmed.contains_key(suspected[i].id)
    } by {
        lemma_confirm_updates_keep_others(mid, confirmed, suspected[i].id);
    }
}

} // verus!
