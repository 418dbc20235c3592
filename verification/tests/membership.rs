use meridian::communication::membership_maintenance::dissemination::Dissemination;
use meridian::communication::membership_maintenance::handle_message;
use meridian::communication::membership_maintenance::suspicion::{GroupMember, Suspicion};
use meridian::membership::communications::receive_bytes;
use meridian::membership::failure_detector::{
    alive, confirmed, probe_address, send_direct, send_indirect, suspected, PeriodAction,
    ProbeReply, ProtocolPeriod,
};
use meridian::membership::list::{List, ListReply, ListRequest, ListResponse};
use meridian::membership::message::Message;
use meridian::membership::receiver::{process, Outgoing};
use meridian::membership::{ClusterSize, Membership, MembershipRequest, MembershipStep};
use meridian::net::{IpAddress, Ipv4Address, SocketAddress};
use meridian::node::Node;

fn node(id: u128, port: u16) -> Node {
    Node {
        id,
        address: IpAddress::V4(Ipv4Address { a: 127, b: 0, c: 0, d: 1 }),
        client_port: port,
        cluster_port: port + 1,
        membership_port: port + 2,
    }
}

fn address(port: u16) -> SocketAddress {
    SocketAddress { ip: IpAddress::V4(Ipv4Address { a: 127, b: 0, c: 0, d: 1 }), port }
}

#[test]
fn cluster_size_one() {
    assert_eq!(ClusterSize::from_str("1"), ClusterSize::One);
    assert_eq!(ClusterSize::One.majority(), 0);
}

#[test]
fn cluster_size_three() {
    assert_eq!(ClusterSize::from_str("3"), ClusterSize::Three);
    assert_eq!(ClusterSize::Three.majority(), 2);
}

#[test]
fn cluster_size_five() {
    assert_eq!(ClusterSize::from_str("5"), ClusterSize::Five);
    assert_eq!(ClusterSize::Five.majority(), 3);
}

#[test]
fn cluster_size_refuses_other_sizes() {
    assert_eq!(ClusterSize::parse("2"), None);
    assert_eq!(ClusterSize::parse(""), None);
    assert_eq!(ClusterSize::parse("5"), Some(ClusterSize::Five));
}

#[test]
fn suspicion_group_member_init() {
    let test_group_member = GroupMember::init();

    assert_eq!(test_group_member.suspicion, Suspicion::Alive);
    assert_eq!(test_group_member.incarnation, 0);
}

#[test]
fn group_member_alive() {
    let mut test_group_member = GroupMember::init();

    assert_eq!(test_group_member.suspicion, Suspicion::Alive);

    test_group_member.suspicion = Suspicion::Confirm;

    assert_eq!(test_group_member.suspicion, Suspicion::Confirm);

    test_group_member.alive();

    assert_eq!(test_group_member.suspicion, Suspicion::Alive);
}

#[test]
fn group_member_confirm() {
    let mut test_group_member = GroupMember::init();

    assert_eq!(test_group_member.suspicion, Suspicion::Alive);

    test_group_member.confirm();

    assert_eq!(test_group_member.suspicion, Suspicion::Confirm);
}

#[test]
fn group_member_suspect() {
    let mut test_group_member = GroupMember::init();

    assert_eq!(test_group_member.suspicion, Suspicion::Alive);

    test_group_member.suspect();

    assert_eq!(test_group_member.suspicion, Suspicion::Suspect);
}

#[test]
fn membership_dissemination_group_member_init() {
    let test_group_member = GroupMember::init();

    assert_eq!(test_group_member.suspicion, Suspicion::Alive);
    assert_eq!(test_group_member.incarnation, 0);
}

#[test]
fn suspecting_twice_counts_two_incarnations() {
    let mut member = GroupMember::init();
    member.suspect();
    member.suspect();
    assert_eq!(member.incarnation, 2);
    member.alive();
    assert_eq!(member.incarnation, 2);
}

#[test]
fn dissemination_init() {
    let test_dissemination = Dissemination::init();

    assert_eq!(test_dissemination.suspected.len(), 0);
    assert_eq!(test_dissemination.confirmed.len(), 0);
}

#[test]
fn add_confirmed() {
    let test_socket_address = SocketAddress { ip: IpAddress::V4(Ipv4Address { a: 0, b: 0, c: 0, d: 0 }), port: 8888 };
    let mut test_group_member = GroupMember::init();
    let mut test_dissemination = Dissemination::init();

    assert_eq!(test_dissemination.confirmed.len(), 0);

    test_group_member.confirm();

    test_dissemination.add_confirmed(test_socket_address, test_group_member);

    assert_eq!(test_dissemination.confirmed.len(), 1);
}

#[test]
fn add_suspected() {
    let test_socket_address = SocketAddress { ip: IpAddress::V4(Ipv4Address { a: 0, b: 0, c: 0, d: 0 }), port: 8888 };
    let mut test_group_member = GroupMember::init();
    let mut test_dissemination = Dissemination::init();

    assert_eq!(test_dissemination.suspected.len(), 0);

    test_group_member.suspect();

    test_dissemination.add_suspected(test_socket_address, test_group_member);

    assert_eq!(test_dissemination.suspected.len(), 1);
}

#[test]
fn remove_confirmed() {
    let test_socket_address = SocketAddress { ip: IpAddress::V4(Ipv4Address { a: 0, b: 0, c: 0, d: 0 }), port: 8888 };
    let mut test_group_member = GroupMember::init();
    let mut test_dissemination = Dissemination::init();

    assert_eq!(test_dissemination.confirmed.len(), 0);

    test_group_member.confirm();

    test_dissemination.add_confirmed(test_socket_address, test_group_member);

    assert_eq!(test_dissemination.confirmed.len(), 1);

    test_dissemination.remove_confirmed(&test_socket_address);

    assert_eq!(test_dissemination.confirmed.len(), 0);
}

#[test]
fn remove_suspect() {
    let test_socket_address = SocketAddress { ip: IpAddress::V4(Ipv4Address { a: 0, b: 0, c: 0, d: 0 }), port: 8888 };
    let mut test_group_member = GroupMember::init();
    let mut test_dissemination = Dissemination::init();

    assert_eq!(test_dissemination.suspected.len(), 0);

    test_group_member.suspect();

    test_dissemination.add_suspected(test_socket_address, test_group_member);

    assert_eq!(test_dissemination.suspected.len(), 1);

    test_dissemination.remove_suspected(&test_socket_address);

    assert_eq!(test_dissemination.suspected.len(), 0);
}

#[test]
fn adding_the_same_address_twice_keeps_one_entry() {
    let mut dissemination = Dissemination::init();
    dissemination.add_suspected(address(8888), GroupMember::init());
    dissemination.add_suspected(address(8888), GroupMember::init());
    dissemination.add_suspected(address(8889), GroupMember::init());
    assert_eq!(dissemination.suspected.len(), 2);
    dissemination.remove_suspected(&address(8888));
    assert_eq!(dissemination.suspected.len(), 1);
}

#[test]
fn maintenance_reports_move_members_between_tables() {
    let mut dissemination = Dissemination::init();
    handle_message(&mut dissemination, b"12345", address(25000));
    assert_eq!(dissemination.suspected.len(), 1);
    assert_eq!(dissemination.confirmed.len(), 0);
    handle_message(&mut dissemination, b"123456", address(25000));
    assert_eq!(dissemination.suspected.len(), 0);
    assert_eq!(dissemination.confirmed.len(), 1);
    handle_message(&mut dissemination, b"1234567", address(25000));
    assert_eq!(dissemination.suspected.len(), 0);
    assert_eq!(dissemination.confirmed.len(), 0);
}

#[test]
fn list_starts_empty_and_never_lists_its_server() {
    let server = node(1, 10000);
    let mut list = List::init(server, Vec::new());
    assert!(list.get_initial().is_empty());
    assert!(list.get_alive().is_empty());
    assert!(list.get_suspected().is_empty());
    assert!(list.get_confirmed().is_empty());

    list.insert_alive(server);
    list.insert_supsected(server);
    list.insert_confirmed(server);
    assert!(list.get_alive().is_empty());
    assert!(list.get_suspected().is_empty());
    assert!(list.get_confirmed().is_empty());
}

#[test]
fn list_files_members_by_identifier() {
    let server = node(1, 10000);
    let mut list = List::init(server, vec![address(25001)]);
    let peer = node(2, 11000);
    let moved_peer = node(2, 12000);
    list.insert_alive(peer);
    list.insert_alive(moved_peer);
    assert_eq!(list.get_alive(), vec![moved_peer]);
    list.remove_alive(&peer);
    assert!(list.get_alive().is_empty());
    assert_eq!(list.get_initial(), vec![address(25001)]);
    assert_eq!(list.get_node(), server);
}

#[test]
fn list_serves_requests() {
    let server = node(1, 10000);
    let mut list = List::init(server, Vec::new());
    let peer = node(2, 11000);
    assert!(matches!(list.handle(ListRequest::InsertSuspected(peer)), ListReply::Applied));
    match list.handle(ListRequest::GetSuspected) {
        ListReply::Respond(ListResponse::Suspected(members)) => assert_eq!(members, vec![peer]),
        other => panic!("unexpected reply {:?}", other),
    }
    match list.handle(ListRequest::GetNode) {
        ListReply::Respond(ListResponse::Node(n)) => assert_eq!(n, server),
        other => panic!("unexpected reply {:?}", other),
    }
    assert!(matches!(list.handle(ListRequest::Shutdown), ListReply::Shutdown));
}

#[test]
fn ping_makes_its_sender_alive_and_is_acknowledged() {
    let server = node(1, 10000);
    let mut list = List::init(server, Vec::new());
    let sender = node(2, 11000);
    list.insert_confirmed(sender);
    let other = node(3, 12000);
    let plan = receive_bytes(Message::Ping, sender, &[other], &[], &[], address(11002));
    assert_eq!(plan.reply, Some((Message::Ack, address(11002))));
    assert_eq!(plan.ping_target, Some(address(11002)));
    list.apply_all(&plan.updates);
    let mut alive = list.get_alive();
    alive.sort_by_key(|n| n.id);
    assert_eq!(alive, vec![sender, other]);
    assert!(list.get_confirmed().is_empty());
}

#[test]
fn ack_files_sender_and_its_alive_members() {
    let plan = receive_bytes(Message::Ack, node(2, 11000), &[node(3, 12000)], &[], &[], address(11002));
    assert_eq!(
        plan.updates,
        vec![ListRequest::InsertAlive(node(2, 11000)), ListRequest::InsertAlive(node(3, 12000))]
    );
    assert_eq!(plan.reply, None);
    assert_eq!(plan.ping_target, None);
}

#[test]
fn ping_req_adopts_suspicions_and_confirmations() {
    let server = node(1, 10000);
    let mut list = List::init(server, Vec::new());
    let suspect = node(4, 14000);
    let failed = node(5, 15000);
    list.insert_alive(suspect);
    list.insert_alive(failed);
    let plan = receive_bytes(Message::PingReq, node(2, 11000), &[], &[suspect], &[failed], address(11002));
    assert_eq!(plan.reply, Some((Message::Ack, address(11002))));
    list.apply_all(&plan.updates);
    assert!(list.get_alive().is_empty());
    assert_eq!(list.get_suspected(), vec![suspect]);
    assert_eq!(list.get_confirmed(), vec![failed]);
}

#[test]
fn receiver_relays_and_answers_probes() {
    let local = address(25000);
    let forward = address(25000);
    let suspect = address(25005);
    let plan = process(Message::Ack, address(25003), Some((forward, suspect)), node(2, 11000), &[], &[], &[], local, true);
    assert_eq!(plan.send, None);
    assert_eq!(plan.ping_target, Some(suspect));
    let elsewhere = address(25009);
    let plan = process(Message::Ack, address(25003), Some((elsewhere, suspect)), node(2, 11000), &[], &[], &[], local, true);
    assert_eq!(plan.send, Some(Outgoing { message: Message::Ack, suspect: Some((elsewhere, suspect)), target: elsewhere }));
    let plan = process(Message::Ack, address(25003), None, node(2, 11000), &[], &[], &[], local, false);
    assert_eq!(plan.send, None);
    assert_eq!(plan.ping_target, None);
    let plan = process(Message::Ping, address(25003), None, node(2, 11000), &[], &[], &[], local, false);
    assert_eq!(plan.send, Some(Outgoing { message: Message::Ack, suspect: None, target: address(25003) }));
    let plan = process(Message::PingReq, address(25003), Some((elsewhere, suspect)), node(2, 11000), &[], &[], &[], local, false);
    assert_eq!(plan.send, Some(Outgoing { message: Message::Ping, suspect: Some((elsewhere, suspect)), target: suspect }));
    assert_eq!(plan.updates, vec![ListRequest::InsertAlive(node(2, 11000))]);
}

#[test]
fn failure_detector_moves() {
    let member = node(2, 11000);
    assert_eq!(
        alive(member),
        vec![ListRequest::RemoveConfirmed(member), ListRequest::RemoveSuspected(member), ListRequest::InsertAlive(member)]
    );
    assert_eq!(
        suspected(member),
        vec![ListRequest::RemoveConfirmed(member), ListRequest::RemoveAlive(member), ListRequest::InsertSuspected(member)]
    );
    assert_eq!(
        confirmed(member),
        vec![ListRequest::RemoveAlive(member), ListRequest::RemoveSuspected(member), ListRequest::InsertConfirmed(member)]
    );
}

#[test]
fn probes_decide_the_members_fate() {
    let member = Node { address: IpAddress::V4(Ipv4Address { a: 10, b: 0, c: 0, d: 7 }), ..node(2, 11000) };
    assert_eq!(probe_address(&member), address(11002));
    let (ok, updates) = send_direct(member, ProbeReply::Answered(address(11002)));
    assert!(ok);
    assert_eq!(updates, alive(member));
    let (ok, updates) = send_direct(member, ProbeReply::Answered(address(9999)));
    assert!(!ok);
    assert!(updates.is_empty());
    let (ok, updates) = send_direct(member, ProbeReply::TimedOut);
    assert!(!ok);
    assert_eq!(updates, suspected(member));
    let (ok, updates) = send_indirect(member, ProbeReply::Answered(member.membership_address()));
    assert!(ok);
    assert_eq!(updates, alive(member));
    let (ok, updates) = send_indirect(member, ProbeReply::TimedOut);
    assert!(!ok);
    assert_eq!(updates, confirmed(member));
    let (ok, updates) = send_indirect(member, ProbeReply::Failed);
    assert!(!ok);
    assert!(updates.is_empty());
}

#[test]
fn protocol_period_stops_at_first_failure() {
    let a = node(2, 11000);
    let b = node(3, 12000);
    let c = node(4, 13000);
    let mut period = ProtocolPeriod::start(vec![a, b, c]);
    assert_eq!(period.next_action(), PeriodAction::Probe(a));
    period.direct_result(true);
    assert_eq!(period.next_action(), PeriodAction::Probe(b));
    period.direct_result(false);
    assert_eq!(period.next_action(), PeriodAction::FetchIndirect);
    period.indirect_list(vec![a, c]);
    assert_eq!(period.next_action(), PeriodAction::ProbeIndirect(a, b));
    period.indirect_result(true);
    assert_eq!(period.next_action(), PeriodAction::ProbeIndirect(c, b));
    period.indirect_result(false);
    assert_eq!(period.next_action(), PeriodAction::ConfirmSuspected);
    let updates = period.confirm_suspected(&[b]);
    assert_eq!(updates, confirmed(b));
    assert_eq!(period.next_action(), PeriodAction::Done);
}

#[test]
fn protocol_period_without_failures_goes_to_confirmation() {
    let mut period = ProtocolPeriod::start(vec![node(2, 11000)]);
    period.direct_result(true);
    assert_eq!(period.next_action(), PeriodAction::ConfirmSuspected);
    assert!(period.confirm_suspected(&[]).is_empty());
}

#[test]
fn membership_serves_requests() {
    let server = node(1, 10000);
    let membership = Membership::init(ClusterSize::Three, server);
    assert_eq!(membership.handle(MembershipRequest::Node), MembershipStep::Answer(server));
    assert_eq!(membership.handle(MembershipRequest::Members), MembershipStep::AnswerMembers);
    assert_eq!(membership.handle(MembershipRequest::StaticJoin), MembershipStep::StaticJoin);
    assert_eq!(membership.status(&[node(2, 11000)]), (1, 2));
}

#[test]
fn confirming_suspected_members_leaves_them_only_confirmed() {
    let server = node(1, 10000);
    let mut list = List::init(server, vec![]);
    let a = node(2, 11000);
    let b = node(3, 12000);
    let c = node(4, 13000);
    list.insert_alive(a);
    list.insert_supsected(b);
    list.insert_alive(c);
    let mut period = ProtocolPeriod::start(vec![]);
    let updates = period.confirm_suspected(&[a, b, server]);
    list.apply_all(&updates);
    let ids = |members: Vec<Node>| members.iter().map(|n| n.id).collect::<Vec<_>>();
    assert_eq!(ids(list.get_alive()), vec![4]);
    assert!(list.get_suspected().is_empty());
    let mut confirmed_ids = ids(list.get_confirmed());
    confirmed_ids.sort();
    assert_eq!(confirmed_ids, vec![2, 3]);
}

#[test]
fn reports_keep_an_address_in_one_table() {
    let mut dissemination = Dissemination::init();
    let origin = address(9000);
    let other = address(9001);
    handle_message(&mut dissemination, b"12345", other);
    handle_message(&mut dissemination, b"12345", origin);
    handle_message(&mut dissemination, b"123456", origin);
    assert_eq!(dissemination.suspected.len(), 1);
    assert_eq!(dissemination.confirmed.len(), 1);
    handle_message(&mut dissemination, b"12345", origin);
    assert_eq!(dissemination.suspected.len(), 2);
    assert_eq!(dissemination.confirmed.len(), 0);
    handle_message(&mut dissemination, b"1234567", origin);
    assert_eq!(dissemination.suspected.len(), 1);
    assert_eq!(dissemination.confirmed.len(), 0);
}

#[test]
fn init_one() {
    let test_membership = Membership::init(ClusterSize::One, node(1, 10000));
    assert_eq!(test_membership.cluster_size, ClusterSize::One);
    assert_eq!(test_membership.cluster_size.majority(), 0);
}

#[test]
fn init_three() {
    let test_membership = Membership::init(ClusterSize::Three, node(1, 10000));
    assert_eq!(test_membership.cluster_size, ClusterSize::Three);
    assert_eq!(test_membership.cluster_size.majority(), 2);
}

#[test]
fn init_five() {
    let test_membership = Membership::init(ClusterSize::Five, node(1, 10000));
    assert_eq!(test_membership.cluster_size, ClusterSize::Five);
    assert_eq!(test_membership.cluster_size.majority(), 3);
}

#[test]
fn list_init() {
    let test_node = Node::init(IpAddress::parse("127.0.0.1").unwrap(), 10000, 15000, 20000);
    let test_list = List::init(test_node, Vec::with_capacity(0));
    assert!(test_list.get_initial().is_empty());
    assert!(test_list.get_alive().is_empty());
    assert!(test_list.get_suspected().is_empty());
    assert!(test_list.get_confirmed().is_empty());
    assert_eq!(test_list.get_node(), test_node);
}

#[test]
fn launch_peers_survive_every_request() {
    let server = node(1, 10000);
    let peers = vec![address(25001), address(25002)];
    let mut list = List::init(server, peers.clone());
    let peer = node(2, 11000);
    for request in [
        ListRequest::InsertAlive(peer),
        ListRequest::InsertSuspected(peer),
        ListRequest::InsertConfirmed(peer),
        ListRequest::RemoveAlive(peer),
        ListRequest::RemoveSuspected(peer),
        ListRequest::RemoveConfirmed(peer),
        ListRequest::GetAlive,
    ] {
        list.handle(request);
    }
    assert_eq!(list.get_initial(), peers);
    assert_eq!(list.get_node(), server);
}
