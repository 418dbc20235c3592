use meridian::communication::membership::MembershipCommunication;
use meridian::communication::membership_dissemination::{
    udp_replies as dissemination_replies, MembershipDissemination, Message as DisseminationMessage,
};
use meridian::communication::membership_dynamic_join::MembershipDynamicJoin;
use meridian::communication::membership_maintenance::suspicion::{GroupMember, Suspicion};
use meridian::communication::membership_maintenance::{
    after_probe, probed_member, relay_member, udp_replies, AckWait, MembershipMaintenance,
    MembershipMaintenanceRequest, Message,
};
use meridian::membership::server::MembershipServer;
use meridian::net::{IpAddress, Ipv4Address, SocketAddress};
use meridian::text::parse_port;

fn unspecified(port: u16) -> SocketAddress {
    SocketAddress { ip: IpAddress::V4(Ipv4Address { a: 0, b: 0, c: 0, d: 0 }), port }
}

fn loopback(port: u16) -> SocketAddress {
    SocketAddress { ip: IpAddress::V4(Ipv4Address { a: 127, b: 0, c: 0, d: 1 }), port }
}

#[test]
fn membership_init() {
    let test_membership_communication = MembershipCommunication::init(unspecified(8888)).unwrap();
    assert_eq!(test_membership_communication.socket_address.ip, IpAddress::V4(Ipv4Address { a: 0, b: 0, c: 0, d: 0 }));
    assert_eq!(test_membership_communication.buffer, [0_u8; 1024]);
    assert!(test_membership_communication.multicast_address.is_multicast());
    assert_eq!(test_membership_communication.multicast_interface, Ipv4Address { a: 0, b: 0, c: 0, d: 0 });
}

#[test]
fn membership_dynamic_join_init() {
    let test_membership_dynamic_join = MembershipDynamicJoin::init(unspecified(8888)).unwrap();
    assert_eq!(test_membership_dynamic_join.socket_address.port, 8888);
    assert_eq!(test_membership_dynamic_join.buffer, [0_u8; 1024]);
    assert!(test_membership_dynamic_join.multicast_address.is_multicast());
    assert_eq!(test_membership_dynamic_join.multicast_interface, Ipv4Address { a: 0, b: 0, c: 0, d: 0 });
}

#[test]
fn multicast_goes_to_the_group_at_the_own_port() {
    let communication = MembershipCommunication::init(loopback(8888)).unwrap();
    assert_eq!(communication.multicast_target().to_text(), "239.0.0.1:8888");
    let join = MembershipDynamicJoin::init(unspecified(9999)).unwrap();
    assert_eq!(join.multicast_target().to_text(), "239.0.0.1:9999");
    assert!(!Ipv4Address { a: 127, b: 0, c: 0, d: 1 }.is_multicast());
    assert!(Ipv4Address { a: 224, b: 0, c: 0, d: 0 }.is_multicast());
    assert!(!Ipv4Address { a: 240, b: 0, c: 0, d: 0 }.is_multicast());
    let v6 = SocketAddress::parse("[::1]:8888").unwrap();
    assert!(MembershipCommunication::init(v6).is_none());
    assert!(MembershipDynamicJoin::init(v6).is_none());
}

#[test]
fn membership_maintenance_init() {
    let test_membership_maintenance = MembershipMaintenance::init(unspecified(8888));
    assert_eq!(test_membership_maintenance.socket_address, unspecified(8888));
    assert_eq!(test_membership_maintenance.buffer, [0_u8; 1024]);
}

#[test]
fn maintenance_reports_and_shutdown() {
    let mut maintenance = MembershipMaintenance::init(unspecified(8888));
    let origin = loopback(9000);
    assert!(!maintenance.handle(MembershipMaintenanceRequest::Message((b"sussp".to_vec(), origin))));
    assert_eq!(maintenance.dissemination.suspected.len(), 1);
    assert!(!maintenance.handle(MembershipMaintenanceRequest::Message((b"failed".to_vec(), origin))));
    assert_eq!(maintenance.dissemination.suspected.len(), 0);
    assert_eq!(maintenance.dissemination.confirmed.len(), 1);
    assert!(!maintenance.handle(MembershipMaintenanceRequest::Message((b"revived".to_vec(), origin))));
    assert_eq!(maintenance.dissemination.confirmed.len(), 0);
    assert!(maintenance.handle(MembershipMaintenanceRequest::Shutdown));
}

#[test]
fn maintenance_answers_pings_and_relays_ping_requests() {
    let origin = loopback(8889);
    assert!(udp_replies(Message::Ack, origin).is_empty());
    assert_eq!(udp_replies(Message::Ping, origin), vec![(Message::Ack, origin)]);
    assert_eq!(
        udp_replies(Message::PingReq, origin),
        vec![(Message::Ping, loopback(25055)), (Message::Ack, origin)]
    );
}

#[test]
fn failure_detector_asks_the_relay_only_without_an_ack() {
    assert_eq!(probed_member().to_text(), "127.0.0.1:25200");
    assert_eq!(relay_member().to_text(), "127.0.0.1:25202");
    assert_eq!(after_probe(AckWait::Received), None);
    assert_eq!(after_probe(AckWait::TimedOut), Some((Message::PingReq, loopback(25202))));
    assert_eq!(after_probe(AckWait::Failed), Some((Message::PingReq, loopback(25202))));
}

#[test]
fn membership_dissemination_init() {
    let test_membership_dissemination = MembershipDissemination::init(unspecified(8888));
    assert_eq!(test_membership_dissemination.socket_address.port, 8888);
    assert_eq!(test_membership_dissemination.buffer, [0_u8; 1024]);
    assert_eq!(test_membership_dissemination.suspected.len(), 0);
    assert_eq!(test_membership_dissemination.confirmed.len(), 0);
}

#[test]
fn dissemination_component_files_and_drops_members() {
    let mut dissemination = MembershipDissemination::init(unspecified(8888));
    let member = GroupMember { suspicion: Suspicion::Suspect, incarnation: 1 };
    dissemination.add_suspect(loopback(1), member);
    dissemination.add_suspect(loopback(1), member);
    dissemination.add_confirmed(loopback(2), GroupMember { suspicion: Suspicion::Confirm, incarnation: 0 });
    assert_eq!(dissemination.suspected.len(), 1);
    assert_eq!(dissemination.confirmed.len(), 1);
    dissemination.remove_suspected(&loopback(1));
    dissemination.remove_confirmed(&loopback(3));
    assert_eq!(dissemination.suspected.len(), 0);
    assert_eq!(dissemination.confirmed.len(), 1);
    let origin = loopback(8889);
    assert_eq!(
        dissemination_replies(DisseminationMessage::PingReq, origin),
        vec![(DisseminationMessage::Ping, unspecified(25055)), (DisseminationMessage::Ack, origin)]
    );
}

#[test]
fn dissemination_probe_addresses_do_not_parse() {
    assert_eq!(SocketAddress::parse("0.0.0.0:250200"), None);
    assert_eq!(SocketAddress::parse("0.0.0.0:250202"), None);
}

#[test]
fn server_init() {
    let test_socket_address = SocketAddress::parse("0.0.0.0:25000").unwrap();
    let test_membership_server = MembershipServer::init(test_socket_address);
    assert_eq!(&test_membership_server.socket_address.to_text(), "0.0.0.0:25000");
}

fn receive(bytes: &[u8]) -> Message {
    if !Message::is_message(bytes) {
        panic!("received unexpected bytes!");
    }
    MembershipServer::receive_bytes(bytes)
}

#[test]
fn receive_bytes_ack() {
    assert_eq!(receive(b"ack"), Message::Ack);
}

#[test]
fn receive_bytes_ping() {
    assert_eq!(receive(b"ping"), Message::Ping);
}

#[test]
fn receive_bytes_ping_req() {
    assert_eq!(receive(b"ping-req"), Message::PingReq);
}

#[test]
#[should_panic]
fn receive_bytes_panic() {
    let _ = receive(b"something to panic!");
}

#[test]
fn socket_addresses_are_read_as_address_colon_port() {
    assert_eq!(SocketAddress::parse("127.0.0.1:1234"), Some(loopback(1234)));
    assert_eq!(SocketAddress::parse("10.0.0.2:0080"), Some(SocketAddress { ip: IpAddress::V4(Ipv4Address { a: 10, b: 0, c: 0, d: 2 }), port: 80 }));
    assert_eq!(SocketAddress::parse("0.0.0.0:65535"), Some(unspecified(65535)));
    for bad in ["", "127.0.0.1", "127.0.0.1:", "127.0.0.1:65536", "127.0.0.1:+80", ":80", "127.0.0:80", "127.0.0.1:8a", "127.0.0.1:80:1"] {
        assert_eq!(SocketAddress::parse(bad), None, "{bad}");
    }
    let address = SocketAddress { ip: IpAddress::V4(Ipv4Address { a: 192, b: 168, c: 1, d: 20 }), port: 25000 };
    assert_eq!(SocketAddress::parse(&address.to_text()), Some(address));
}

#[test]
fn ports_are_read_as_sixteen_bit_numbers() {
    assert_eq!(parse_port("10000"), Some(10000));
    assert_eq!(parse_port("+25000"), Some(25000));
    assert_eq!(parse_port("00042"), Some(42));
    assert_eq!(parse_port("65535"), Some(65535));
    for bad in ["", "+", "65536", "-1", "1 ", "12a", "++1", "99999999999"] {
        assert_eq!(parse_port(bad), None, "{bad}");
    }
    for text in ["0", "7", "65535", "+1", "0010"] {
        assert_eq!(parse_port(text), text.parse::<u16>().ok(), "{text}");
    }
}
