use meridian::communication::membership::Message as MulticastMessage;
use meridian::communication::membership_dissemination::Message as DisseminationMessage;
use meridian::communication::membership_dynamic_join::Message as JoinMessage;
use meridian::communication::membership_maintenance::Message as MaintenanceMessage;

#[test]
fn membership_message_ack() {
    let test_message_ack = MulticastMessage::Ack.build();

    assert_eq!(test_message_ack, b"ack");
    assert_eq!(test_message_ack.len(), 3);
}

#[test]
fn message_failed() {
    let test_message_failed = MulticastMessage::Failed.build();

    assert_eq!(test_message_failed, b"failed");
    assert_eq!(test_message_failed.len(), 6);
}

#[test]
fn membership_message_ping() {
    let test_message_ping = MulticastMessage::Ping.build();

    assert_eq!(test_message_ping, b"ping");
    assert_eq!(test_message_ping.len(), 4);
}

#[test]
fn membership_message_ping_req() {
    let test_message_ping_req = MulticastMessage::PingReq.build();

    assert_eq!(test_message_ping_req, b"ping-req");
    assert_eq!(test_message_ping_req.len(), 8);
}

#[test]
fn membership_message_from_ack_bytes() {
    let test_ack_bytes = b"ack";
    let test_message_ack = MulticastMessage::from_bytes(test_ack_bytes);

    assert_eq!(test_message_ack, MulticastMessage::Ack);
}

#[test]
fn message_from_failed_bytes() {
    let test_failed_bytes = b"failed";
    let test_message_failed = MulticastMessage::from_bytes(test_failed_bytes);

    assert_eq!(test_message_failed, MulticastMessage::Failed);
}

#[test]
fn membership_message_from_ping_bytes() {
    let test_ping_bytes = b"ping";
    let test_message_ping = MulticastMessage::from_bytes(test_ping_bytes);

    assert_eq!(test_message_ping, MulticastMessage::Ping);
}

#[test]
fn membership_message_from_ping_req_bytes() {
    let test_ping_req_bytes = b"ping-req";
    let test_message_ping_req = MulticastMessage::from_bytes(test_ping_req_bytes);

    assert_eq!(test_message_ping_req, MulticastMessage::PingReq);
}

#[test]
fn membership_dissemination_message_ack() {
    let test_message_ack = DisseminationMessage::Ack.build();

    assert_eq!(test_message_ack, b"ack");
    assert_eq!(test_message_ack.len(), 3);
}

#[test]
fn membership_dissemination_message_ping() {
    let test_message_ping = DisseminationMessage::Ping.build();

    assert_eq!(test_message_ping, b"ping");
    assert_eq!(test_message_ping.len(), 4);
}

#[test]
fn membership_dissemination_message_ping_req() {
    let test_message_ping_req = DisseminationMessage::PingReq.build();

    assert_eq!(test_message_ping_req, b"ping-req");
    assert_eq!(test_message_ping_req.len(), 8);
}

#[test]
fn membership_dissemination_message_from_ack_bytes() {
    let test_message_ack = DisseminationMessage::from_bytes(b"ack");

    assert_eq!(test_message_ack, DisseminationMessage::Ack);
}

#[test]
fn membership_dissemination_message_from_ping_bytes() {
    let test_message_ping = DisseminationMessage::from_bytes(b"ping");

    assert_eq!(test_message_ping, DisseminationMessage::Ping);
}

#[test]
fn membership_dissemination_message_from_ping_req_bytes() {
    let test_message_ping_req = DisseminationMessage::from_bytes(b"ping-req");

    assert_eq!(test_message_ping_req, DisseminationMessage::PingReq);
}

#[test]
fn membership_maintenance_message_ack() {
    let test_message_ack = MaintenanceMessage::Ack.build();

    assert_eq!(test_message_ack, b"ack");
    assert_eq!(test_message_ack.len(), 3);
}

#[test]
fn membership_maintenance_message_ping() {
    let test_message_ping = MaintenanceMessage::Ping.build();

    assert_eq!(test_message_ping, b"ping");
    assert_eq!(test_message_ping.len(), 4);
}

#[test]
fn membership_maintenance_message_ping_req() {
    let test_message_ping_req = MaintenanceMessage::PingReq.build();

    assert_eq!(test_message_ping_req, b"ping-req");
    assert_eq!(test_message_ping_req.len(), 8);
}

#[test]
fn membership_maintenance_message_from_ack_bytes() {
    let test_message_ack = MaintenanceMessage::from_bytes(b"ack");

    assert_eq!(test_message_ack, MaintenanceMessage::Ack);
}

#[test]
fn membership_maintenance_message_from_ping_bytes() {
    let test_message_ping = MaintenanceMessage::from_bytes(b"ping");

    assert_eq!(test_message_ping, MaintenanceMessage::Ping);
}

#[test]
fn membership_maintenance_message_from_ping_req_bytes() {
    let test_message_ping_req = MaintenanceMessage::from_bytes(b"ping-req");

    assert_eq!(test_message_ping_req, MaintenanceMessage::PingReq);
}

#[test]
fn message_join() {
    let test_message_join = JoinMessage::Join.build();

    assert_eq!(test_message_join, b"join");
    assert_eq!(test_message_join.len(), 4);
}

#[test]
fn message_from_join_bytes() {
    let test_message_join = JoinMessage::from_bytes(b"join");

    assert_eq!(test_message_join, JoinMessage::Join);
}

#[test]
fn words_are_recognised_and_others_refused() {
    assert!(MulticastMessage::is_message(b"failed"));
    assert!(!MulticastMessage::is_message(b"fail"));
    assert!(MaintenanceMessage::is_message(b"ping-req"));
    assert!(!MaintenanceMessage::is_message(b"failed"));
    assert!(!MaintenanceMessage::is_message(b"something to panic!"));
    assert!(DisseminationMessage::is_message(b"ack"));
    assert!(!DisseminationMessage::is_message(b""));
    assert!(JoinMessage::is_message(b"join"));
    assert!(!JoinMessage::is_message(b"joins"));
}

#[test]
fn every_word_reads_back_as_its_message() {
    for message in [
        MulticastMessage::Ack,
        MulticastMessage::Failed,
        MulticastMessage::Ping,
        MulticastMessage::PingReq,
    ] {
        let bytes = message.build();
        assert_eq!(MulticastMessage::from_bytes(bytes), message);
    }
    for message in [MaintenanceMessage::Ack, MaintenanceMessage::Ping, MaintenanceMessage::PingReq] {
        let bytes = message.build();
        assert_eq!(MaintenanceMessage::from_bytes(bytes), message);
    }
}
