use flexbuffers::{Builder, BuilderOptions, FlexBufferType, Pushable, Reader};

use meridian::flex::{FlexEntry, FlexValue};
use meridian::grpc::ExternalClientGrpcServer;
use meridian::membership::message::{MalformedMessage, Message};
use meridian::net::{IpAddress, Ipv4Address};
use meridian::node::Node;
use meridian::rpc::append_entries::{AppendEntriesArguments, AppendEntriesResults};
use meridian::rpc::membership::MembershipNode;
use meridian::rpc::request_vote::{RequestVoteArguments, RequestVoteResults};
use meridian::rpc;
use meridian::rpc::Data;

fn decode_value(reader: &Reader<&[u8]>) -> FlexValue {
    match reader.flexbuffer_type() {
        FlexBufferType::Map => {
            let map = reader.as_map();
            let mut entries = Vec::new();
            for (key, value) in map.iter_keys().zip(map.iter_values()) {
                entries.push(FlexEntry { key: key.to_string(), value: decode_value(&value) });
            }
            FlexValue::Table(entries)
        }
        FlexBufferType::String => FlexValue::Str(reader.as_str().to_string()),
        FlexBufferType::UInt | FlexBufferType::Int | FlexBufferType::Float => {
            FlexValue::UInt(reader.as_u64())
        }
        FlexBufferType::Bool => FlexValue::Bool(reader.as_bool()),
        FlexBufferType::VectorUInt
        | FlexBufferType::VectorUInt2
        | FlexBufferType::VectorUInt3
        | FlexBufferType::VectorUInt4 => {
            FlexValue::UInts(reader.as_vector().iter().map(|r| r.as_u32()).collect())
        }
        t if t.is_vector() => {
            FlexValue::Vector(reader.as_vector().iter().map(|r| decode_value(&r)).collect())
        }
        _ => FlexValue::Null,
    }
}

/// The document that FlexBuffers bytes hold.
fn decode(bytes: &[u8]) -> Result<FlexValue, flexbuffers::ReaderError> {
    let root = Reader::get_root(bytes)?;
    Ok(decode_value(&root))
}

/// Reads a membership message from its bytes, refusing bytes that name no
/// message as the service does.
fn read_message(
    bytes: &[u8],
) -> Result<(Message, Node, Vec<Node>, Vec<Node>, Vec<Node>), MalformedMessage> {
    let doc = decode(bytes).map_err(|_| MalformedMessage)?;
    if Message::message_kind(&doc).is_none() {
        panic!("could not parse incoming udp message...");
    }
    Message::from_list(&doc)
}

fn test_node() -> Node {
    let address = IpAddress::parse("0.0.0.0").unwrap();
    Node::init(address, 10000, 15000, 20000)
}

fn round_trip(message: Message) {
    let node = test_node();
    let alive = vec![node];
    let suspected = vec![node];
    let confirmed = vec![node];
    let bytes = message.build_bytes(&node, &alive, &suspected, &confirmed);
    assert!(!bytes.is_empty());
    let (read, sender, alive, suspected, confirmed) = read_message(&bytes).unwrap();
    assert_eq!(read, message);
    assert_eq!(sender.id_version(), 4);
    assert_eq!(alive.len(), 1);
    assert_eq!(suspected.len(), 1);
    assert_eq!(confirmed.len(), 1);
}

#[test]
fn ack() {
    round_trip(Message::Ack);
}

#[test]
fn ping() {
    round_trip(Message::Ping);
}

#[test]
fn ping_req() {
    round_trip(Message::PingReq);
}

#[test]
#[should_panic]
fn from_list_panic() {
    let bad_message_data = b"bad_data";
    let _ = read_message(bad_message_data).unwrap();
}

#[test]
fn message_bytes_give_back_every_field() {
    let sender = Node {
        id: 0x1234_5678_9abc_4def_8123_4567_89ab_cdef,
        address: IpAddress::V4(Ipv4Address { a: 10, b: 1, c: 200, d: 7 }),
        client_port: 1,
        cluster_port: 65535,
        membership_port: 25000,
    };
    let other = Node {
        id: 0xffff_ffff_ffff_4fff_bfff_ffff_ffff_ffff,
        address: IpAddress::V4(Ipv4Address { a: 127, b: 0, c: 0, d: 1 }),
        client_port: 10000,
        cluster_port: 15000,
        membership_port: 20000,
    };
    let bytes = Message::PingReq.build_bytes(&sender, &[other], &[], &[sender, other]);
    let (message, node, alive, suspected, confirmed) = read_message(&bytes).unwrap();
    assert_eq!(message, Message::PingReq);
    assert_eq!(node, sender);
    assert_eq!(alive, vec![other]);
    assert!(suspected.is_empty());
    assert_eq!(confirmed, vec![sender, other]);
}

fn entry(key: &str, value: FlexValue) -> FlexEntry {
    FlexEntry { key: String::from(key), value }
}

fn node_value(id: &str, address: &str, client_port: FlexValue) -> FlexValue {
    FlexValue::Table(vec![
        entry("id", FlexValue::Str(String::from(id))),
        entry("address", FlexValue::Str(String::from(address))),
        entry("client_port", client_port),
        entry("cluster_port", FlexValue::UInt(70000)),
    ])
}

#[test]
fn fields_are_read_as_the_reader_coerces_them() {
    let id = "67e55044-10b1-426f-9247-bb680e5fe0c8";
    let doc = FlexValue::Table(vec![
        entry("message", FlexValue::Str(String::from("ping"))),
        entry("node", node_value(id, "10.0.0.1", FlexValue::Str(String::from("+8080")))),
        entry(
            "alive_list",
            FlexValue::Table(vec![entry("x", node_value(id, "10.0.0.2", FlexValue::UInts(vec![1, 2])))]),
        ),
        entry("suspected_list", FlexValue::UInts(vec![])),
    ]);
    let (message, node, alive, suspected, confirmed) = Message::from_list(&doc).unwrap();
    assert_eq!(message, Message::Ping);
    assert_eq!(node.id, 0x67e55044_10b1_426f_9247_bb680e5fe0c8);
    assert_eq!(node.address, IpAddress::V4(Ipv4Address { a: 10, b: 0, c: 0, d: 1 }));
    assert_eq!(node.client_port, 8080);
    assert_eq!(node.cluster_port, 0);
    assert_eq!(node.membership_port, 0);
    assert_eq!(alive.len(), 1);
    assert_eq!(alive[0].address, IpAddress::V4(Ipv4Address { a: 10, b: 0, c: 0, d: 2 }));
    assert_eq!(alive[0].client_port, 2);
    assert!(suspected.is_empty());
    assert!(confirmed.is_empty());
}

#[test]
fn lists_of_numbers_hold_no_nodes() {
    let node = test_node();
    let mut doc = Message::Ack.build_list(&node, &[], &[], &[]);
    if let FlexValue::Table(entries) = &mut doc {
        entries[3].value = FlexValue::UInts(vec![7]);
    }
    assert!(Message::from_list(&doc).is_err());
}

#[test]
fn message_without_a_node_is_malformed() {
    let doc = FlexValue::Table(vec![
        FlexEntry { key: String::from("message"), value: FlexValue::Str(String::from("ack")) },
        FlexEntry { key: String::from("alive_list"), value: FlexValue::Vector(vec![]) },
    ]);
    assert_eq!(Message::message_kind(&doc), Some(Message::Ack));
    assert!(Message::from_list(&doc).is_err());
}

#[test]
fn message_with_a_bad_address_is_malformed() {
    let node = test_node();
    let mut doc = Message::Ping.build_list(&node, &[], &[], &[]);
    if let FlexValue::Table(entries) = &mut doc {
        if let FlexValue::Table(fields) = &mut entries[1].value {
            fields[1].value = FlexValue::Str(String::from("256.0.0.1"));
        }
    }
    assert!(Message::from_list(&doc).is_err());
}

#[test]
fn unknown_message_names_are_refused() {
    let doc = FlexValue::Table(vec![FlexEntry {
        key: String::from("message"),
        value: FlexValue::Str(String::from("ping-req")),
    }]);
    assert_eq!(Message::message_kind(&doc), None);
    assert_eq!(Message::message_kind(&FlexValue::UInt(1)), None);
}

#[test]
fn node_init() {
    let test_node = test_node();
    assert_eq!(test_node.id_version(), 4);
    assert_eq!(test_node.address.to_text().as_str(), "0.0.0.0");
    assert_eq!(test_node.client_port, 10000);
    assert_eq!(test_node.cluster_port, 15000);
    assert_eq!(test_node.membership_port, 20000);
}

#[test]
fn build_address() {
    let test_node = test_node();
    let test_socket_address = test_node.build_address(test_node.client_port);
    assert_eq!(test_socket_address.to_text().as_str(), "0.0.0.0:10000");
}

#[test]
fn node_identifiers_are_random_version_four_uuids() {
    let first = test_node();
    let second = test_node();
    assert_ne!(first.id, second.id);
    let parsed = uuid::Uuid::from_u128(first.id);
    assert_eq!(parsed.get_version_num(), 4);
    assert_eq!(first.id_text(), parsed.to_string());
}

#[test]
fn membership_address_uses_the_membership_port() {
    let node = test_node();
    let address = node.membership_address();
    assert_eq!(address.to_text().as_str(), "0.0.0.0:20000");
}

#[test]
fn membership_node() {
    let test_node = test_node();
    let test_membership_node = MembershipNode::build(&test_node);
    assert_eq!(test_membership_node.address, "0.0.0.0");
    assert_eq!(test_membership_node.client_port, "10000");
    assert_eq!(test_membership_node.cluster_port, "15000");
    assert_eq!(test_membership_node.membership_port, "20000");
    assert_eq!(test_membership_node.id, uuid::Uuid::from_u128(test_node.id).to_string());
}

#[test]
fn ip_addresses_are_read_and_written_in_dotted_decimal() {
    let ip = IpAddress::parse("192.168.10.255").unwrap();
    assert_eq!(ip, IpAddress::V4(Ipv4Address { a: 192, b: 168, c: 10, d: 255 }));
    assert_eq!(ip.to_text(), "192.168.10.255");
    assert_eq!(IpAddress::parse("0.0.0.0"), Some(IpAddress::V4(Ipv4Address { a: 0, b: 0, c: 0, d: 0 })));
    for bad in ["", "1.2.3", "1.2.3.4.5", "256.1.1.1", "01.2.3.4", "1..2.3", "a.b.c.d", "1.2.3.4 "] {
        assert_eq!(IpAddress::parse(bad), None, "{bad}");
    }
}

#[test]
fn build_ip_address() {
    let test_ip_address = rpc::build_ip_address();
    assert_eq!(test_ip_address.to_text().as_str(), "127.0.0.1");
}

#[test]
fn build_socket_address() {
    let test_ip_address = IpAddress::V4(Ipv4Address { a: 127, b: 0, c: 0, d: 1 });
    let test_port = 1234;
    let test_socket_address = rpc::build_socket_address(test_ip_address, test_port);
    assert_eq!(test_socket_address.to_text().as_str(), "127.0.0.1:1234");
}

fn check_root(bytes: &[u8], len: usize, kind: &str) -> Vec<u8> {
    assert_eq!(bytes.len(), len);
    let mut test_flexbuffers_builder = Builder::new(BuilderOptions::SHARE_NONE);
    bytes.push_to_builder(&mut test_flexbuffers_builder);
    let view = test_flexbuffers_builder.view().to_vec();
    let root = Reader::get_root(view.as_slice()).unwrap();
    assert!(root.is_aligned());
    assert_eq!(root.bitwidth().n_bytes(), 1);
    assert_eq!(root.length(), 2);
    assert_eq!(root.as_map().idx("data").as_str(), kind);
    view
}

#[test]
fn data_append_entries_arguments() {
    let test_append_entries_arguments = AppendEntriesArguments {
        term: 0,
        leader_id: String::from("some_leader_id"),
        prev_log_index: 0,
        prev_log_term: 0,
        entries: Vec::with_capacity(0),
        leader_commit: 0,
    };
    let data = Data::AppendEntriesArguments(test_append_entries_arguments).build_bytes();
    let view = check_root(&data, 157, "append_entries_arguments");
    let root = Reader::get_root(view.as_slice()).unwrap();
    let details = root.as_map().idx("details").as_map();
    assert_eq!(details.idx("term").as_u8(), 0);
    assert_eq!(details.idx("leader_id").as_str(), "some_leader_id");
    assert_eq!(details.idx("prev_log_index").as_u8(), 0);
    assert_eq!(details.idx("prev_log_term").as_u8(), 0);
    assert_eq!(details.idx("entries").as_vector().len(), 0);
    assert_eq!(details.idx("leader_commit").as_u8(), 0);
}

#[test]
fn data_append_entries_results() {
    let test_append_entries_results = AppendEntriesResults { term: 0, success: false };
    let data = Data::AppendEntriesResults(test_append_entries_results).build_bytes();
    let view = check_root(&data, 73, "append_entries_results");
    let root = Reader::get_root(view.as_slice()).unwrap();
    let details = root.as_map().idx("details").as_map();
    assert_eq!(details.idx("term").as_u8(), 0);
    assert!(!details.idx("success").as_bool());
}

#[test]
fn data_request_vote_arguments() {
    let test_request_vote_arguments = RequestVoteArguments {
        term: 0,
        candidate_id: String::from("some_candidate_id"),
        last_log_index: 0,
        last_log_term: 0,
    };
    let data = Data::RequestVoteArguments(test_request_vote_arguments).build_bytes();
    let view = check_root(&data, 132, "request_vote_arguments");
    let root = Reader::get_root(view.as_slice()).unwrap();
    let details = root.as_map().idx("details").as_map();
    assert_eq!(details.idx("term").as_u8(), 0);
    assert_eq!(details.idx("candidate_id").as_str(), "some_candidate_id");
    assert_eq!(details.idx("last_log_index").as_u8(), 0);
    assert_eq!(details.idx("last_log_term").as_u8(), 0);
}

#[test]
fn data_request_vote_results() {
    let test_request_vote_results = RequestVoteResults { term: 0, vote_granted: false };
    let data = Data::RequestVoteResults(test_request_vote_results).build_bytes();
    let view = check_root(&data, 76, "request_vote_results");
    let root = Reader::get_root(view.as_slice()).unwrap();
    let details = root.as_map().idx("details").as_map();
    assert_eq!(details.idx("term").as_u8(), 0);
    assert!(!details.idx("vote_granted").as_bool());
}

#[test]
fn payload_fields_are_carried_over() {
    let arguments = AppendEntriesArguments {
        term: 7,
        leader_id: String::from("leader"),
        prev_log_index: 3,
        prev_log_term: 6,
        entries: vec![1, 2, 300000],
        leader_commit: 2,
    };
    let read = decode(&Data::AppendEntriesArguments(arguments).build_bytes()).unwrap();
    let FlexValue::Table(entries) = read else { panic!("not a map") };
    let FlexValue::Table(details) = &entries[1].value else { panic!("no details") };
    let field = |name: &str| details.iter().find(|e| e.key == name).map(|e| &e.value);
    assert!(matches!(field("term"), Some(FlexValue::UInt(7))));
    assert!(matches!(field("prev_log_term"), Some(FlexValue::UInt(6))));
    match field("entries") {
        Some(FlexValue::UInts(v)) => assert_eq!(v, &vec![1, 2, 300000]),
        other => panic!("entries read as {other:?}"),
    }
    match field("leader_id") {
        Some(FlexValue::Str(s)) => assert_eq!(s, "leader"),
        other => panic!("leader id read as {other:?}"),
    }
}

#[test]
fn append_entries_arguments() {
    let test_append_entries_arguments = AppendEntriesArguments {
        term: 0,
        leader_id: String::from("some_leader_id"),
        prev_log_index: 0,
        prev_log_term: 0,
        entries: Vec::with_capacity(0),
        leader_commit: 0,
    };
    assert_eq!(test_append_entries_arguments.term, 0);
    assert_eq!(test_append_entries_arguments.leader_id, "some_leader_id");
    assert_eq!(test_append_entries_arguments.prev_log_index, 0);
    assert_eq!(test_append_entries_arguments.prev_log_term, 0);
    assert_eq!(test_append_entries_arguments.entries.len(), 0);
    assert_eq!(test_append_entries_arguments.leader_commit, 0);
}

#[test]
fn append_entries_results() {
    let test_append_entries_results = AppendEntriesResults { term: 0, success: false };
    assert_eq!(test_append_entries_results.term, 0);
    assert!(!test_append_entries_results.success);
}

#[test]
fn request_vote_arguments() {
    let test_request_vote_arguments = RequestVoteArguments {
        term: 0,
        candidate_id: String::from("some_candidate_id"),
        last_log_index: 0,
        last_log_term: 0,
    };
    assert_eq!(test_request_vote_arguments.term, 0);
    assert_eq!(test_request_vote_arguments.candidate_id, "some_candidate_id");
    assert_eq!(test_request_vote_arguments.last_log_index, 0);
    assert_eq!(test_request_vote_arguments.last_log_term, 0);
}

#[test]
fn request_vote_results() {
    let test_request_vote_results = RequestVoteResults { term: 0, vote_granted: false };
    assert_eq!(test_request_vote_results.term, 0);
    assert!(!test_request_vote_results.vote_granted);
}

#[test]
fn client_server_init() {
    let test_external_client_grpc_server = ExternalClientGrpcServer::init();
    assert!(matches!(test_external_client_grpc_server, ExternalClientGrpcServer {}));
}

#[test]
fn hello() {
    let test_external_client_grpc_server = ExternalClientGrpcServer::init();
    let test_response = test_external_client_grpc_server.hello(String::from("test_hello"));
    assert_eq!(test_response.as_str(), "test_hello");
}

#[test]
fn a_document_without_a_root_map_writes_no_bytes() {
    assert!(meridian::encoding::encode(&FlexValue::UInt(3)).is_empty());
}

fn read_id(id: &str) -> Result<u128, MalformedMessage> {
    let doc = FlexValue::Table(vec![
        entry("message", FlexValue::Str(String::from("ack"))),
        entry("node", node_value(id, "10.0.0.1", FlexValue::UInt(1))),
    ]);
    Message::from_list(&doc).map(|(_, node, _, _, _)| node.id)
}

#[test]
fn identifiers_are_read_in_every_form_the_uuid_crate_accepts() {
    let value = 0x67e55044_10b1_426f_9247_bb680e5fe0c8u128;
    assert_eq!(read_id("67e5504410b1426f9247bb680e5fe0c8"), Ok(value));
    assert_eq!(read_id("67E55044-10B1-426F-9247-BB680E5FE0C8"), Ok(value));
    assert_eq!(read_id("{67e55044-10b1-426f-9247-bb680e5fe0c8}"), Ok(value));
    assert_eq!(read_id("URN:uuid:67e55044-10b1-426f-9247-bb680e5fe0c8"), Ok(value));
    assert_eq!(read_id("urn:uuid:67e5504410b1426f9247bb680e5fe0c8"), Err(MalformedMessage));
    assert_eq!(read_id("67e55044-10b1-426f-9247_bb680e5fe0c8"), Err(MalformedMessage));
    assert_eq!(read_id("(67e55044-10b1-426f-9247-bb680e5fe0c8)"), Err(MalformedMessage));
    assert_eq!(read_id("67e5504410b1426f9247bb680e5fe0cg"), Err(MalformedMessage));
}
