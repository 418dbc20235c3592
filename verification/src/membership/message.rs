use vstd::prelude::*;

use crate::encoding::{doc_keys, encode, flex_bytes, writable};
use crate::flex::{
    doc_lookup, entry_docs, lemma_entry_docs, lemma_value_docs, lookup, str_entry, text_equal,
    uint_entry, value_docs, value_entry, FlexDoc, FlexEntry, FlexValue,
};
use crate::net::{ip_parsed, ip_text, law_parse_of_text, IpAddress};
use crate::node::{lemma_uuid_text_parsed, parse_uuid, uuid_parsed, uuid_text, Node};
use crate::text::{parse_port, port_parsed};

verus! {

/// The messages of the gossip protocol: a probe (`Ping`), a request to
/// probe on the sender's behalf (`PingReq`) and the answer (`Ack`). Each
/// carries the sender and the members it holds alive, suspected and
/// confirmed as failed.
#[derive(Clone, Copy, Debug, PartialEq, Eq, Structural)]
pub enum Message {
    Ack,
    Ping,
    PingReq,
}

/// The document is not a membership message of the form this library
/// writes, or one of its nodes has an identifier or an address that does
/// not parse.
#[derive(Clone, Copy, Debug, PartialEq, Eq, Structural)]
pub struct MalformedMessage;

/// The name under which a message is written: `ack`, `ping`, `ping_req`.
pub open spec fn message_name(message: Message) -> Seq<char> {
    match message {
        Message::Ack => "ack"@,
        Message::Ping => "ping"@,
        Message::PingReq => "ping_req"@,
    }
}

/// The document of a node: its identifier and address as text and its
/// three ports.
pub open spec fn node_doc(node: Node) -> FlexDoc {
    FlexDoc::Table(
        seq![
            ("id"@, FlexDoc::Str(uuid_text(node.id))),
            ("address"@, FlexDoc::Str(ip_text(node.address))),
            ("client_port"@, FlexDoc::UInt(node.client_port as nat)),
            ("cluster_port"@, FlexDoc::UInt(node.cluster_port as nat)),
            ("membership_port"@, FlexDoc::UInt(node.membership_port as nat)),
        ],
    )
}

/// The document of a sequence of nodes.
pub open spec fn nodes_doc(nodes: Seq<Node>) -> FlexDoc {
    FlexDoc::Vector(Seq::new(nodes.len(), |i: int| node_doc(nodes[i])))
}

/// The document of a membership message.
pub open spec fn list_doc(
    message: Message,
    node: Node,
    alive: Seq<Node>,
    suspected: Seq<Node>,
    confirmed: Seq<Node>,
) -> FlexDoc {
    FlexDoc::Table(
        seq![
            ("message"@, FlexDoc::Str(message_name(message))),
            ("node"@, node_doc(node)),
            ("alive_list"@, nodes_doc(alive)),
            ("suspected_list"@, nodes_doc(suspected)),
            ("confirmed_list"@, nodes_doc(confirmed)),
        ],
    )
}

/// The text held by a looked-up value, when it is a string.
pub open spec fn doc_text(value: Option<FlexDoc>) -> Option<Seq<char>> {
    match value {
        Some(FlexDoc::Str(text)) => Some(text),
        _ => None,
    }
}

/// A count as a 16-bit number: itself when it fits, zero otherwise.
pub open spec fn small(n: nat) -> u16 {
    if n < 0x1_0000 {
        n as u16
    } else {
        0
    }
}

/// The 16-bit number a looked-up value is read as: an unsigned integer
/// that fits; the number a string spells (an optional `+` and decimal
/// digits) when it fits; the length of a vector or map when it fits; zero
/// for anything else, a missing value included.
pub open spec fn doc_port(value: Option<FlexDoc>) -> u16 {
    match value {
        Some(FlexDoc::UInt(n)) => small(n),
        Some(FlexDoc::Str(text)) => match port_parsed(text) {
            Some(p) => p,
            None => 0,
        },
        Some(FlexDoc::UInts(v)) => small(v.len()),
        Some(FlexDoc::Vector(v)) => small(v.len()),
        Some(FlexDoc::Table(e)) => small(e.len()),
        _ => 0,
    }
}

/// The node a document describes, if it is a map with a parsable
/// identifier and a parsable address; its ports are read as [`doc_port`]
/// reads them.
pub open spec fn node_of_doc(doc: FlexDoc) -> Option<Node> {
    match doc {
        FlexDoc::Table(entries) => {
            let id = doc_text(doc_lookup(entries, "id"@));
            let address = doc_text(doc_lookup(entries, "address"@));
            if id is Some && address is Some && uuid_parsed(id->0) is Some && ip_parsed(
                address->0,
            ) is Some {
                Some(
                    Node {
                        id: uuid_parsed(id->0)->0,
                        address: ip_parsed(address->0)->0,
                        client_port: doc_port(doc_lookup(entries, "client_port"@)),
                        cluster_port: doc_port(doc_lookup(entries, "cluster_port"@)),
                        membership_port: doc_port(doc_lookup(entries, "membership_port"@)),
                    },
                )
            } else {
                None
            }
        },
        _ => None,
    }
}

/// The nodes that a sequence of documents describes, if each describes one.
pub open spec fn nodes_of_docs(docs: Seq<FlexDoc>) -> Option<Seq<Node>> {
    if forall|i: int| 0 <= i < docs.len() ==> #[trigger] node_of_doc(docs[i]) is Some {
        Some(Seq::new(docs.len(), |i: int| node_of_doc(docs[i])->0))
    } else {
        None
    }
}

/// The nodes a looked-up value describes: the nodes of its elements for a
/// vector, of its values for a map; an empty typed vector, or any value
/// that is no vector or map (a missing value included), describes none.
/// A typed vector of numbers with elements describes no nodes at all.
pub open spec fn nodes_of_doc(doc: Option<FlexDoc>) -> Option<Seq<Node>> {
    match doc {
        Some(FlexDoc::Vector(docs)) => nodes_of_docs(docs),
        Some(FlexDoc::Table(entries)) => nodes_of_docs(
            entries.map_values(|e: (Seq<char>, FlexDoc)| e.1),
        ),
        Some(FlexDoc::UInts(v)) => if v.len() == 0 {
            Some(Seq::empty())
        } else {
            None
        },
        _ => Some(Seq::empty()),
    }
}

/// The kind of message a document carries, if it names one.
pub open spec fn message_of(doc: FlexDoc) -> Option<Message> {
    match doc {
        FlexDoc::Table(entries) => match doc_text(doc_lookup(entries, "message"@)) {
            Some(name) => if name == message_name(Message::Ack) {
                Some(Message::Ack)
            } else if name == message_name(Message::Ping) {
                Some(Message::Ping)
            } else if name == message_name(Message::PingReq) {
                Some(Message::PingReq)
            } else {
                None
            },
            None => None,
        },
        _ => None,
    }
}

/// What a membership message document holds: the message, the sender and
/// the three lists.
pub open spec fn list_of_doc(doc: FlexDoc) -> Option<
    (Message, Node, Seq<Node>, Seq<Node>, Seq<Node>),
> {
    match doc {
        FlexDoc::Table(entries) => {
            let node = match doc_lookup(entries, "node"@) {
                Some(d) => node_of_doc(d),
                None => None,
            };
            let alive = nodes_of_doc(doc_lookup(entries, "alive_list"@));
            let suspected = nodes_of_doc(doc_lookup(entries, "suspected_list"@));
            let confirmed = nodes_of_doc(doc_lookup(entries, "confirmed_list"@));
            if message_of(doc) is Some && node is Some && alive is Some && suspected is Some
                && confirmed is Some {
                Some((message_of(doc)->0, node->0, alive->0, suspected->0, confirmed->0))
            } else {
                None
            }
        },
        _ => None,
    }
}

/// The document of a node.
pub fn node_document(node: &Node) -> (doc: FlexValue)
    ensures
        doc.doc() == node_doc(*node),
        node_of_doc(doc.doc()) == Some(*node),
{
    let mut entries: Vec<FlexEntry> = Vec::new();
    let id_text = node.id_text();
    proof {
        lemma_node_of_node_doc(*node);
    }
    entries.push(str_entry("id", id_text));
    entries.push(str_entry("address", node.address.to_text()));
    entries.push(uint_entry("client_port", node.client_port as u64));
    entries.push(uint_entry("cluster_port", node.cluster_port as u64));
    entries.push(uint_entry("membership_port", node.membership_port as u64));
    proof {
        lemma_entry_docs(entries@);
        assert(entry_docs(entries@) =~= node_doc(*node)->Table_0);
    }
    FlexValue::Table(entries)
}

/// The document of a sequence of nodes.
pub fn nodes_document(nodes: &[Node]) -> (doc: FlexValue)
    ensures
        doc.doc() == nodes_doc(nodes@),
        nodes_of_doc(Some(doc.doc())) == Some(nodes@),
{
    let mut values: Vec<FlexValue> = Vec::new();
    let mut i: usize = 0;
    while i < nodes.len()
        invariant
            i <= nodes@.len(),
            values@.len() == i,
            forall|j: int| 0 <= j < i ==> #[trigger] values@[j].doc() == node_doc(nodes@[j]),
            forall|j: int| 0 <= j < i ==> #[trigger] node_of_doc(node_doc(nodes@[j])) == Some(
                nodes@[j],
            ),
        decreases nodes@.len() - i,
    {
        values.push(node_document(&nodes[i]));
        i = i + 1;
    }
    proof {
        lemma_value_docs(values@);
        let docs = nodes_doc(nodes@)->Vector_0;
        assert(value_docs(values@) =~= docs);
        assert forall|j: int| 0 <= j < docs.len() implies #[trigger] node_of_doc(docs[j]) == Some(
            nodes@[j],
        ) by {
            assert(docs[j] == node_doc(nodes@[j]));
        }
        assert(Seq::new(docs.len(), |j: int| node_of_doc(docs[j])->0) =~= nodes@);
    }
    FlexValue::Vector(values)
}

/// The text held by a value, when it is a string.
fn value_text(value: Option<&FlexValue>) -> (text: Option<&String>)
    ensures
        match value {
            Some(v) => match text {
                Some(t) => doc_text(Some(v.doc())) == Some(t@),
                None => doc_text(Some(v.doc())) is None,
            },
            None => text is None,
        },
{
    match value {
        Some(FlexValue::Str(t)) => Some(t),
        _ => None,
    }
}

/// A length as a 16-bit number, as [`small`] reads it.
fn small_length(n: usize) -> (value: u16)
    ensures
        value == small(n as nat),
{
    if n < 0x1_0000 {
        n as u16
    } else {
        0
    }
}

/// The 16-bit number a value is read as.
fn value_port(value: Option<&FlexValue>) -> (port: u16)
    ensures
        port == doc_port(
            match value {
                Some(v) => Some(v.doc()),
                None => None,
            },
        ),
{
    match value {
        Some(FlexValue::UInt(n)) => if *n < 0x1_0000 {
            *n as u16
        } else {
            0
        },
        Some(FlexValue::Str(text)) => match parse_port(text.as_str()) {
            Some(p) => p,
            None => 0,
        },
        Some(FlexValue::UInts(v)) => small_length(v.len()),
        Some(FlexValue::Vector(v)) => {
            proof {
                lemma_value_docs(v@);
            }
            small_length(v.len())
        },
        Some(FlexValue::Table(e)) => {
            proof {
                lemma_entry_docs(e@);
            }
            small_length(e.len())
        },
        _ => 0,
    }
}

/// The node a document describes.
pub fn node_from_document(doc: &FlexValue) -> (node: Option<Node>)
    ensures
        node == node_of_doc(doc.doc()),
{
    let entries = match doc {
        FlexValue::Table(entries) => entries,
        _ => return None,
    };
    let id_text = value_text(lookup(entries, "id"));
    let address_text = value_text(lookup(entries, "address"));
    let client_port = value_port(lookup(entries, "client_port"));
    let cluster_port = value_port(lookup(entries, "cluster_port"));
    let membership_port = value_port(lookup(entries, "membership_port"));
    let (id_text, address_text) = match (id_text, address_text) {
        (Some(i), Some(a)) => (i, a),
        _ => return None,
    };
    let id = match parse_uuid(id_text.as_str()) {
        Some(id) => id,
        None => return None,
    };
    let address = match IpAddress::parse(address_text.as_str()) {
        Some(ip) => ip,
        None => return None,
    };
    Some(Node { id, address, client_port, cluster_port, membership_port })
}

/// The nodes that the documents `docs` describe.
fn nodes_from_values(values: &Vec<FlexValue>, Ghost(docs): Ghost<Seq<FlexDoc>>) -> (nodes: Option<
    Vec<Node>,
>)
    requires
        docs.len() == values@.len(),
        forall|j: int| 0 <= j < values@.len() ==> #[trigger] docs[j] == values@[j].doc(),
    ensures
        match nodes {
            Some(v) => nodes_of_docs(docs) == Some(v@),
            None => nodes_of_docs(docs) is None,
        },
{
    let mut nodes: Vec<Node> = Vec::new();
    let mut i: usize = 0;
    while i < values.len()
        invariant
            docs.len() == values@.len(),
            forall|j: int| 0 <= j < values@.len() ==> #[trigger] docs[j] == values@[j].doc(),
            i <= values@.len(),
            nodes@.len() == i,
            forall|j: int| 0 <= j < i ==> #[trigger] node_of_doc(docs[j]) == Some(nodes@[j]),
        decreases values@.len() - i,
    {
        match node_from_document(&values[i]) {
            Some(node) => nodes.push(node),
            None => {
                assert(node_of_doc(docs[i as int]) is None);
                return None;
            },
        }
        i = i + 1;
    }
    assert(Seq::new(docs.len(), |j: int| node_of_doc(docs[j])->0) =~= nodes@);
    Some(nodes)
}

/// The nodes that the values of map entries describe.
fn nodes_from_entries(entries: &Vec<FlexEntry>) -> (nodes: Option<Vec<Node>>)
    ensures
        match nodes {
            Some(v) => nodes_of_docs(
                entry_docs(entries@).map_values(|e: (Seq<char>, FlexDoc)| e.1),
            ) == Some(v@),
            None => nodes_of_docs(
                entry_docs(entries@).map_values(|e: (Seq<char>, FlexDoc)| e.1),
            ) is None,
        },
{
    proof {
        lemma_entry_docs(entries@);
    }
    let ghost docs = entry_docs(entries@).map_values(|e: (Seq<char>, FlexDoc)| e.1);
    let mut nodes: Vec<Node> = Vec::new();
    let mut i: usize = 0;
    while i < entries.len()
        invariant
            docs == entry_docs(entries@).map_values(|e: (Seq<char>, FlexDoc)| e.1),
            docs.len() == entries@.len(),
            forall|j: int| 0 <= j < entries@.len() ==> #[trigger] docs[j] == entries@[j].value.doc(),
            i <= entries@.len(),
            nodes@.len() == i,
            forall|j: int| 0 <= j < i ==> #[trigger] node_of_doc(docs[j]) == Some(nodes@[j]),
        decreases entries@.len() - i,
    {
        match node_from_document(&entries[i].value) {
            Some(node) => nodes.push(node),
            None => {
                assert(node_of_doc(docs[i as int]) is None);
                return None;
            },
        }
        i = i + 1;
    }
    assert(Seq::new(docs.len(), |j: int| node_of_doc(docs[j])->0) =~= nodes@);
    Some(nodes)
}

/// The nodes a looked-up value describes.
pub fn nodes_from_document(doc: Option<&FlexValue>) -> (nodes: Option<Vec<Node>>)
    ensures
        match nodes {
            Some(v) => nodes_of_doc(
                match doc {
                    Some(d) => Some(d.doc()),
                    None => None,
                },
            ) == Some(v@),
            None => nodes_of_doc(
                match doc {
                    Some(d) => Some(d.doc()),
                    None => None,
                },
            ) is None,
        },
{
    match doc {
        Some(FlexValue::Vector(values)) => {
            proof {
                lemma_value_docs(values@);
            }
            nodes_from_values(values, Ghost(value_docs(values@)))
        },
        Some(FlexValue::Table(entries)) => nodes_from_entries(entries),
        Some(FlexValue::UInts(v)) => if v.len() == 0 {
            let empty: Vec<Node> = Vec::new();
            assert(empty@ =~= Seq::<Node>::empty());
            Some(empty)
        } else {
            None
        },
        _ => {
            let empty: Vec<Node> = Vec::new();
            assert(empty@ =~= Seq::<Node>::empty());
            Some(empty)
        },
    }
}

/// A node's document can be written: its five keys are distinct and hold
/// no NUL.
proof fn lemma_node_doc_writable(node: Node)
    ensures
        writable(node_doc(node)),
{
    reveal_strlit("id");
    reveal_strlit("address");
    reveal_strlit("client_port");
    reveal_strlit("cluster_port");
    reveal_strlit("membership_port");
    let entries = node_doc(node)->Table_0;
    let keys = doc_keys(entries);
    assert(keys =~= seq!["id"@, "address"@, "client_port"@, "cluster_port"@, "membership_port"@]);
    assert(keys.no_duplicates()) by {
        assert forall|i: int, j: int| 0 <= i < keys.len() && 0 <= j < keys.len() && i != j
            implies keys[i] != keys[j] by {
            assert(keys[i].len() != keys[j].len());
        }
    }
    assert forall|i: int| 0 <= i < entries.len() implies !(#[trigger] entries[i]).0.contains('\0') by {
        let k = entries[i].0;
        if k.contains('\0') {
            let j = choose|j: int| 0 <= j < k.len() && k[j] == '\0';
            assert(k[j] != '\0');
        }
    }
    assert forall|i: int| 0 <= i < entries.len() implies writable(#[trigger] entries[i].1) by {}
}

/// The document of a sequence of nodes can be written.
proof fn lemma_nodes_doc_writable(nodes: Seq<Node>)
    ensures
        writable(nodes_doc(nodes)),
{
    let values = nodes_doc(nodes)->Vector_0;
    assert forall|i: int| 0 <= i < values.len() implies writable(#[trigger] values[i]) by {
        lemma_node_doc_writable(nodes[i]);
    }
}

/// A membership message's document can be written: its keys are distinct
/// and hold no NUL, in the message and in each node.
pub proof fn lemma_list_doc_writable(
    message: Message,
    node: Node,
    alive: Seq<Node>,
    suspected: Seq<Node>,
    confirmed: Seq<Node>,
)
    ensures
        writable(list_doc(message, node, alive, suspected, confirmed)),
{
    reveal_strlit("message");
    reveal_strlit("node");
    reveal_strlit("alive_list");
    reveal_strlit("suspected_list");
    reveal_strlit("confirmed_list");
    lemma_node_doc_writable(node);
    lemma_nodes_doc_writable(alive);
    lemma_nodes_doc_writable(suspected);
    lemma_nodes_doc_writable(confirmed);
    let entries = list_doc(message, node, alive, suspected, confirmed)->Table_0;
    let keys = doc_keys(entries);
    assert(keys =~= seq!["message"@, "node"@, "alive_list"@, "suspected_list"@, "confirmed_list"@]);
    assert(keys.no_duplicates()) by {
        assert forall|i: int, j: int| 0 <= i < keys.len() && 0 <= j < keys.len() && i != j
            implies keys[i] != keys[j] by {
            if keys[i].len() == keys[j].len() {
                assert(keys[i][0] != keys[j][0]);
            }
        }
    }
    assert forall|i: int| 0 <= i < entries.len() implies !(#[trigger] entries[i]).0.contains('\0') by {
        let k = entries[i].0;
        if k.contains('\0') {
            let j = choose|j: int| 0 <= j < k.len() && k[j] == '\0';
            assert(k[j] != '\0');
        }
    }
    assert forall|i: int| 0 <= i < entries.len() implies writable(#[trigger] entries[i].1) by {}
}

impl Message {
    /// The document of this message, sent by `node`, with the sender's
    /// alive, suspected and confirmed members.
    pub fn build_list(
        &self,
        node: &Node,
        alive_list: &[Node],
        suspected_list: &[Node],
        confirmed_list: &[Node],
    ) -> (doc: FlexValue)
        ensures
            doc.doc() == list_doc(*self, *node, alive_list@, suspected_list@, confirmed_list@),
            message_of(doc.doc()) == Some(*self),
            list_of_doc(doc.doc()) == Some(
                (*self, *node, alive_list@, suspected_list@, confirmed_list@),
            ),
    {
        let name = match self {
            Message::Ack => "ack",
            Message::Ping => "ping",
            Message::PingReq => "ping_req",
        };
        let mut entries: Vec<FlexEntry> = Vec::new();
        entries.push(str_entry("message", name.to_string()));
        entries.push(value_entry("node", node_document(node)));
        entries.push(value_entry("alive_list", nodes_document(alive_list)));
        entries.push(value_entry("suspected_list", nodes_document(suspected_list)));
        entries.push(value_entry("confirmed_list", nodes_document(confirmed_list)));
        proof {
            lemma_list_of_list_doc(*self, *node, alive_list@, suspected_list@, confirmed_list@);
            lemma_entry_docs(entries@);
            assert(entry_docs(entries@) =~= list_doc(
                *self,
                *node,
                alive_list@,
                suspected_list@,
                confirmed_list@,
            )->Table_0);
        }
        FlexValue::Table(entries)
    }

    /// The FlexBuffers bytes of this message, sent by `node`, with the
    /// sender's alive, suspected and confirmed members: the document of
    /// [`Message::build_list`], written with `flexbuffers::Builder`.
    pub fn build_bytes(
        &self,
        node: &Node,
        alive_list: &[Node],
        suspected_list: &[Node],
        confirmed_list: &[Node],
    ) -> (bytes: Vec<u8>)
        ensures
            bytes@ == flex_bytes(list_doc(*self, *node, alive_list@, suspected_list@, confirmed_list@)),
            bytes@.len() >= 3,
    {
        let doc = self.build_list(node, alive_list, suspected_list, confirmed_list);
        proof {
            lemma_list_doc_writable(*self, *node, alive_list@, suspected_list@, confirmed_list@);
        }
        encode(&doc)
    }

    /// The kind of message a document carries, if it names one of the
    /// three.
    pub fn message_kind(doc: &FlexValue) -> (message: Option<Message>)
        ensures
            message == message_of(doc.doc()),
    {
        let entries = match doc {
            FlexValue::Table(entries) => entries,
            _ => return None,
        };
        let name = match value_text(lookup(entries, "message")) {
            Some(name) => name,
            None => return None,
        };
        if text_equal(name.as_str(), "ack") {
            Some(Message::Ack)
        } else if text_equal(name.as_str(), "ping") {
            Some(Message::Ping)
        } else if text_equal(name.as_str(), "ping_req") {
            Some(Message::PingReq)
        } else {
            None
        }
    }

    /// What a membership message document holds: the message, the sender
    /// and its alive, suspected and confirmed members. A document that
    /// names no message is not read at all.
    pub fn from_list(doc: &FlexValue) -> (read: Result<
        (Message, Node, Vec<Node>, Vec<Node>, Vec<Node>),
        MalformedMessage,
    >)
        requires
            message_of(doc.doc()) is Some,
        ensures
            match read {
                Ok((message, node, alive, suspected, confirmed)) => list_of_doc(doc.doc())
                    == Some((message, node, alive@, suspected@, confirmed@)),
                Err(_) => list_of_doc(doc.doc()) is None,
            },
    {
        let message = match Message::message_kind(doc) {
            Some(m) => m,
            None => return Err(MalformedMessage),
        };
        let entries = match doc {
            FlexValue::Table(entries) => entries,
            _ => return Err(MalformedMessage),
        };
        let node = match lookup(entries, "node") {
            Some(d) => match node_from_document(d) {
                Some(node) => node,
                None => return Err(MalformedMessage),
            },
            None => return Err(MalformedMessage),
        };
        let alive = match nodes_from_document(lookup(entries, "alive_list")) {
            Some(v) => v,
            None => return Err(MalformedMessage),
        };
        let suspected = match nodes_from_document(lookup(entries, "suspected_list")) {
            Some(v) => v,
            None => return Err(MalformedMessage),
        };
        let confirmed = match nodes_from_document(lookup(entries, "confirmed_list")) {
            Some(v) => v,
            None => return Err(MalformedMessage),
        };
        Ok((message, node, alive, suspected, confirmed))
    }
}

/// Reading the document of a node gives the node back.
pub proof fn lemma_node_of_node_doc(node: Node)
    ensures
        node_of_doc(node_doc(node)) == Some(node),
{
    lemma_uuid_text_parsed(node.id);
    reveal_with_fuel(doc_lookup, 6);
    reveal_strlit("id");
    reveal_strlit("address");
    reveal_strlit("client_port");
    reveal_strlit("cluster_port");
    reveal_strlit("membership_port");
    let entries = node_doc(node)->Table_0;
    assert(doc_lookup(entries, "id"@) == Some(FlexDoc::Str(uuid_text(node.id))));
    assert(entries.drop_first()[0].0 == "address"@);
    assert(doc_lookup(entries, "address"@) == Some(FlexDoc::Str(ip_text(node.address))));
    assert(entries.drop_first().drop_first()[0].0 == "client_port"@);
    assert(doc_lookup(entries, "client_port"@) == Some(FlexDoc::UInt(node.client_port as nat)));
    assert(entries.drop_first().drop_first().drop_first()[0].0 == "cluster_port"@);
    assert(doc_lookup(entries, "cluster_port"@) == Some(FlexDoc::UInt(node.cluster_port as nat)));
    assert(entries.drop_first().drop_first().drop_first().drop_first()[0].0
        == "membership_port"@);
    assert(doc_lookup(entries, "membership_port"@) == Some(
        FlexDoc::UInt(node.membership_port as nat),
    ));
    law_parse_of_text(node.address, node.address);
}

/// Reading the document of a node sequence gives the nodes back.
proof fn lemma_nodes_of_nodes_doc(nodes: Seq<Node>)
    ensures
        nodes_of_doc(Some(nodes_doc(nodes))) == Some(nodes),
{
    let docs = nodes_doc(nodes)->Vector_0;
    assert forall|i: int| 0 <= i < docs.len() implies #[trigger] node_of_doc(docs[i]) == Some(
        nodes[i],
    ) by {
        lemma_node_of_node_doc(nodes[i]);
    }
    assert(Seq::new(docs.len(), |i: int| node_of_doc(docs[i])->0) =~= nodes);
}

/// Reading a message document gives back what it was built from, once its
/// sender and lists read back.
proof fn lemma_list_of_list_doc(
    message: Message,
    node: Node,
    alive: Seq<Node>,
    suspected: Seq<Node>,
    confirmed: Seq<Node>,
)
    requires
        node_of_doc(node_doc(node)) == Some(node),
        nodes_of_doc(Some(nodes_doc(alive))) == Some(alive),
        nodes_of_doc(Some(nodes_doc(suspected))) == Some(suspected),
        nodes_of_doc(Some(nodes_doc(confirmed))) == Some(confirmed),
    ensures
        message_of(list_doc(message, node, alive, suspected, confirmed)) == Some(message),
        list_of_doc(list_doc(message, node, alive, suspected, confirmed)) == Some(
            (message, node, alive, suspected, confirmed),
        ),
{
    reveal_with_fuel(doc_lookup, 6);
    reveal_strlit("message");
    reveal_strlit("node");
    reveal_strlit("alive_list");
    reveal_strlit("suspected_list");
    reveal_strlit("confirmed_list");
    reveal_strlit("ack");
    reveal_strlit("ping");
    reveal_strlit("ping_req");
    let doc = list_doc(message, node, alive, suspected, confirmed);
    let entries = doc->Table_0;
    assert(doc_lookup(entries, "message"@) == Some(FlexDoc::Str(message_name(message))));
    assert(entries.drop_first()[0].0 == "node"@);
    assert(doc_lookup(entries, "node"@) == Some(node_doc(node)));
    assert(entries.drop_first().drop_first()[0].0 == "alive_list"@);
    assert(doc_lookup(entries, "alive_list"@) == Some(nodes_doc(alive)));
    assert(entries.drop_first().drop_first().drop_first()[0].0 == "suspected_list"@);
    assert(doc_lookup(entries, "suspected_list"@) == Some(nodes_doc(suspected)));
    assert(entries.drop_first().drop_first().drop_first().drop_first()[0].0
        == "confirmed_list"@);
    assert("confirmed_list"@[0] != "suspected_list"@[0]);
    assert("confirmed_list"@ != "suspected_list"@);
    assert("ping"@[0] != "ack"@[0]);
    assert("ping_req"@[0] != "ack"@[0]);
    assert("ping_req"@.len() != "ping"@.len());
    assert(doc_lookup(entries, "confirmed_list"@) == Some(nodes_doc(confirmed)));
}

/// Law: reading the document of a membership message gives back the
/// message, its sender and its three lists.
pub proof fn law_from_list_of_build_list(
    message: Message,
    node: Node,
    alive: Seq<Node>,
    suspected: Seq<Node>,
    confirmed: Seq<Node>,
)
    ensures
        message_of(list_doc(message, node, alive, suspected, confirmed)) == Some(message),
        list_of_doc(list_doc(message, node, alive, suspected, confirmed)) == Some(
            (message, node, alive, suspected, confirmed),
        ),
{
    lemma_node_of_node_doc(node);
    lemma_nodes_of_nodes_doc(alive);
    lemma_nodes_of_nodes_doc(suspected);
    lemma_nodes_of_nodes_doc(confirmed);
    lemma_list_of_list_doc(message, node, alive, suspected, confirmed);
}

} // verus!
