use vstd::prelude::*;

use crate::encoding::{doc_keys, encode, flex_bytes, writable};
use crate::flex::{
    doc_lookup, bool_entry, entry_docs, lemma_entry_docs, str_entry, uint_entry, value_entry, FlexDoc,
    FlexEntry, FlexValue,
};
use crate::net::{IpAddress, Ipv4Address, SocketAddress};

pub mod append_entries;
pub mod membership;
pub mod request_vote;
pub mod server;

use append_entries::{AppendEntriesArguments, AppendEntriesResults};
use request_vote::{RequestVoteArguments, RequestVoteResults};

verus! {

/// The payloads of the cluster's remote procedure calls.
pub enum Data {
    AppendEntriesArguments(AppendEntriesArguments),
    AppendEntriesResults(AppendEntriesResults),
    _InstallSnapshot,
    RequestVoteArguments(RequestVoteArguments),
    RequestVoteResults(RequestVoteResults),
}

/// A document `{"data": kind, "details": details}`.
pub open spec fn data_doc(kind: Seq<char>, details: Seq<(Seq<char>, FlexDoc)>) -> FlexDoc {
    FlexDoc::Table(seq![("data"@, FlexDoc::Str(kind)), ("details"@, FlexDoc::Table(details))])
}

/// The document of a payload: its kind under `data` and its fields under
/// `details`.
pub open spec fn payload_doc(data: Data) -> FlexDoc {
    match data {
        Data::AppendEntriesArguments(a) => data_doc(
            "append_entries_arguments"@,
            seq![
                ("term"@, FlexDoc::UInt(a.term as nat)),
                ("leader_id"@, FlexDoc::Str(a.leader_id@)),
                ("prev_log_index"@, FlexDoc::UInt(a.prev_log_index as nat)),
                ("prev_log_term"@, FlexDoc::UInt(a.prev_log_term as nat)),
                ("entries"@, FlexDoc::UInts(a.entries@)),
                ("leader_commit"@, FlexDoc::UInt(a.leader_commit as nat)),
            ],
        ),
        Data::AppendEntriesResults(r) => data_doc(
            "append_entries_results"@,
            seq![("term"@, FlexDoc::UInt(r.term as nat)), ("success"@, FlexDoc::Bool(r.success))],
        ),
        Data::RequestVoteArguments(a) => data_doc(
            "request_vote_arguments"@,
            seq![
                ("term"@, FlexDoc::UInt(a.term as nat)),
                ("candidate_id"@, FlexDoc::Str(a.candidate_id@)),
                ("last_log_index"@, FlexDoc::UInt(a.last_log_index as nat)),
                ("last_log_term"@, FlexDoc::UInt(a.last_log_term as nat)),
            ],
        ),
        Data::RequestVoteResults(r) => data_doc(
            "request_vote_results"@,
            seq![
                ("term"@, FlexDoc::UInt(r.term as nat)),
                ("vote_granted"@, FlexDoc::Bool(r.vote_granted)),
            ],
        ),
        Data::_InstallSnapshot => FlexDoc::Null,
    }
}

fn data_document(kind: &str, details: Vec<FlexEntry>) -> (doc: FlexValue)
    ensures
        doc.doc() == data_doc(kind@, entry_docs(details@)),
{
    let mut entries: Vec<FlexEntry> = Vec::new();
    entries.push(str_entry("data", kind.to_string()));
    let ghost details_docs = entry_docs(details@);
    entries.push(value_entry("details", FlexValue::Table(details)));
    proof {
        lemma_entry_docs(entries@);
        assert(entry_docs(entries@) =~= data_doc(kind@, details_docs)->Table_0);
    }
    FlexValue::Table(entries)
}

/// Whether the keys of a map's entries are distinct and hold no NUL, and
/// its values are strings, numbers, booleans or typed vectors.
proof fn lemma_flat_table_writable(entries: Seq<(Seq<char>, FlexDoc)>)
    requires
        forall|i: int, j: int|
            0 <= i < entries.len() && 0 <= j < entries.len() && i != j && entries[i].0.len()
                == entries[j].0.len() ==> entries[i].0[0] != entries[j].0[0],
        forall|i: int| 0 <= i < entries.len() ==> entries[i].0.len() > 0,
        forall|i: int, c: int|
            0 <= i < entries.len() && 0 <= c < entries[i].0.len() ==> entries[i].0[c] != '\0',
        forall|i: int| 0 <= i < entries.len() ==> writable(#[trigger] entries[i].1),
    ensures
        writable(FlexDoc::Table(entries)),
{
    let keys = doc_keys(entries);
    assert(keys.no_duplicates()) by {
        assert forall|i: int, j: int| 0 <= i < keys.len() && 0 <= j < keys.len() && i != j
            implies keys[i] != keys[j] by {
            if keys[i].len() == keys[j].len() {
                assert(keys[i][0] != keys[j][0]);
            }
        }
    }
    assert forall|i: int| 0 <= i < entries.len() implies !(#[trigger] entries[i]).0.contains('\0') by {
        let k = entries[i].0;
        if k.contains('\0') {
            let c = choose|c: int| 0 <= c < k.len() && k[c] == '\0';
            assert(entries[i].0[c] != '\0');
        }
    }
}

/// The document of every payload but an install-snapshot one can be
/// written: its keys are distinct and hold no NUL.
pub proof fn lemma_payload_doc_writable(data: Data)
    requires
        !(data is _InstallSnapshot),
    ensures
        writable(payload_doc(data)),
{
    reveal_strlit("data");
    reveal_strlit("details");
    reveal_strlit("term");
    reveal_strlit("leader_id");
    reveal_strlit("prev_log_index");
    reveal_strlit("prev_log_term");
    reveal_strlit("entries");
    reveal_strlit("leader_commit");
    reveal_strlit("success");
    reveal_strlit("candidate_id");
    reveal_strlit("last_log_index");
    reveal_strlit("last_log_term");
    reveal_strlit("vote_granted");
    let details = payload_doc(data)->Table_0[1].1->Table_0;
    lemma_flat_table_writable(details);
    lemma_flat_table_writable(payload_doc(data)->Table_0);
}

/// The value filed under `key` in a document that is a map.
pub open spec fn doc_field(doc: FlexDoc, key: Seq<char>) -> Option<FlexDoc> {
    match doc {
        FlexDoc::Table(entries) => doc_lookup(entries, key),
        _ => None,
    }
}

/// The value filed under `key` in the `details` map of a payload document.
pub open spec fn detail(doc: FlexDoc, key: Seq<char>) -> Option<FlexDoc> {
    match doc_field(doc, "details"@) {
        Some(details) => doc_field(details, key),
        None => None,
    }
}

/// Law: a payload's document names its kind under `data` and carries each
/// of the payload's fields, with the payload's own value, under its name in
/// `details`: reading a field back gives what was built from.
pub proof fn law_payloads_carry_their_fields(data: Data)
    ensures
        match data {
            Data::AppendEntriesArguments(a) => {
                &&& doc_field(payload_doc(data), "data"@) == Some(
                    FlexDoc::Str("append_entries_arguments"@),
                )
                &&& detail(payload_doc(data), "term"@) == Some(FlexDoc::UInt(a.term as nat))
                &&& detail(payload_doc(data), "leader_id"@) == Some(FlexDoc::Str(a.leader_id@))
                &&& detail(payload_doc(data), "prev_log_index"@) == Some(
                    FlexDoc::UInt(a.prev_log_index as nat),
                )
                &&& detail(payload_doc(data), "prev_log_term"@) == Some(
                    FlexDoc::UInt(a.prev_log_term as nat),
                )
                &&& detail(payload_doc(data), "entries"@) == Some(FlexDoc::UInts(a.entries@))
                &&& detail(payload_doc(data), "leader_commit"@) == Some(
                    FlexDoc::UInt(a.leader_commit as nat),
                )
            },
            Data::AppendEntriesResults(r) => {
                &&& doc_field(payload_doc(data), "data"@) == Some(
                    FlexDoc::Str("append_entries_results"@),
                )
                &&& detail(payload_doc(data), "term"@) == Some(FlexDoc::UInt(r.term as nat))
                &&& detail(payload_doc(data), "success"@) == Some(FlexDoc::Bool(r.success))
            },
            Data::RequestVoteArguments(a) => {
                &&& doc_field(payload_doc(data), "data"@) == Some(
                    FlexDoc::Str("request_vote_arguments"@),
                )
                &&& detail(payload_doc(data), "term"@) == Some(FlexDoc::UInt(a.term as nat))
                &&& detail(payload_doc(data), "candidate_id"@) == Some(
                    FlexDoc::Str(a.candidate_id@),
                )
                &&& detail(payload_doc(data), "last_log_index"@) == Some(
                    FlexDoc::UInt(a.last_log_index as nat),
                )
                &&& detail(payload_doc(data), "last_log_term"@) == Some(
                    FlexDoc::UInt(a.last_log_term as nat),
                )
            },
            Data::RequestVoteResults(r) => {
                &&& doc_field(payload_doc(data), "data"@) == Some(
                    FlexDoc::Str("request_vote_results"@),
                )
                &&& detail(payload_doc(data), "term"@) == Some(FlexDoc::UInt(r.term as nat))
                &&& detail(payload_doc(data), "vote_granted"@) == Some(FlexDoc::Bool(r.vote_granted))
            },
            Data::_InstallSnapshot => payload_doc(data) == FlexDoc::Null,
        },
{
    reveal_with_fuel(doc_lookup, 7);
    reveal_strlit("data");
    reveal_strlit("details");
    reveal_strlit("term");
    reveal_strlit("leader_id");
    reveal_strlit("prev_log_index");
    reveal_strlit("prev_log_term");
    reveal_strlit("entries");
    reveal_strlit("leader_commit");
    reveal_strlit("success");
    reveal_strlit("candidate_id");
    reveal_strlit("last_log_index");
    reveal_strlit("last_log_term");
    reveal_strlit("vote_granted");
    assert("details"@.len() != "data"@.len());
    if !(data is _InstallSnapshot) {
        let entries = payload_doc(data)->Table_0;
        let details = entries[1].1->Table_0;
        assert(doc_lookup(entries, "details"@) == Some(entries[1].1)) by {
            assert(entries[0].0 != "details"@);
            assert(entries.drop_first()[0].0 == "details"@);
        }
        assert forall|i: int, j: int|
            0 <= i < details.len() && 0 <= j < details.len() && i != j implies details[i].0
            != details[j].0 by {
            if details[i].0.len() == details[j].0.len() {
                assert(details[i].0[0] != details[j].0[0]);
            }
        }
        assert forall|k: int| 0 <= k < details.len() implies doc_lookup(details, #[trigger] details[k].0)
            == Some(details[k].1) by {
            lemma_lookup_distinct(details, k);
        }
        assert(details.len() >= 2);
        assert(doc_lookup(details, details[0].0) == Some(details[0].1));
        assert(doc_lookup(details, details[1].0) == Some(details[1].1));
        if details.len() > 2 {
            assert(doc_lookup(details, details[2].0) == Some(details[2].1));
            assert(doc_lookup(details, details[3].0) == Some(details[3].1));
        }
        if details.len() > 4 {
            assert(doc_lookup(details, details[4].0) == Some(details[4].1));
            assert(doc_lookup(details, details[5].0) == Some(details[5].1));
        }
    }
}

/// In entries whose keys are distinct, looking up the key of one entry
/// finds that entry's value.
proof fn lemma_lookup_distinct(entries: Seq<(Seq<char>, FlexDoc)>, k: int)
    requires
        0 <= k < entries.len(),
        forall|i: int, j: int|
            0 <= i < entries.len() && 0 <= j < entries.len() && i != j ==> entries[i].0
                != entries[j].0,
    ensures
        doc_lookup(entries, entries[k].0) == Some(entries[k].1),
    decreases k,
{
    if k > 0 {
        let rest = entries.drop_first();
        assert(entries[0].0 != entries[k].0);
        assert(rest[k - 1] == entries[k]);
        lemma_lookup_distinct(rest, k - 1);
    }
}

impl Data {
    /// The document of this payload. Install-snapshot payloads have no
    /// form yet.
    pub fn build(&self) -> (doc: FlexValue)
        requires
            !(self is _InstallSnapshot),
        ensures
            doc.doc() == payload_doc(*self),
    {
        match self {
            Data::AppendEntriesArguments(a) => {
                let mut details: Vec<FlexEntry> = Vec::new();
                details.push(uint_entry("term", a.term as u64));
                details.push(str_entry("leader_id", a.leader_id.clone()));
                details.push(uint_entry("prev_log_index", a.prev_log_index as u64));
                details.push(uint_entry("prev_log_term", a.prev_log_term as u64));
                details.push(value_entry("entries", FlexValue::UInts(copy_entries(&a.entries))));
                details.push(uint_entry("leader_commit", a.leader_commit as u64));
                proof {
                    lemma_entry_docs(details@);
                    assert(entry_docs(details@) =~= payload_doc(*self)->Table_0[1].1->Table_0);
                }
                data_document("append_entries_arguments", details)
            },
            Data::AppendEntriesResults(r) => {
                let mut details: Vec<FlexEntry> = Vec::new();
                details.push(uint_entry("term", r.term as u64));
                details.push(bool_entry("success", r.success));
                proof {
                    lemma_entry_docs(details@);
                    assert(entry_docs(details@) =~= payload_doc(*self)->Table_0[1].1->Table_0);
                }
                data_document("append_entries_results", details)
            },
            Data::RequestVoteArguments(a) => {
                let mut details: Vec<FlexEntry> = Vec::new();
                details.push(uint_entry("term", a.term as u64));
                details.push(str_entry("candidate_id", a.candidate_id.clone()));
                details.push(uint_entry("last_log_index", a.last_log_index as u64));
                details.push(uint_entry("last_log_term", a.last_log_term as u64));
                proof {
                    lemma_entry_docs(details@);
                    assert(entry_docs(details@) =~= payload_doc(*self)->Table_0[1].1->Table_0);
                }
                data_document("request_vote_arguments", details)
            },
            Data::RequestVoteResults(r) => {
                let mut details: Vec<FlexEntry> = Vec::new();
                details.push(uint_entry("term", r.term as u64));
                details.push(bool_entry("vote_granted", r.vote_granted));
                proof {
                    lemma_entry_docs(details@);
                    assert(entry_docs(details@) =~= payload_doc(*self)->Table_0[1].1->Table_0);
                }
                data_document("request_vote_results", details)
            },
            Data::_InstallSnapshot => FlexValue::Null,
        }
    }

    /// The FlexBuffers bytes of this payload: the document of
    /// [`Data::build`], written with `flexbuffers::Builder`.
    pub fn build_bytes(&self) -> (bytes: Vec<u8>)
        requires
            !(self is _InstallSnapshot),
        ensures
            bytes@ == flex_bytes(payload_doc(*self)),
            bytes@.len() >= 3,
    {
        let doc = self.build();
        proof {
            lemma_payload_doc_writable(*self);
        }
        encode(&doc)
    }
}

/// A copy of the log entries.
fn copy_entries(entries: &Vec<u32>) -> (copy: Vec<u32>)
    ensures
        copy@ == entries@,
{
    let mut copy: Vec<u32> = Vec::new();
    let mut i: usize = 0;
    while i < entries.len()
        invariant
            i <= entries@.len(),
            copy@ == entries@.subrange(0, i as int),
        decreases entries@.len() - i,
    {
        copy.push(entries[i]);
        i = i + 1;
        assert(copy@ =~= entries@.subrange(0, i as int));
    }
    assert(copy@ =~= entries@);
    copy
}

/// The loopback address `127.0.0.1`.
pub fn build_ip_address() -> (ip: IpAddress)
    ensures
        ip == (IpAddress::V4(Ipv4Address { a: 127, b: 0, c: 0, d: 1 })),
{
    IpAddress::localhost()
}

/// The socket address of `ip_address` at `port`.
pub fn build_socket_address(ip_address: IpAddress, port: u16) -> (address: SocketAddress)
    ensures
        address == (SocketAddress { ip: ip_address, port }),
{
    SocketAddress { ip: ip_address, port }
}

} // verus!
