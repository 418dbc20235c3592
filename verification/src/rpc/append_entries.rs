use vstd::prelude::*;

verus! {

/// The arguments of an append-entries call: the leader's term and
/// identifier, the index and term of the entry before the new ones, the new
/// entries, and the leader's commit index.
#[derive(Clone, Debug)]
pub struct AppendEntriesArguments {
    pub term: u32,
    pub leader_id: String,
    pub prev_log_index: u32,
    pub prev_log_term: u32,
    pub entries: Vec<u32>,
    pub leader_commit: u32,
}

/// The results of an append-entries call: the receiver's term and whether
/// it accepted the entries.
#[derive(Clone, Copy, Debug)]
pub struct AppendEntriesResults {
    pub term: u32,
    pub success: bool,
}

} // verus!
