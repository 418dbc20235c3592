use vstd::prelude::*;

verus! {

/// The arguments of a request-vote call: the candidate's term and
/// identifier and the index and term of its last log entry.
#[derive(Clone, Debug)]
pub struct RequestVoteArguments {
    pub term: u32,
    pub candidate_id: String,
    pub last_log_index: u32,
    pub last_log_term: u32,
}

/// The results of a request-vote call: the receiver's term and whether it
/// granted its vote.
#[derive(Clone, Copy, Debug)]
pub struct RequestVoteResults {
    pub term: u32,
    pub vote_granted: bool,
}

} // verus!
