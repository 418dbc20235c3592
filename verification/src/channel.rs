use vstd::prelude::*;

use crate::rpc::append_entries::{AppendEntriesArguments, AppendEntriesResults};
use crate::rpc::request_vote::{RequestVoteArguments, RequestVoteResults};

verus! {

/// The states a server moves through.
#[derive(Clone, Copy, Debug, PartialEq, Eq, Structural)]
pub enum ServerState {
    Preflight,
    Follower,
    Candidate,
    Leader,
    Shutdown,
}

/// The task that runs the preflight state.
#[derive(Clone, Copy, Debug, PartialEq, Eq, Structural)]
pub enum PreflightTask {
    Run,
}

/// The task that runs the follower state.
#[derive(Clone, Copy, Debug, PartialEq, Eq, Structural)]
pub enum FollowerTask {
    Run,
}

/// The task that runs the candidate state.
#[derive(Clone, Copy, Debug, PartialEq, Eq, Structural)]
pub enum CandidateTask {
    Run,
}

/// The task that runs the leader state.
#[derive(Clone, Copy, Debug, PartialEq, Eq, Structural)]
pub enum LeaderTask {
    Run,
}

/// The signal that shuts the server down.
#[derive(Clone, Copy, Debug, PartialEq, Eq, Structural)]
pub enum ShutdownTask {
    Run,
}

/// The signal that starts the failure detector.
#[derive(Clone, Copy, Debug, PartialEq, Eq, Structural)]
pub enum FailureDetectorComponent {
    Run,
}

/// How an election ended for this server.
#[derive(Clone, Copy, Debug, PartialEq, Eq, Structural)]
pub enum ElectionResult {
    Follower,
    Leader,
}

/// A leader's heartbeat, passed on to the server.
#[derive(Clone, Copy, Debug, PartialEq, Eq, Structural)]
pub enum Leader {
    Heartbeat,
}

/// What the server asks its outgoing RPC client to do.
#[derive(Clone, Copy, Debug, PartialEq, Eq, Structural)]
pub enum RpcClientRequest {
    StartElection,
    SendHeartbeat,
    Shutdown,
}

/// A request to the consensus state.
#[derive(Clone, Debug)]
pub enum StateRequest {
    AppendEntries(AppendEntriesArguments),
    AppendEntriesResults(AppendEntriesResults),
    RequestVote(RequestVoteArguments),
    RequestVoteResults(RequestVoteResults),
    Candidate(String),
    Leader,
    Heartbeat(String),
    Shutdown,
}

/// The consensus state's answer.
#[derive(Clone, Debug)]
pub enum StateResponse {
    AppendEntries(AppendEntriesResults),
    RequestVote(RequestVoteResults),
    Candidate(RequestVoteArguments),
    Heartbeat(AppendEntriesArguments),
    Follower(bool),
}

} // verus!
