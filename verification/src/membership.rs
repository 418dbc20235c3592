use vstd::prelude::*;

use crate::flex::FlexValue;
use crate::net::SocketAddress;
use crate::node::Node;

pub mod communications;
pub mod failure_detector;
pub mod list;
pub mod message;
pub mod receiver;
pub mod server;

verus! {

/// The sizes of cluster the system runs: one node, or three or five that
/// tolerate one or two failures.
#[derive(Clone, Copy, Debug, PartialEq, Eq, Structural)]
pub enum ClusterSize {
    One,
    Three,
    Five,
}

/// The number of nodes in a cluster of this size.
pub open spec fn cluster_nodes(size: ClusterSize) -> nat {
    match size {
        ClusterSize::One => 1,
        ClusterSize::Three => 3,
        ClusterSize::Five => 5,
    }
}

/// The size named by the text `1`, `3` or `5`.
pub open spec fn size_named(text: Seq<char>) -> Option<ClusterSize> {
    if text == "1"@ {
        Some(ClusterSize::One)
    } else if text == "3"@ {
        Some(ClusterSize::Three)
    } else if text == "5"@ {
        Some(ClusterSize::Five)
    } else {
        None
    }
}

impl ClusterSize {
    /// The size named by `size`, one of `1`, `3` and `5`.
    pub fn from_str(size: &str) -> (cluster_size: ClusterSize)
        requires
            size_named(size@) is Some,
        ensures
            size_named(size@) == Some(cluster_size),
    {
        match ClusterSize::parse(size) {
            Some(cluster_size) => cluster_size,
            None => ClusterSize::One,
        }
    }

    /// The size named by `size`, if it names one.
    pub fn parse(size: &str) -> (cluster_size: Option<ClusterSize>)
        ensures
            cluster_size == size_named(size@),
    {
        if crate::flex::text_equal(size, "1") {
            Some(ClusterSize::One)
        } else if crate::flex::text_equal(size, "3") {
            Some(ClusterSize::Three)
        } else if crate::flex::text_equal(size, "5") {
            Some(ClusterSize::Five)
        } else {
            None
        }
    }

    /// How many peers must be alive, besides this node, for the cluster to
    /// go on: none for one node, two of three, three of five. With this node
    /// they make a strict majority.
    pub fn majority(&self) -> (peers: usize)
        ensures
            peers == match self {
                ClusterSize::One => 0usize,
                ClusterSize::Three => 2usize,
                ClusterSize::Five => 3usize,
            },
            2 * (peers + 1) > cluster_nodes(*self),
            peers < cluster_nodes(*self),
    {
        match self {
            ClusterSize::One => 0,
            ClusterSize::Three => 2,
            ClusterSize::Five => 3,
        }
    }
}

/// A request to the membership service.
#[derive(Clone, Copy, Debug, PartialEq, Eq, Structural)]
pub enum MembershipRequest {
    FailureDectector,
    Members,
    Node,
    StaticJoin,
    Shutdown,
}

/// The membership service's answer.
#[derive(Debug)]
pub enum MembershipResponse {
    Node(Node),
    Members(Vec<Node>),
    Status((usize, usize)),
}

/// What the membership service does with a request: start the failure
/// detector; answer with the alive members; answer with the server; join
/// the launch peers and answer with the status; or shut down.
#[derive(Debug, PartialEq, Eq)]
pub enum MembershipStep {
    LaunchFailureDetector,
    AnswerMembers,
    Answer(Node),
    StaticJoin,
    Shutdown,
}

/// The membership service's own state: the cluster size it expects and
/// the server it runs on.
pub struct Membership {
    pub cluster_size: ClusterSize,
    pub server: Node,
}

impl Membership {
    pub fn init(cluster_size: ClusterSize, server: Node) -> (membership: Membership)
        ensures
            membership.cluster_size == cluster_size,
            membership.server == server,
    {
        Membership { cluster_size, server }
    }

    /// The step that serves a request.
    pub fn handle(&self, request: MembershipRequest) -> (step: MembershipStep)
        ensures
            step == match request {
                MembershipRequest::FailureDectector => MembershipStep::LaunchFailureDetector,
                MembershipRequest::Members => MembershipStep::AnswerMembers,
                MembershipRequest::Node => MembershipStep::Answer(self.server),
                MembershipRequest::StaticJoin => MembershipStep::StaticJoin,
                MembershipRequest::Shutdown => MembershipStep::Shutdown,
            },
    {
        match request {
            MembershipRequest::FailureDectector => MembershipStep::LaunchFailureDetector,
            MembershipRequest::Members => MembershipStep::AnswerMembers,
            MembershipRequest::Node => MembershipStep::Answer(self.server),
            MembershipRequest::StaticJoin => MembershipStep::StaticJoin,
            MembershipRequest::Shutdown => MembershipStep::Shutdown,
        }
    }

    /// The status after a static join: how many members are alive, and how
    /// many peers the cluster size expects.
    pub fn status(&self, alive: &[Node]) -> (status: (usize, usize))
        ensures
            status.0 == alive@.len(),
            status.1 == match self.cluster_size {
                ClusterSize::One => 0usize,
                ClusterSize::Three => 2usize,
                ClusterSize::Five => 3usize,
            },
    {
        (alive.len(), self.cluster_size.majority())
    }
}

/// The `Ping` a node sends each of its launch peers to join them: built
/// from its own lists, addressed to each peer in order.
pub fn static_join(
    node: &Node,
    alive: &[Node],
    suspected: &[Node],
    confirmed: &[Node],
    initial: &[SocketAddress],
) -> (join: (FlexValue, Vec<SocketAddress>))
    ensures
        join.0.doc() == crate::membership::message::list_doc(
            crate::membership::message::Message::Ping,
            *node,
            alive@,
            suspected@,
            confirmed@,
        ),
        join.1@ == initial@,
{
    let ping = crate::membership::message::Message::Ping.build_list(node, alive, suspected, confirmed);
    let mut targets: Vec<SocketAddress> = Vec::new();
    let mut i: usize = 0;
    while i < initial.len()
        invariant
            i <= initial@.len(),
            targets@ == initial@.subrange(0, i as int),
        decreases initial@.len() - i,
    {
        targets.push(initial[i]);
        i = i + 1;
        assert(targets@ =~= initial@.subrange(0, i as int));
    }
    assert(targets@ =~= initial@);
    (ping, targets)
}

} // verus!
