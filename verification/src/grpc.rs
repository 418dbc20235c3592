use vstd::prelude::*;

use crate::rpc::membership::MembershipNode;

verus! {

/// The client-facing service, which greets back whoever greets it.
#[derive(Debug)]
pub struct ExternalClientGrpcServer {}

impl ExternalClientGrpcServer {
    pub fn init() -> (server: ExternalClientGrpcServer) {
        ExternalClientGrpcServer {}
    }

    /// The answer to a greeting: the greeting itself.
    pub fn hello(&self, hello: String) -> (answer: String)
        ensures
            answer@ == hello@,
    {
        hello
    }
}

/// Whether a request to join the cluster leaves a field empty: such a
/// request is refused as failing its precondition.
pub fn check_incoming_request(request: &MembershipNode) -> (incomplete: bool)
    ensures
        incomplete == (request.id@.len() == 0 || request.address@.len() == 0
            || request.client_port@.len() == 0 || request.cluster_port@.len() == 0
            || request.membership_port@.len() == 0),
{
    request.id.as_str().is_empty() || request.address.as_str().is_empty()
        || request.client_port.as_str().is_empty() || request.cluster_port.as_str().is_empty()
        || request.membership_port.as_str().is_empty()
}

} // verus!
