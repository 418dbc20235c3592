use vstd::prelude::*;

use crate::net::ip_text;
use crate::node::{uuid_text, Node};
use crate::text::{decimal_string, decimal_text};

verus! {

/// A node as the membership service describes it: every field as text.
#[derive(Clone, Debug)]
pub struct MembershipNode {
    pub id: String,
    pub address: String,
    pub client_port: String,
    pub cluster_port: String,
    pub membership_port: String,
}

impl MembershipNode {
    /// The description of `node`: its hyphenated identifier, its dotted
    /// address and its ports in decimal.
    pub fn build(node: &Node) -> (membership_node: MembershipNode)
        ensures
            membership_node.id@ == uuid_text(node.id),
            membership_node.address@ == ip_text(node.address),
            membership_node.client_port@ == decimal_text(node.client_port as nat),
            membership_node.cluster_port@ == decimal_text(node.cluster_port as nat),
            membership_node.membership_port@ == decimal_text(node.membership_port as nat),
    {
        MembershipNode {
            id: node.id_text(),
            address: node.address.to_text(),
            client_port: decimal_string(node.client_port as u64),
            cluster_port: decimal_string(node.cluster_port as u64),
            membership_port: decimal_string(node.membership_port as u64),
        }
    }
}

/// The nodes connected to the cluster.
#[derive(Clone, Debug)]
pub struct Connected {
    pub nodes: Vec<MembershipNode>,
}

/// A node's status, as text.
#[derive(Clone, Debug)]
pub struct Status {
    pub details: String,
}

} // verus!
