use vstd::prelude::*;

pub mod bytes;
pub mod channel;
pub mod communication;
pub mod encoding;
pub mod flex;
pub mod grpc;
pub mod ipv6;
pub mod net;
pub mod node;
pub mod rpc;
pub mod membership;
pub mod text;
