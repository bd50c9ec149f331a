//! What the RPC layer hands to the node.

pub mod types;
