//! The SIP side of the node.
pub mod peer_learning;
