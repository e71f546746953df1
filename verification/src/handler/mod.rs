//! What the node does for its clients over HTTP.
pub mod params;
pub mod peer;
