//! What the daemon and its clients say to each other.

pub mod client;
pub mod message;
