//! The background daemon: requests, restored jobs and subscribers.

pub mod handler;
pub mod laws;
pub mod server;
