//! The download queue: jobs and their manager.

pub mod job;
pub mod laws;
pub mod manager;
