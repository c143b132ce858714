//! Downloading one file: probing, splitting, resuming, and fetching its chunks.

pub mod chunker;
pub mod engine;
pub mod error;
pub mod laws;
pub mod resume;
