//! Shard: the verified core of a terminal download manager.

pub mod cli;
pub mod clock;
pub mod config;
pub mod daemon;
pub mod db;
pub mod downloader;
pub mod error;
pub mod ipc;
pub mod listing;
pub mod paths;
pub mod places;
pub mod queue;
pub mod text;
pub mod ui;
pub mod utils;
