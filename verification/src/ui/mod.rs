//! The terminal interface: its state, its keys, and every text that it shows.

pub mod app;
pub mod figures;
pub mod tab;
pub mod view;
