//! The database: where it lies, its rows, and the statements that depend on values.

pub mod schema;
