//! The validation pipeline: docker steps and the report types.
pub mod commands;
pub mod types;
