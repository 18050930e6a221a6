//! Verified core of the OpenAPI validator tool chain: configuration model,
//! generator catalogue, docker command construction, workspace scaffolding
//! and spec-file heuristics.

pub mod config;
pub mod custom;
pub mod docker;
pub mod generators;
pub mod order;
pub mod paths;
pub mod pipeline;
pub mod references;
pub mod report;
pub mod scaffold;
pub mod shell;
pub mod spec;
pub mod text;


