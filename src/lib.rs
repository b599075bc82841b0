//! Orchestration layer of a silence-removal tool: output naming, option
//! handling, native module resolution, progress aggregation and the
//! per-file pipeline, each with its contract.

pub mod modules;
pub mod naming;
pub mod options;
pub mod pipeline;
pub mod platform;
pub mod progress;
