//! The concurrency core of an incremental query engine.
pub mod cancelled;
pub mod cycle_groups;
pub mod dependency_graph;
pub mod fetch;
pub mod fx_map;
pub mod key;
pub mod laws;
pub mod local;
pub mod memo;
pub mod revision;
pub mod runtime;
pub mod seqs;
pub mod walk;
