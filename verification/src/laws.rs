//! What the operations of the library do, said of single entries, fields and numbers.
pub mod fetching;
pub mod graph;
pub mod groups;
pub mod operations;
pub mod revisions;
