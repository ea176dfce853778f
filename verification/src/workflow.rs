//! Workflow nodes and the vertices that run them.

pub mod node;
pub mod vertices;
