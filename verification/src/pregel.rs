//! The bulk-synchronous runtime: vertices, messages, shared state, the
//! superstep scheduler and its checkpoints.

pub mod checkpoint;
pub mod config;
pub mod driver;
pub mod error;
pub mod graph;
pub mod laws;
pub mod message;
pub mod naming;
pub mod routing;
pub mod runtime;
pub mod state;
pub mod superstep;
pub mod vertex;
