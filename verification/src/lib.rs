//! A bulk-synchronous runtime for agent workflows.
//!
//! A workflow is a directed graph of vertices that exchange messages in
//! synchronised rounds (supersteps). This crate holds the decisions of that
//! runtime: message routing and delivery, activation and halting, merging of
//! state updates, retries, checkpoints, and the step logic of the agent and
//! tool vertices. Awaiting a vertex, a model or a tool is left to the caller.

pub mod json;
pub mod llm;
pub mod middleware;
pub mod pregel;
pub mod state;
pub mod text;
pub mod workflow;
