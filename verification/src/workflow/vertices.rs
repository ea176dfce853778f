//! The step logic of the vertices that a workflow is built from.
//!
//! - [`agent::AgentVertex`]: a language-model agent that may call tools
//! - [`tool::ToolVertex`]: one tool, run once

pub mod agent;
pub mod tool;
