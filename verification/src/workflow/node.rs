//! The configuration of workflow nodes.

use std::collections::HashMap;
use vstd::prelude::*;
use crate::llm::Temperature;

verus! {

/// When an agent stops asking its model.
#[derive(Debug, PartialEq)]
pub enum StopCondition {
    /// The model asks for no tool.
    NoToolCalls,
    /// The model asks for the tool of this name.
    OnTool { tool_name: String },
    /// The answer of the model holds this text.
    ContainsText { pattern: String },
    /// This many earlier answers have been read.
    MaxIterations { count: usize },
    /// The workflow state holds `expected` at `path`. Not evaluated yet: it
    /// never stops an agent.
    StateMatch { path: String, expected: serde_json::Value },
}

/// The configuration of an agent node.
#[derive(Debug, PartialEq)]
pub struct AgentNodeConfig {
    pub system_prompt: String,
    /// How many answers of the model the agent reads at most.
    pub max_iterations: usize,
    pub stop_conditions: Vec<StopCondition>,
    /// The names of the tools that the model may see; all, where `None`.
    pub allowed_tools: Option<Vec<String>>,
    pub temperature: Option<Temperature>,
}

impl Default for AgentNodeConfig {
    fn default() -> (config: Self)
        ensures
            config.system_prompt@.len() == 0,
            config.max_iterations == 10,
            config.stop_conditions@.len() == 0,
            config.allowed_tools is None,
            config.temperature is None,
    {
        AgentNodeConfig {
            system_prompt: String::new(),
            max_iterations: 10,
            stop_conditions: Vec::new(),
            allowed_tools: None,
            temperature: None,
        }
    }
}

/// The configuration of a tool node.
#[derive(Debug)]
pub struct ToolNodeConfig {
    pub tool_name: String,
    /// Arguments that are the same at every run.
    pub static_args: HashMap<String, serde_json::Value>,
    /// Arguments to be read from the workflow state: argument name to path.
    /// Not resolved yet.
    pub state_arg_paths: HashMap<String, String>,
    /// The key under which the result is sent on; `<tool_name>_result`
    /// where `None`.
    pub result_path: Option<String>,
}

impl Default for ToolNodeConfig {
    fn default() -> (config: Self)
        ensures
            config.tool_name@.len() == 0,
            config.static_args@ == Map::<String, serde_json::Value>::empty(),
            config.state_arg_paths@ == Map::<String, String>::empty(),
            config.result_path is None,
    {
        ToolNodeConfig {
            tool_name: String::new(),
            static_args: HashMap::new(),
            state_arg_paths: HashMap::new(),
            result_path: None,
        }
    }
}

} // verus!
