//! Tools: how the model sees them, and how they are run.

use vstd::prelude::*;

verus! {

/// The description of a tool that is offered to the model: its name, what it
/// does, and the JSON schema of its parameters.
#[derive(Debug, PartialEq)]
pub struct ToolDefinition {
    pub name: String,
    pub description: String,
    pub parameters: serde_json::Value,
}

impl Clone for ToolDefinition {
    fn clone(&self) -> (copy: Self)
        ensures
            copy == *self,
    {
        ToolDefinition {
            name: self.name.clone(),
            description: self.description.clone(),
            parameters: self.parameters.clone(),
        }
    }
}

/// A tool that runs without waiting.
pub trait Tool {
    /// How the tool is described to a model.
    fn definition(&self) -> ToolDefinition;

    /// Runs the tool on JSON arguments. Gives the output of the tool as
    /// text, or the text of what went wrong.
    fn execute(&self, args: serde_json::Value) -> Result<String, String>;
}

} // verus!
