//! The conversation between an agent and its language model.

use vstd::prelude::*;

verus! {

/// Who speaks in a chat message.
#[derive(Debug, Clone, Copy, PartialEq, Eq, Structural, Hash)]
pub enum Role {
    System,
    User,
    Assistant,
    Tool,
}

/// A request by the model to run a tool.
#[derive(Debug, PartialEq)]
pub struct ToolCall {
    pub id: String,
    pub name: String,
    pub arguments: serde_json::Value,
}

impl Clone for ToolCall {
    fn clone(&self) -> (copy: Self)
        ensures
            copy == *self,
    {
        ToolCall {
            id: self.id.clone(),
            name: self.name.clone(),
            arguments: self.arguments.clone(),
        }
    }
}

/// One message of a conversation.
#[derive(Debug, PartialEq)]
pub struct Message {
    pub role: Role,
    pub content: String,
    pub tool_calls: Option<Vec<ToolCall>>,
    pub tool_call_id: Option<String>,
}

impl Message {
    /// A message without tool calls that answers no tool call.
    pub open spec fn is_plain(&self, role: Role, content: Seq<char>) -> bool {
        &&& self.role == role
        &&& self.content@ == content
        &&& self.tool_calls is None
        &&& self.tool_call_id is None
    }

    /// The result of the tool call `call_id`, with `content` as its text.
    pub open spec fn is_tool_result(&self, content: Seq<char>, call_id: Seq<char>) -> bool {
        &&& self.role == Role::Tool
        &&& self.content@ == content
        &&& self.tool_calls is None
        &&& self.tool_call_id matches Some(id) && id@ == call_id
    }

    /// The tool calls that the message asks for; none where it names none.
    pub open spec fn calls(&self) -> Seq<ToolCall> {
        match self.tool_calls {
            Some(calls) => calls@,
            None => Seq::empty(),
        }
    }

    pub fn system(content: &str) -> (message: Self)
        ensures
            message.is_plain(Role::System, content@),
    {
        Message {
            role: Role::System,
            content: content.to_owned(),
            tool_calls: None,
            tool_call_id: None,
        }
    }

    pub fn user(content: &str) -> (message: Self)
        ensures
            message.is_plain(Role::User, content@),
    {
        Message { role: Role::User, content: content.to_owned(), tool_calls: None, tool_call_id: None }
    }

    pub fn assistant(content: &str) -> (message: Self)
        ensures
            message.is_plain(Role::Assistant, content@),
    {
        Message {
            role: Role::Assistant,
            content: content.to_owned(),
            tool_calls: None,
            tool_call_id: None,
        }
    }

    /// The result of a tool call.
    pub fn tool(content: &str, tool_call_id: &str) -> (message: Self)
        ensures
            message.is_tool_result(content@, tool_call_id@),
    {
        Message {
            role: Role::Tool,
            content: content.to_owned(),
            tool_calls: None,
            tool_call_id: Some(tool_call_id.to_owned()),
        }
    }
}

/// A copy of a list of tool calls.
pub fn clone_tool_calls(calls: &Vec<ToolCall>) -> (copy: Vec<ToolCall>)
    ensures
        copy@ == calls@,
{
    let mut copy: Vec<ToolCall> = Vec::new();
    let mut i: usize = 0;
    while i < calls.len()
        invariant
            i <= calls.len(),
            copy@ == calls@.take(i as int),
        decreases calls.len() - i,
    {
        copy.push(calls[i].clone());
        assert(calls@.take(i + 1) =~= calls@.take(i as int).push(calls@[i as int]));
        i += 1;
    }
    assert(calls@.take(i as int) =~= calls@);
    copy
}

impl Clone for Message {
    fn clone(&self) -> (copy: Self)
        ensures
            copy.role == self.role,
            copy.content == self.content,
            copy.calls() == self.calls(),
            (copy.tool_calls is Some) == (self.tool_calls is Some),
            copy.tool_call_id == self.tool_call_id,
    {
        Message {
            role: self.role,
            content: self.content.clone(),
            tool_calls: match &self.tool_calls {
                Some(calls) => Some(clone_tool_calls(calls)),
                None => None,
            },
            tool_call_id: match &self.tool_call_id {
                Some(id) => Some(id.clone()),
                None => None,
            },
        }
    }
}

} // verus!
