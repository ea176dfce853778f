//! Messages and their envelopes.

use vstd::prelude::*;
use crate::pregel::vertex::VertexId;

verus! {

/// A message between vertices: a keyed JSON payload. Control signals are left
/// to later versions, hence the enum.
#[derive(Debug, PartialEq)]
#[non_exhaustive]
pub enum WorkflowMessage {
    Data { key: String, value: serde_json::Value },
}

impl WorkflowMessage {
    pub fn data(key: &str, value: serde_json::Value) -> (message: Self)
        ensures
            message.key_text() == key@,
            message.payload() == value,
    {
        WorkflowMessage::Data { key: key.to_owned(), value }
    }

    /// The key, as text.
    pub open spec fn key_text(&self) -> Seq<char> {
        match self {
            WorkflowMessage::Data { key, .. } => key@,
        }
    }

    /// The payload.
    pub open spec fn payload(&self) -> serde_json::Value {
        match self {
            WorkflowMessage::Data { value, .. } => *value,
        }
    }

    pub fn key(&self) -> (key: &str)
        ensures
            key@ == self.key_text(),
    {
        match self {
            WorkflowMessage::Data { key, .. } => key.as_str(),
        }
    }

    pub fn value(&self) -> (value: &serde_json::Value)
        ensures
            *value == self.payload(),
    {
        match self {
            WorkflowMessage::Data { value, .. } => value,
        }
    }
}

impl Clone for WorkflowMessage {
    fn clone(&self) -> (copy: Self)
        ensures
            copy == *self,
    {
        match self {
            WorkflowMessage::Data { key, value } => WorkflowMessage::Data {
                key: key.clone(),
                value: value.clone(),
            },
        }
    }
}

/// How urgently a message is to be read. Within one sender's messages to one
/// recipient, higher priorities are delivered first.
#[derive(Debug, Clone, Copy, PartialEq, Eq, Structural, Hash)]
pub enum Priority {
    High,
    Normal,
    Low,
}

impl Priority {
    /// Position in delivery order: 0 for `High`, 1 for `Normal`, 2 for `Low`.
    pub open spec fn rank_of(self) -> nat {
        match self {
            Priority::High => 0,
            Priority::Normal => 1,
            Priority::Low => 2,
        }
    }

    pub fn rank(&self) -> (rank: u8)
        ensures
            rank == self.rank_of(),
    {
        match self {
            Priority::High => 0,
            Priority::Normal => 1,
            Priority::Low => 2,
        }
    }
}

impl Default for Priority {
    fn default() -> (priority: Self)
        ensures
            priority == Priority::Normal,
    {
        Priority::Normal
    }
}

/// Where an envelope comes from.
#[derive(Debug, PartialEq)]
pub enum Source {
    /// Input handed to the workflow from outside.
    External,
    /// A vertex of the workflow.
    Vertex(VertexId),
}

impl Source {
    /// Whether the source is the vertex with the given name.
    pub open spec fn is_vertex(&self, name: Seq<char>) -> bool {
        match self {
            Source::External => false,
            Source::Vertex(id) => id@ == name,
        }
    }
}

impl Source {
    /// Whether two sources name the same origin.
    pub open spec fn same(&self, other: Source) -> bool {
        match (*self, other) {
            (Source::External, Source::External) => true,
            (Source::Vertex(a), Source::Vertex(b)) => a@ == b@,
            _ => false,
        }
    }

    pub fn is_same(&self, other: &Source) -> (answer: bool)
        ensures
            answer == self.same(*other),
    {
        match (self, other) {
            (Source::External, Source::External) => true,
            (Source::Vertex(a), Source::Vertex(b)) => *a == *b,
            _ => false,
        }
    }
}

impl Clone for Source {
    fn clone(&self) -> (copy: Self)
        ensures
            copy == *self,
    {
        match self {
            Source::External => Source::External,
            Source::Vertex(id) => Source::Vertex(id.clone()),
        }
    }
}

/// A message together with its priority and origin, as it lies in a mailbox.
#[derive(Debug, PartialEq)]
pub struct Envelope {
    pub message: WorkflowMessage,
    pub priority: Priority,
    pub source: Source,
}

impl Envelope {
    /// An envelope of normal priority.
    pub fn new(message: WorkflowMessage, source: Source) -> (envelope: Self)
        ensures
            envelope == (Envelope { message, priority: Priority::Normal, source }),
    {
        Envelope { message, priority: Priority::Normal, source }
    }

    /// An input from outside the workflow, of normal priority.
    pub fn external(message: WorkflowMessage) -> (envelope: Self)
        ensures
            envelope == (Envelope {
                message,
                priority: Priority::Normal,
                source: Source::External,
            }),
    {
        Envelope { message, priority: Priority::Normal, source: Source::External }
    }

    pub fn with_priority(self, priority: Priority) -> (envelope: Self)
        ensures
            envelope == (Envelope { priority, ..self }),
    {
        Envelope { message: self.message, priority, source: self.source }
    }
}

impl Clone for Envelope {
    fn clone(&self) -> (copy: Self)
        ensures
            copy == *self,
    {
        Envelope {
            message: self.message.clone(),
            priority: self.priority,
            source: self.source.clone(),
        }
    }
}

/// A copy of a mailbox.
pub fn clone_envelopes(envelopes: &Vec<Envelope>) -> (copy: Vec<Envelope>)
    ensures
        copy@ == envelopes@,
{
    let mut copy: Vec<Envelope> = Vec::new();
    let mut i: usize = 0;
    while i < envelopes.len()
        invariant
            i <= envelopes.len(),
            copy@ == envelopes@.take(i as int),
        decreases envelopes.len() - i,
    {
        copy.push(envelopes[i].clone());
        assert(envelopes@.take(i + 1) =~= envelopes@.take(i as int).push(envelopes@[i as int]));
        i += 1;
    }
    assert(envelopes@.take(i as int) =~= envelopes@);
    copy
}

} // verus!
