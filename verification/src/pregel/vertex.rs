//! Vertex identifiers, activation states and compute results.

use vstd::prelude::*;
use crate::json::json_text;
use crate::pregel::error::PregelError;
use crate::pregel::message::{Envelope, Priority, WorkflowMessage};
use crate::pregel::state::WorkflowState;
use crate::text::{str_before, text_before};

verus! {

/// The name of a vertex, unique within one workflow.
#[derive(Debug, Hash)]
pub struct VertexId {
    name: String,
}

impl View for VertexId {
    type V = Seq<char>;

    closed spec fn view(&self) -> Seq<char> {
        self.name@
    }
}

impl VertexId {
    pub fn new(name: &str) -> (id: Self)
        ensures
            id@ == name@,
    {
        VertexId { name: name.to_owned() }
    }

    pub fn from_string(name: String) -> (id: Self)
        ensures
            id@ == name@,
    {
        VertexId { name }
    }

    pub fn as_str(&self) -> (name: &str)
        ensures
            name@ == self@,
    {
        self.name.as_str()
    }

    /// Whether this identifier sorts strictly before `other`.
    pub fn before(&self, other: &VertexId) -> (before: bool)
        ensures
            before == text_before(self@, other@),
    {
        str_before(self.name.as_str(), other.name.as_str())
    }
}

impl From<&str> for VertexId {
    /// The identifier with the given name.
    fn from(name: &str) -> (id: Self)
        ensures
            id@ == name@,
    {
        VertexId { name: name.to_owned() }
    }
}

impl vstd::std_specs::convert::FromSpecImpl<&str> for VertexId {
    /// Two identifiers of one name need not be the same value, so the
    /// conversion is stated by the name of its result, on `from` itself.
    open spec fn obeys_from_spec() -> bool {
        false
    }

    open spec fn from_spec(name: &str) -> Self {
        choose|id: VertexId| id@ == name@
    }
}

impl Clone for VertexId {
    fn clone(&self) -> (copy: Self)
        ensures
            copy == *self,
    {
        VertexId { name: self.name.clone() }
    }
}

impl PartialEq for VertexId {
    fn eq(&self, other: &Self) -> (same: bool) {
        self.name == other.name
    }
}

impl Eq for VertexId {}

impl vstd::std_specs::cmp::PartialEqSpecImpl for VertexId {
    open spec fn obeys_eq_spec() -> bool {
        true
    }

    open spec fn eq_spec(&self, other: &Self) -> bool {
        self@ == other@
    }
}

/// Whether a vertex takes part in the next superstep.
#[derive(Debug, Clone, Copy, PartialEq, Eq, Structural)]
pub enum VertexState {
    Active,
    Halted,
}

impl VertexState {
    pub fn is_active(&self) -> (active: bool)
        ensures
            active == (*self == VertexState::Active),
    {
        match self {
            VertexState::Active => true,
            VertexState::Halted => false,
        }
    }

    pub fn is_halted(&self) -> (halted: bool)
        ensures
            halted == (*self == VertexState::Halted),
    {
        match self {
            VertexState::Active => false,
            VertexState::Halted => true,
        }
    }
}

/// What one compute call hands back besides its outbox: the update to merge
/// into the shared state, and whether the vertex wants to run again.
#[derive(Debug)]
pub struct ComputeResult<U> {
    pub update: U,
    pub state: VertexState,
}

impl<U> ComputeResult<U> {
    /// The vertex stays active.
    pub fn active(update: U) -> (result: Self)
        ensures
            result.update == update,
            result.state == VertexState::Active,
    {
        ComputeResult { update, state: VertexState::Active }
    }

    /// The vertex halts until a message reaches it.
    pub fn halt(update: U) -> (result: Self)
        ensures
            result.update == update,
            result.state == VertexState::Halted,
    {
        ComputeResult { update, state: VertexState::Halted }
    }
}

/// A message on its way out of a vertex: the label it is addressed to, the
/// message, and its priority. The scheduler resolves the label against the
/// edges of the graph once compute has returned.
#[derive(Debug, PartialEq)]
pub struct Outbound {
    pub target: VertexId,
    pub message: WorkflowMessage,
    pub priority: Priority,
}

impl Clone for Outbound {
    fn clone(&self) -> (copy: Self)
        ensures
            copy == *self,
    {
        Outbound {
            target: self.target.clone(),
            message: self.message.clone(),
            priority: self.priority,
        }
    }
}

/// The messages among `entries` that are addressed to `target`, in the order
/// in which they were sent.
pub open spec fn messages_to(entries: Seq<Outbound>, target: Seq<char>) -> Seq<WorkflowMessage>
    decreases entries.len(),
{
    if entries.len() == 0 {
        Seq::empty()
    } else {
        let earlier = messages_to(entries.drop_last(), target);
        if entries.last().target@ == target {
            earlier.push(entries.last().message)
        } else {
            earlier
        }
    }
}

/// Whether one of `entries` is addressed to `target`.
pub open spec fn addresses(entries: Seq<Outbound>, target: Seq<char>) -> bool {
    exists|i: int| 0 <= i < entries.len() && (#[trigger] entries[i]).target@ == target
}

/// The messages that a vertex has sent during one compute call, in the order
/// of sending.
#[derive(Debug)]
pub struct Outbox {
    entries: Vec<Outbound>,
}

impl View for Outbox {
    type V = Seq<Outbound>;

    closed spec fn view(&self) -> Seq<Outbound> {
        self.entries@
    }
}

impl Outbox {
    pub fn new() -> (outbox: Self)
        ensures
            outbox@ == Seq::<Outbound>::empty(),
    {
        Outbox { entries: Vec::new() }
    }

    pub fn push(&mut self, entry: Outbound)
        ensures
            final(self)@ == old(self)@.push(entry),
    {
        self.entries.push(entry);
    }

    pub fn len(&self) -> (count: usize)
        ensures
            count == self@.len(),
    {
        self.entries.len()
    }

    pub fn is_empty(&self) -> (empty: bool)
        ensures
            empty == (self@.len() == 0),
    {
        self.entries.len() == 0
    }

    pub fn entries(&self) -> (entries: &Vec<Outbound>)
        ensures
            entries@ == self@,
    {
        &self.entries
    }

    pub fn into_entries(self) -> (entries: Vec<Outbound>)
        ensures
            entries@ == self@,
    {
        self.entries
    }

    /// Whether a message was sent to `target`.
    pub fn contains_key(&self, target: &VertexId) -> (found: bool)
        ensures
            found == addresses(self@, target@),
    {
        let mut i: usize = 0;
        while i < self.entries.len()
            invariant
                i <= self.entries.len(),
                forall|j: int| 0 <= j < i ==> (#[trigger] self.entries@[j]).target@ != target@,
            decreases self.entries.len() - i,
        {
            if self.entries[i].target == *target {
                return true;
            }
            i += 1;
        }
        false
    }

    /// The messages sent to `target`, in the order of sending, or `None`
    /// where there is none.
    pub fn get(&self, target: &VertexId) -> (found: Option<Vec<WorkflowMessage>>)
        ensures
            found is Some <==> addresses(self@, target@),
            found matches Some(messages) ==> messages@ == messages_to(self@, target@),
    {
        let mut messages: Vec<WorkflowMessage> = Vec::new();
        let mut i: usize = 0;
        while i < self.entries.len()
            invariant
                i <= self.entries.len(),
                messages@ == messages_to(self.entries@.take(i as int), target@),
                messages@.len() > 0 <==> addresses(self.entries@.take(i as int), target@),
            decreases self.entries.len() - i,
        {
            let ghost before = self.entries@.take(i as int);
            let ghost after = self.entries@.take(i + 1);
            assert(after.drop_last() =~= before);
            assert(after.last() == self.entries@[i as int]);
            if self.entries[i].target == *target {
                messages.push(self.entries[i].message.clone());
                assert(after[i as int].target@ == target@);
            } else {
                proof {
                    if addresses(after, target@) {
                        let j = choose|j: int|
                            0 <= j < after.len() && (#[trigger] after[j]).target@ == target@;
                        assert(before[j].target@ == target@);
                    }
                }
            }
            proof {
                if addresses(before, target@) {
                    let j = choose|j: int|
                        0 <= j < before.len() && (#[trigger] before[j]).target@ == target@;
                    assert(after[j].target@ == target@);
                }
            }
            i += 1;
        }
        assert(self.entries@.take(i as int) =~= self.entries@);
        if messages.len() > 0 {
            Some(messages)
        } else {
            None
        }
    }
}

/// What a vertex sees and may do during one compute call: its mailbox, the
/// shared state as it stood when the superstep began, the number of the
/// superstep, and an outbox to fill.
pub struct ComputeContext<'a, S> {
    pub vertex_id: VertexId,
    pub messages: &'a [Envelope],
    pub superstep: u64,
    pub state: &'a S,
    pub outbox: Outbox,
}

impl<'a, S> ComputeContext<'a, S> {
    /// The messages sent so far, in the order of sending.
    pub open spec fn sent(&self) -> Seq<Outbound> {
        self.outbox@
    }

    pub fn new(vertex_id: VertexId, messages: &'a [Envelope], superstep: u64, state: &'a S) -> (ctx:
        Self)
        ensures
            ctx.vertex_id == vertex_id,
            ctx.messages == messages,
            ctx.superstep == superstep,
            ctx.state == state,
            ctx.sent() == Seq::<Outbound>::empty(),
    {
        ComputeContext { vertex_id, messages, superstep, state, outbox: Outbox::new() }
    }

    /// Sends `message` to the recipient that the edges of the graph give for
    /// `target`, with normal priority.
    pub fn send_message(&mut self, target: &str, message: WorkflowMessage)
        ensures
            final(self).unchanged_but_outbox(*old(self)),
            final(self).sent().len() == old(self).sent().len() + 1,
            final(self).sent().drop_last() == old(self).sent(),
            final(self).sent().last().target@ == target@,
            final(self).sent().last().message == message,
            final(self).sent().last().priority == Priority::Normal,
    {
        self.send_with_priority(target, message, Priority::Normal);
    }

    /// Sends `message` to `target` with the given priority.
    pub fn send_with_priority(&mut self, target: &str, message: WorkflowMessage, priority: Priority)
        ensures
            final(self).unchanged_but_outbox(*old(self)),
            final(self).sent().len() == old(self).sent().len() + 1,
            final(self).sent().drop_last() == old(self).sent(),
            final(self).sent().last().target@ == target@,
            final(self).sent().last().message == message,
            final(self).sent().last().priority == priority,
    {
        let entry = Outbound { target: VertexId::new(target), message, priority };
        self.outbox.push(entry);
        assert(self.outbox@.drop_last() =~= old(self).outbox@);
    }

    /// Since `before`, one message went out, of the given label, key and
    /// priority, with a payload of the given JSON text, and nothing else
    /// changed.
    pub open spec fn sent_one(
        &self,
        before: Self,
        target: Seq<char>,
        key: Seq<char>,
        payload: Seq<char>,
        priority: Priority,
    ) -> bool {
        &&& self.unchanged_but_outbox(before)
        &&& self.sent().len() == before.sent().len() + 1
        &&& self.sent().drop_last() == before.sent()
        &&& self.sent().last().target@ == target
        &&& self.sent().last().message.key_text() == key
        &&& json_text(self.sent().last().message.payload()) == payload
        &&& self.sent().last().priority == priority
    }

    /// Everything but the outbox is as in `before`.
    pub open spec fn unchanged_but_outbox(&self, before: Self) -> bool {
        &&& self.vertex_id == before.vertex_id
        &&& self.messages == before.messages
        &&& self.superstep == before.superstep
        &&& self.state == before.state
    }

    /// Whether the mailbox holds a message.
    pub fn has_messages(&self) -> (answer: bool)
        ensures
            answer == (self.messages@.len() > 0),
    {
        self.messages.len() > 0
    }

    pub fn is_first_superstep(&self) -> (answer: bool)
        ensures
            answer == (self.superstep == 0),
    {
        self.superstep == 0
    }

    /// Ends the compute call and hands the outbox to the scheduler.
    pub fn into_outbox(self) -> (outbox: Outbox)
        ensures
            outbox@ == self.sent(),
    {
        self.outbox
    }
}

/// A unit of computation in a workflow.
///
/// A vertex sees nothing but its context: the mailbox of the superstep, the
/// workflow state as it stood when the superstep began, and the superstep
/// count. What it has to say it says through the outbox of the context and
/// through the result that it returns. A retried compute call gets the same
/// mailbox and state again, so a vertex had better be idempotent.
pub trait Vertex<S: WorkflowState> {
    /// The name of the vertex.
    fn id(&self) -> &VertexId;

    /// One compute call.
    fn compute(&self, ctx: &mut ComputeContext<'_, S>) -> Result<
        ComputeResult<S::Update>,
        PregelError,
    >;
}

} // verus!
