//! From outboxes to mailboxes: which envelopes a recipient gets from what a
//! sender has sent, and in which order.
//!
//! A message goes along every edge that carries its label from its sender
//! and whose guard admits it; a message under the label `__done__` goes to
//! the output. What one sender sends to one recipient arrives sorted by
//! priority, highest first, and within one priority in the order of sending.

use vstd::prelude::*;
use crate::pregel::graph::{done_label, Edge, EdgePredicate, Target};
use crate::pregel::message::{Envelope, Priority, Source};
use crate::pregel::state::WorkflowState;
use crate::pregel::vertex::Outbound;
use crate::text::str_eq;

verus! {

/// The envelope in which a message of `sender` reaches a mailbox.
pub open spec fn envelope_of(sender: Source, out: Outbound) -> Envelope {
    Envelope { message: out.message, priority: out.priority, source: sender }
}

/// Whether some edge is the rule for what `sender` sends under `label`.
pub open spec fn has_edge<P>(edges: Seq<Edge<P>>, sender: Source, label: Seq<char>) -> bool {
    exists|k: int| 0 <= k < edges.len() && (#[trigger] edges[k]).carries(sender, label)
}

/// Whether a message under `label` can be routed at all.
pub open spec fn has_route<P>(edges: Seq<Edge<P>>, sender: Source, label: Seq<char>) -> bool {
    label == done_label() || has_edge(edges, sender, label)
}

/// The copies of one message that reach `to` along the edges, one for each
/// edge that carries it there and admits it.
pub open spec fn along_edges<S: WorkflowState, P: EdgePredicate<S>>(
    edges: Seq<Edge<P>>,
    state: S::V,
    sender: Source,
    out: Outbound,
    to: Target,
) -> Seq<Envelope>
    decreases edges.len(),
{
    if edges.len() == 0 {
        Seq::empty()
    } else {
        let earlier = along_edges::<S, P>(edges.drop_last(), state, sender, out, to);
        let edge = edges.last();
        if edge.carries(sender, out.target@) && edge.target.same(to) && edge.passes::<S>(
            envelope_of(sender, out),
            state,
        ) {
            earlier.push(envelope_of(sender, out))
        } else {
            earlier
        }
    }
}

/// The copies of one message that reach `to`.
pub open spec fn delivered<S: WorkflowState, P: EdgePredicate<S>>(
    edges: Seq<Edge<P>>,
    state: S::V,
    sender: Source,
    out: Outbound,
    to: Target,
) -> Seq<Envelope> {
    if out.target@ == done_label() {
        if to is Output {
            seq![envelope_of(sender, out)]
        } else {
            Seq::empty()
        }
    } else {
        along_edges::<S, P>(edges, state, sender, out, to)
    }
}

/// What reaches `to` from the messages of one priority in an outbox, in the
/// order of sending.
pub open spec fn from_outbox<S: WorkflowState, P: EdgePredicate<S>>(
    edges: Seq<Edge<P>>,
    state: S::V,
    sender: Source,
    outbox: Seq<Outbound>,
    to: Target,
    priority: Priority,
) -> Seq<Envelope>
    decreases outbox.len(),
{
    if outbox.len() == 0 {
        Seq::empty()
    } else {
        let earlier = from_outbox::<S, P>(edges, state, sender, outbox.drop_last(), to, priority);
        if outbox.last().priority == priority {
            earlier + delivered::<S, P>(edges, state, sender, outbox.last(), to)
        } else {
            earlier
        }
    }
}

/// What reaches `to` from one outbox: the high priority first, the low last.
pub open spec fn from_sender<S: WorkflowState, P: EdgePredicate<S>>(
    edges: Seq<Edge<P>>,
    state: S::V,
    sender: Source,
    outbox: Seq<Outbound>,
    to: Target,
) -> Seq<Envelope> {
    from_outbox::<S, P>(edges, state, sender, outbox, to, Priority::High) + from_outbox::<S, P>(
        edges,
        state,
        sender,
        outbox,
        to,
        Priority::Normal,
    ) + from_outbox::<S, P>(edges, state, sender, outbox, to, Priority::Low)
}

/// Whether an outbox holds a message that cannot be routed.
pub open spec fn has_stray<P>(edges: Seq<Edge<P>>, sender: Source, outbox: Seq<Outbound>) -> bool {
    exists|k: int| 0 <= k < outbox.len() && !has_route(edges, sender, (#[trigger] outbox[k]).target@)
}

/// Whether an outbox holds a message under the label `__done__`.
pub open spec fn hands_in(outbox: Seq<Outbound>) -> bool {
    exists|k: int| 0 <= k < outbox.len() && (#[trigger] outbox[k]).target@ == done_label()
}

/// Whether some edge is the rule for what `sender` sends under `label`.
pub fn edge_for<P>(edges: &Vec<Edge<P>>, sender: &Source, label: &str) -> (found: bool)
    ensures
        found == has_edge(edges@, *sender, label@),
{
    let mut k: usize = 0;
    while k < edges.len()
        invariant
            k <= edges.len(),
            forall|j: int| 0 <= j < k ==> !(#[trigger] edges@[j]).carries(*sender, label@),
        decreases edges.len() - k,
    {
        if edges[k].source.is_same(sender) && str_eq(edges[k].label.as_str(), label) {
            return true;
        }
        k += 1;
    }
    false
}

/// The first message of an outbox that cannot be routed, if there is one.
pub fn find_stray<P>(edges: &Vec<Edge<P>>, sender: &Source, outbox: &Vec<Outbound>) -> (found:
    Option<usize>)
    ensures
        found is Some <==> has_stray(edges@, *sender, outbox@),
        found matches Some(k) ==> k < outbox@.len() && !has_route(
            edges@,
            *sender,
            outbox@[k as int].target@,
        ) && forall|j: int|
            0 <= j < k ==> has_route(edges@, *sender, (#[trigger] outbox@[j]).target@),
{
    let mut k: usize = 0;
    while k < outbox.len()
        invariant
            k <= outbox.len(),
            forall|j: int|
                0 <= j < k ==> has_route(edges@, *sender, (#[trigger] outbox@[j]).target@),
        decreases outbox.len() - k,
    {
        let label = outbox[k].target.as_str();
        if !str_eq(label, "__done__") && !edge_for(edges, sender, label) {
            return Some(k);
        }
        k += 1;
    }
    None
}

/// Whether an outbox holds a message under the label `__done__`.
pub fn finds_done(outbox: &Vec<Outbound>) -> (found: bool)
    ensures
        found == hands_in(outbox@),
{
    let mut k: usize = 0;
    while k < outbox.len()
        invariant
            k <= outbox.len(),
            forall|j: int| 0 <= j < k ==> (#[trigger] outbox@[j]).target@ != done_label(),
        decreases outbox.len() - k,
    {
        if str_eq(outbox[k].target.as_str(), "__done__") {
            return true;
        }
        k += 1;
    }
    false
}

/// Appends to `inbox` the copies of one message that reach `to`.
pub fn deliver_message<S: WorkflowState, P: EdgePredicate<S>>(
    edges: &Vec<Edge<P>>,
    state: &S,
    sender: &Source,
    out: &Outbound,
    to: &Target,
    inbox: &mut Vec<Envelope>,
)
    ensures
        final(inbox)@ == old(inbox)@ + delivered::<S, P>(edges@, state@, *sender, *out, *to),
{
    let ghost start = inbox@;
    if str_eq(out.target.as_str(), "__done__") {
        match to {
            Target::Output => {
                inbox.push(
                    Envelope {
                        message: out.message.clone(),
                        priority: out.priority,
                        source: sender.clone(),
                    },
                );
                assert(inbox@ =~= start + seq![envelope_of(*sender, *out)]);
            },
            Target::Vertex(_) => {
                assert(inbox@ =~= start + Seq::<Envelope>::empty());
            },
        }
        return ;
    }
    let mut k: usize = 0;
    assert(edges@.take(0) =~= Seq::<Edge<P>>::empty());
    assert(inbox@ =~= start + Seq::<Envelope>::empty());
    while k < edges.len()
        invariant
            k <= edges.len(),
            inbox@ == start + along_edges::<S, P>(
                edges@.take(k as int),
                state@,
                *sender,
                *out,
                *to,
            ),
        decreases edges.len() - k,
    {
        let ghost seen = edges@.take(k as int);
        let ghost next = edges@.take(k + 1);
        assert(next.drop_last() =~= seen);
        assert(next.last() == edges@[k as int]);
        let edge = &edges[k];
        if edge.source.is_same(sender) && str_eq(edge.label.as_str(), out.target.as_str())
            && edge.target.is_same(to) {
            let envelope = Envelope {
                message: out.message.clone(),
                priority: out.priority,
                source: sender.clone(),
            };
            let pass = match &edge.guard {
                Some(guard) => guard.test(&envelope, state),
                None => true,
            };
            if pass {
                inbox.push(envelope);
                assert(inbox@ =~= start + along_edges::<S, P>(
                    seen,
                    state@,
                    *sender,
                    *out,
                    *to,
                ).push(envelope_of(*sender, *out)));
            }
        }
        k += 1;
    }
    assert(edges@.take(k as int) =~= edges@);
}

/// Appends to `inbox` what reaches `to` from the messages of one priority in
/// an outbox.
pub fn deliver_priority<S: WorkflowState, P: EdgePredicate<S>>(
    edges: &Vec<Edge<P>>,
    state: &S,
    sender: &Source,
    outbox: &Vec<Outbound>,
    to: &Target,
    priority: Priority,
    inbox: &mut Vec<Envelope>,
)
    ensures
        final(inbox)@ == old(inbox)@ + from_outbox::<S, P>(
            edges@,
            state@,
            *sender,
            outbox@,
            *to,
            priority,
        ),
{
    let ghost start = inbox@;
    let mut k: usize = 0;
    assert(outbox@.take(0) =~= Seq::<Outbound>::empty());
    assert(inbox@ =~= start + Seq::<Envelope>::empty());
    while k < outbox.len()
        invariant
            k <= outbox.len(),
            inbox@ == start + from_outbox::<S, P>(
                edges@,
                state@,
                *sender,
                outbox@.take(k as int),
                *to,
                priority,
            ),
        decreases outbox.len() - k,
    {
        let ghost seen = outbox@.take(k as int);
        let ghost next = outbox@.take(k + 1);
        assert(next.drop_last() =~= seen);
        assert(next.last() == outbox@[k as int]);
        let ghost before = inbox@;
        if outbox[k].priority == priority {
            deliver_message::<S, P>(edges, state, sender, &outbox[k], to, inbox);
            assert(inbox@ =~= start + (from_outbox::<S, P>(
                edges@,
                state@,
                *sender,
                seen,
                *to,
                priority,
            ) + delivered::<S, P>(edges@, state@, *sender, outbox@[k as int], *to)));
        }
        k += 1;
    }
    assert(outbox@.take(k as int) =~= outbox@);
}

/// Appends to `inbox` what reaches `to` from one outbox.
pub fn deliver_sender<S: WorkflowState, P: EdgePredicate<S>>(
    edges: &Vec<Edge<P>>,
    state: &S,
    sender: &Source,
    outbox: &Vec<Outbound>,
    to: &Target,
    inbox: &mut Vec<Envelope>,
)
    ensures
        final(inbox)@ == old(inbox)@ + from_sender::<S, P>(edges@, state@, *sender, outbox@, *to),
{
    let ghost start = inbox@;
    deliver_priority::<S, P>(edges, state, sender, outbox, to, Priority::High, inbox);
    deliver_priority::<S, P>(edges, state, sender, outbox, to, Priority::Normal, inbox);
    deliver_priority::<S, P>(edges, state, sender, outbox, to, Priority::Low, inbox);
    assert(inbox@ =~= start + from_sender::<S, P>(edges@, state@, *sender, outbox@, *to));
}

} // verus!
