//! What holds of every run: where the messages of a mailbox come from, that
//! a run is a function of what goes into it, that a checkpoint brings the
//! run back, and when a run is sure to end.

use vstd::prelude::*;
use crate::pregel::checkpoint::Checkpoint;
use crate::pregel::graph::{ascending, done_label, names, position, Edge, EdgePredicate, Target};
use crate::pregel::message::{Envelope, Priority, Source};
use crate::pregel::routing::{along_edges, delivered, envelope_of, from_outbox, from_sender};
use crate::pregel::runtime::{
    after_barrier,
    can_step,
    initial,
    phase_of,
    with_report,
    Phase,
    Progress,
};
use crate::pregel::state::WorkflowState;
use crate::pregel::superstep::{
    active_after,
    inbox,
    scheduled_upto,
    vacant,
    Report,
};
use crate::pregel::vertex::{Outbound, VertexId};
use crate::text::lemma_text_order;

verus! {

/// Whether some edge takes a message of `sender` to `to`: it carries the
/// label, leads there, and admits the message.
pub open spec fn links<S: WorkflowState, P: EdgePredicate<S>>(
    edges: Seq<Edge<P>>,
    state: S::V,
    sender: Source,
    out: Outbound,
    to: Target,
) -> bool {
    exists|j: int|
        0 <= j < edges.len() && takes::<S, P>(#[trigger] edges[j], state, sender, out, to)
}

/// Whether an edge takes a message of `sender` to `to`.
pub open spec fn takes<S: WorkflowState, P: EdgePredicate<S>>(
    edge: Edge<P>,
    state: S::V,
    sender: Source,
    out: Outbound,
    to: Target,
) -> bool {
    edge.carries(sender, out.target@) && edge.target.same(to) && edge.passes::<S>(
        envelope_of(sender, out),
        state,
    )
}

/// Whether a message of `sender` reaches `to`: by an edge, or, under the
/// label `__done__`, by going to the output.
pub open spec fn reaches<S: WorkflowState, P: EdgePredicate<S>>(
    edges: Seq<Edge<P>>,
    state: S::V,
    sender: Source,
    out: Outbound,
    to: Target,
) -> bool {
    if out.target@ == done_label() {
        to is Output
    } else {
        links::<S, P>(edges, state, sender, out, to)
    }
}

/// Whether `envelope` holds the message at `k` of `outbox`, sent by `sender`,
/// and that message reaches `to`.
pub open spec fn sent_from<S: WorkflowState, P: EdgePredicate<S>>(
    edges: Seq<Edge<P>>,
    state: S::V,
    sender: Source,
    outbox: Seq<Outbound>,
    to: Target,
    envelope: Envelope,
    k: int,
) -> bool {
    &&& 0 <= k < outbox.len()
    &&& envelope == envelope_of(sender, outbox[k])
    &&& reaches::<S, P>(edges, state, sender, outbox[k], to)
}

/// Whether `envelope` holds the message at `k` in the report of the vertex at
/// `at`, and that message reaches `to`.
pub open spec fn sent_in_step<S: WorkflowState, P: EdgePredicate<S>>(
    ids: Seq<VertexId>,
    edges: Seq<Edge<P>>,
    state: S::V,
    reports: Seq<Option<Report>>,
    to: Target,
    envelope: Envelope,
    at: int,
    k: int,
) -> bool {
    &&& 0 <= at < reports.len()
    &&& reports[at] matches Some(report) && sent_from::<S, P>(
        edges,
        state,
        Source::Vertex(ids[at]),
        report.outbox@,
        to,
        envelope,
        k,
    )
}

/// Whether `envelope` holds a message of `outbox` that has the given
/// priority, was sent by `sender` and reaches `to`.
pub open spec fn sent_with<S: WorkflowState, P: EdgePredicate<S>>(
    edges: Seq<Edge<P>>,
    state: S::V,
    sender: Source,
    outbox: Seq<Outbound>,
    to: Target,
    priority: Priority,
    envelope: Envelope,
) -> bool {
    exists|k: int|
        #[trigger] sent_from::<S, P>(edges, state, sender, outbox, to, envelope, k)
            && outbox[k].priority == priority
}

/// Whether `envelope` holds a message of `outbox` that was sent by `sender`
/// and reaches `to`.
pub open spec fn sent_by<S: WorkflowState, P: EdgePredicate<S>>(
    edges: Seq<Edge<P>>,
    state: S::V,
    sender: Source,
    outbox: Seq<Outbound>,
    to: Target,
    envelope: Envelope,
) -> bool {
    exists|k: int| #[trigger] sent_from::<S, P>(edges, state, sender, outbox, to, envelope, k)
}

/// Whether `envelope` holds a message that one of the first `upto` vertices
/// reported and that reaches `to`.
pub open spec fn sent_before<S: WorkflowState, P: EdgePredicate<S>>(
    ids: Seq<VertexId>,
    edges: Seq<Edge<P>>,
    state: S::V,
    reports: Seq<Option<Report>>,
    to: Target,
    envelope: Envelope,
    upto: int,
) -> bool {
    exists|at: int, k: int|
        at < upto && #[trigger] sent_in_step::<S, P>(
            ids,
            edges,
            state,
            reports,
            to,
            envelope,
            at,
            k,
        )
}

proof fn lemma_contains_concat<T>(a: Seq<T>, b: Seq<T>, x: T)
    ensures
        (a + b).contains(x) <==> a.contains(x) || b.contains(x),
{
    let whole = a + b;
    if a.contains(x) {
        let i = choose|i: int| 0 <= i < a.len() && a[i] == x;
        assert(whole[i] == x);
    }
    if b.contains(x) {
        let i = choose|i: int| 0 <= i < b.len() && b[i] == x;
        assert(whole[a.len() + i] == x);
    }
    if whole.contains(x) {
        let i = choose|i: int| 0 <= i < whole.len() && whole[i] == x;
        if i < a.len() {
            assert(a[i] == x);
        } else {
            assert(b[i - a.len()] == x);
        }
    }
}

proof fn lemma_along_edges<S: WorkflowState, P: EdgePredicate<S>>(
    edges: Seq<Edge<P>>,
    state: S::V,
    sender: Source,
    out: Outbound,
    to: Target,
)
    ensures
        forall|i: int|
            0 <= i < along_edges::<S, P>(edges, state, sender, out, to).len() ==> (
            #[trigger] along_edges::<S, P>(edges, state, sender, out, to)[i]) == envelope_of(
                sender,
                out,
            ),
        along_edges::<S, P>(edges, state, sender, out, to).len() > 0 <==> links::<S, P>(
            edges,
            state,
            sender,
            out,
            to,
        ),
    decreases edges.len(),
{
    if edges.len() > 0 {
        let shorter = edges.drop_last();
        lemma_along_edges::<S, P>(shorter, state, sender, out, to);
        if links::<S, P>(shorter, state, sender, out, to) {
            let j = choose|j: int|
                0 <= j < shorter.len() && takes::<S, P>(
                    #[trigger] shorter[j],
                    state,
                    sender,
                    out,
                    to,
                );
            assert(takes::<S, P>(edges[j], state, sender, out, to));
        }
        if takes::<S, P>(edges.last(), state, sender, out, to) {
            assert(takes::<S, P>(edges[edges.len() - 1], state, sender, out, to));
        }
        if links::<S, P>(edges, state, sender, out, to) {
            let j = choose|j: int|
                0 <= j < edges.len() && takes::<S, P>(#[trigger] edges[j], state, sender, out, to);
            if j < shorter.len() {
                assert(takes::<S, P>(shorter[j], state, sender, out, to));
            }
        }
    }
}

proof fn lemma_delivered<S: WorkflowState, P: EdgePredicate<S>>(
    edges: Seq<Edge<P>>,
    state: S::V,
    sender: Source,
    out: Outbound,
    to: Target,
    envelope: Envelope,
)
    ensures
        delivered::<S, P>(edges, state, sender, out, to).contains(envelope) <==> envelope
            == envelope_of(sender, out) && reaches::<S, P>(edges, state, sender, out, to),
{
    lemma_along_edges::<S, P>(edges, state, sender, out, to);
    let copies = delivered::<S, P>(edges, state, sender, out, to);
    if copies.len() > 0 {
        assert(copies[0] == envelope_of(sender, out));
    }
}

proof fn lemma_from_outbox<S: WorkflowState, P: EdgePredicate<S>>(
    edges: Seq<Edge<P>>,
    state: S::V,
    sender: Source,
    outbox: Seq<Outbound>,
    to: Target,
    priority: Priority,
    envelope: Envelope,
)
    ensures
        from_outbox::<S, P>(edges, state, sender, outbox, to, priority).contains(envelope)
            <==> sent_with::<S, P>(edges, state, sender, outbox, to, priority, envelope),
    decreases outbox.len(),
{
    let whole = from_outbox::<S, P>(edges, state, sender, outbox, to, priority);
    if outbox.len() > 0 {
        let shorter = outbox.drop_last();
        let earlier = from_outbox::<S, P>(edges, state, sender, shorter, to, priority);
        let last = outbox.last();
        let fresh = delivered::<S, P>(edges, state, sender, last, to);
        lemma_from_outbox::<S, P>(edges, state, sender, shorter, to, priority, envelope);
        lemma_delivered::<S, P>(edges, state, sender, last, to, envelope);
        lemma_contains_concat(earlier, fresh, envelope);
        if sent_with::<S, P>(edges, state, sender, shorter, to, priority, envelope) {
            let k = choose|k: int|
                #[trigger] sent_from::<S, P>(edges, state, sender, shorter, to, envelope, k)
                    && shorter[k].priority == priority;
            assert(sent_from::<S, P>(edges, state, sender, outbox, to, envelope, k));
        }
        if last.priority == priority && fresh.contains(envelope) {
            assert(sent_from::<S, P>(
                edges,
                state,
                sender,
                outbox,
                to,
                envelope,
                outbox.len() - 1,
            ));
        }
        if sent_with::<S, P>(edges, state, sender, outbox, to, priority, envelope) {
            let k = choose|k: int|
                #[trigger] sent_from::<S, P>(edges, state, sender, outbox, to, envelope, k)
                    && outbox[k].priority == priority;
            if k < shorter.len() {
                assert(sent_from::<S, P>(edges, state, sender, shorter, to, envelope, k));
            }
        }
    }
}

/// What reaches a recipient from an outbox holds exactly the messages of the
/// outbox that reach the recipient, each in the envelope of the sender.
pub proof fn lemma_from_sender<S: WorkflowState, P: EdgePredicate<S>>(
    edges: Seq<Edge<P>>,
    state: S::V,
    sender: Source,
    outbox: Seq<Outbound>,
    to: Target,
    envelope: Envelope,
)
    ensures
        from_sender::<S, P>(edges, state, sender, outbox, to).contains(envelope) <==> sent_by::<
            S,
            P,
        >(edges, state, sender, outbox, to, envelope),
{
    let high = from_outbox::<S, P>(edges, state, sender, outbox, to, Priority::High);
    let normal = from_outbox::<S, P>(edges, state, sender, outbox, to, Priority::Normal);
    let low = from_outbox::<S, P>(edges, state, sender, outbox, to, Priority::Low);
    lemma_from_outbox::<S, P>(edges, state, sender, outbox, to, Priority::High, envelope);
    lemma_from_outbox::<S, P>(edges, state, sender, outbox, to, Priority::Normal, envelope);
    lemma_from_outbox::<S, P>(edges, state, sender, outbox, to, Priority::Low, envelope);
    lemma_contains_concat(high, normal, envelope);
    lemma_contains_concat(high + normal, low, envelope);
    if sent_by::<S, P>(edges, state, sender, outbox, to, envelope) {
        let k = choose|k: int|
            #[trigger] sent_from::<S, P>(edges, state, sender, outbox, to, envelope, k);
        match outbox[k].priority {
            Priority::High => {
                assert(sent_with::<S, P>(
                    edges,
                    state,
                    sender,
                    outbox,
                    to,
                    Priority::High,
                    envelope,
                ));
            },
            Priority::Normal => {
                assert(sent_with::<S, P>(
                    edges,
                    state,
                    sender,
                    outbox,
                    to,
                    Priority::Normal,
                    envelope,
                ));
            },
            Priority::Low => {
                assert(sent_with::<S, P>(
                    edges,
                    state,
                    sender,
                    outbox,
                    to,
                    Priority::Low,
                    envelope,
                ));
            },
        }
    }
}

/// What reaches a recipient from the reports of the first `upto` vertices
/// holds exactly the messages that those vertices reported and that reach
/// the recipient.
pub proof fn lemma_inbox<S: WorkflowState, P: EdgePredicate<S>>(
    ids: Seq<VertexId>,
    edges: Seq<Edge<P>>,
    state: S::V,
    reports: Seq<Option<Report>>,
    to: Target,
    upto: int,
    envelope: Envelope,
)
    requires
        0 <= upto <= reports.len(),
    ensures
        inbox::<S, P>(ids, edges, state, reports, to, upto).contains(envelope) <==> sent_before::<
            S,
            P,
        >(ids, edges, state, reports, to, envelope, upto),
    decreases upto,
{
    if upto > 0 {
        let earlier = inbox::<S, P>(ids, edges, state, reports, to, upto - 1);
        lemma_inbox::<S, P>(ids, edges, state, reports, to, upto - 1, envelope);
        let sender = Source::Vertex(ids[upto - 1]);
        if sent_before::<S, P>(ids, edges, state, reports, to, envelope, upto - 1) {
            let (at, k) = choose|at: int, k: int|
                at < upto - 1 && #[trigger] sent_in_step::<S, P>(
                    ids,
                    edges,
                    state,
                    reports,
                    to,
                    envelope,
                    at,
                    k,
                );
            assert(sent_in_step::<S, P>(ids, edges, state, reports, to, envelope, at, k));
        }
        match reports[upto - 1] {
            Some(report) => {
                let fresh = from_sender::<S, P>(edges, state, sender, report.outbox@, to);
                lemma_from_sender::<S, P>(edges, state, sender, report.outbox@, to, envelope);
                lemma_contains_concat(earlier, fresh, envelope);
                if fresh.contains(envelope) {
                    let k = choose|k: int|
                        #[trigger] sent_from::<S, P>(
                            edges,
                            state,
                            sender,
                            report.outbox@,
                            to,
                            envelope,
                            k,
                        );
                    assert(sent_in_step::<S, P>(
                        ids,
                        edges,
                        state,
                        reports,
                        to,
                        envelope,
                        upto - 1,
                        k,
                    ));
                }
            },
            None => {},
        }
        if sent_before::<S, P>(ids, edges, state, reports, to, envelope, upto) {
            let (at, k) = choose|at: int, k: int|
                at < upto && #[trigger] sent_in_step::<S, P>(
                    ids,
                    edges,
                    state,
                    reports,
                    to,
                    envelope,
                    at,
                    k,
                );
            if at < upto - 1 {
                assert(sent_before::<S, P>(ids, edges, state, reports, to, envelope, upto - 1));
            } else {
                assert(sent_from::<S, P>(
                    edges,
                    state,
                    sender,
                    reports[upto - 1]->0.outbox@,
                    to,
                    envelope,
                    k,
                ));
            }
        }
    } else {
        if sent_before::<S, P>(ids, edges, state, reports, to, envelope, upto) {
            let (at, k) = choose|at: int, k: int|
                at < upto && #[trigger] sent_in_step::<S, P>(
                    ids,
                    edges,
                    state,
                    reports,
                    to,
                    envelope,
                    at,
                    k,
                );
        }
    }
}

/// The barrier invariant. A message is in a mailbox after a barrier exactly
/// if it was sent in the superstep that the barrier ended: it is a message
/// of the outbox that some vertex handed in during that superstep, in the
/// envelope of that vertex, and an edge from that vertex leads it to the
/// owner of the mailbox. Nothing of the mailbox as it was before the barrier
/// is left, and nothing that was sent is held back.
pub proof fn lemma_barrier_invariant<S: WorkflowState, P: EdgePredicate<S>>(
    ids: Seq<VertexId>,
    edges: Seq<Edge<P>>,
    before: Progress<S>,
    vertex: int,
    envelope: Envelope,
)
    requires
        before.fits(ids.len()),
        0 <= vertex < ids.len(),
    ensures
        ({
            let after = after_barrier::<S, P>(ids, edges, before);
            after.mailboxes[vertex].contains(envelope) <==> sent_before::<S, P>(
                ids,
                edges,
                after.state,
                before.reports,
                Target::Vertex(ids[vertex]),
                envelope,
                ids.len() as int,
            )
        }),
{
    let after = after_barrier::<S, P>(ids, edges, before);
    lemma_inbox::<S, P>(
        ids,
        edges,
        after.state,
        before.reports,
        Target::Vertex(ids[vertex]),
        ids.len() as int,
        envelope,
    );
}

/// The barrier invariant at the start of a run. A message is in a mailbox
/// before the first superstep exactly if it is one of the inputs, in an
/// envelope from outside, and an edge from outside leads it to the owner of
/// the mailbox.
pub proof fn lemma_initial_mailboxes<S: WorkflowState, P: EdgePredicate<S>>(
    ids: Seq<VertexId>,
    edges: Seq<Edge<P>>,
    state: S::V,
    inputs: Seq<Outbound>,
    vertex: int,
    envelope: Envelope,
)
    requires
        0 <= vertex < ids.len(),
    ensures
        initial::<S, P>(ids, edges, state, inputs).mailboxes[vertex].contains(envelope)
            <==> sent_by::<S, P>(
            edges,
            state,
            Source::External,
            inputs,
            Target::Vertex(ids[vertex]),
            envelope,
        ),
{
    lemma_from_sender::<S, P>(
        edges,
        state,
        Source::External,
        inputs,
        Target::Vertex(ids[vertex]),
        envelope,
    );
}

/// A run with every vertex computing as `conduct` says: what each active
/// vertex hands in, given its position, its mailbox, the workflow state and
/// the superstep count.
pub open spec fn reported<S: WorkflowState>(
    before: Progress<S>,
    conduct: spec_fn(int, Seq<Envelope>, S::V, u64) -> (S::Update, Report),
) -> Progress<S> {
    Progress {
        updates: Seq::new(
            before.active.len(),
            |i: int|
                if before.active[i] {
                    Some(conduct(i, before.mailboxes[i], before.state, before.superstep).0)
                } else {
                    None
                },
        ),
        reports: Seq::new(
            before.active.len(),
            |i: int|
                if before.active[i] {
                    Some(conduct(i, before.mailboxes[i], before.state, before.superstep).1)
                } else {
                    None
                },
        ),
        ..before
    }
}

/// Whether a run goes no further: it has ended, or its next barrier cannot
/// be passed.
pub open spec fn stopped<S: WorkflowState, P: EdgePredicate<S>>(
    max_supersteps: u32,
    ids: Seq<VertexId>,
    edges: Seq<Edge<P>>,
    at: Progress<S>,
    conduct: spec_fn(int, Seq<Envelope>, S::V, u64) -> (S::Update, Report),
) -> bool {
    phase_of(max_supersteps, at) != Phase::Ready || !can_step(
        max_supersteps,
        ids,
        edges,
        reported(at, conduct),
    )
}

/// The state of a run after at most `steps` further supersteps.
pub open spec fn run_for<S: WorkflowState, P: EdgePredicate<S>>(
    max_supersteps: u32,
    ids: Seq<VertexId>,
    edges: Seq<Edge<P>>,
    from: Progress<S>,
    conduct: spec_fn(int, Seq<Envelope>, S::V, u64) -> (S::Update, Report),
    steps: nat,
) -> Progress<S>
    decreases steps,
{
    if steps == 0 || stopped::<S, P>(max_supersteps, ids, edges, from, conduct) {
        from
    } else {
        run_for::<S, P>(
            max_supersteps,
            ids,
            edges,
            after_barrier::<S, P>(ids, edges, reported(from, conduct)),
            conduct,
            (steps - 1) as nat,
        )
    }
}

/// Whether two vertices' ways of computing agree on everything they may see.
pub open spec fn alike<S: WorkflowState>(
    first: spec_fn(int, Seq<Envelope>, S::V, u64) -> (S::Update, Report),
    second: spec_fn(int, Seq<Envelope>, S::V, u64) -> (S::Update, Report),
) -> bool {
    forall|vertex: int, mailbox: Seq<Envelope>, state: S::V, superstep: u64|
        #[trigger] first(vertex, mailbox, state, superstep) == second(
            vertex,
            mailbox,
            state,
            superstep,
        )
}

/// Determinism. Two runs on the same graph that start alike, and whose
/// vertices compute alike, stand alike after any number of supersteps: the
/// same count of supersteps, the same workflow state, the same mailboxes and
/// the same output log.
pub proof fn lemma_determinism<S: WorkflowState, P: EdgePredicate<S>>(
    max_supersteps: u32,
    ids: Seq<VertexId>,
    edges: Seq<Edge<P>>,
    from: Progress<S>,
    first: spec_fn(int, Seq<Envelope>, S::V, u64) -> (S::Update, Report),
    second: spec_fn(int, Seq<Envelope>, S::V, u64) -> (S::Update, Report),
    steps: nat,
)
    requires
        alike::<S>(first, second),
    ensures
        run_for::<S, P>(max_supersteps, ids, edges, from, first, steps) == run_for::<S, P>(
            max_supersteps,
            ids,
            edges,
            from,
            second,
            steps,
        ),
    decreases steps,
{
    assert(reported(from, first) =~= reported(from, second));
    if steps > 0 && !stopped::<S, P>(max_supersteps, ids, edges, from, first) {
        lemma_determinism::<S, P>(
            max_supersteps,
            ids,
            edges,
            after_barrier::<S, P>(ids, edges, reported(from, first)),
            first,
            second,
            (steps - 1) as nat,
        );
    }
}

/// The order in which the vertices of a superstep hand in what they
/// computed does not matter.
pub proof fn lemma_submit_order<S: WorkflowState>(
    before: Progress<S>,
    first: int,
    first_update: S::Update,
    first_report: Report,
    second: int,
    second_update: S::Update,
    second_report: Report,
)
    requires
        0 <= first < before.updates.len(),
        0 <= second < before.updates.len(),
        before.updates.len() == before.reports.len(),
        first != second,
    ensures
        with_report(
            with_report(before, first, first_update, first_report),
            second,
            second_update,
            second_report,
        ) == with_report(
            with_report(before, second, second_update, second_report),
            first,
            first_update,
            first_report,
        ),
{
    let left = with_report(
        with_report(before, first, first_update, first_report),
        second,
        second_update,
        second_report,
    );
    let right = with_report(
        with_report(before, second, second_update, second_report),
        first,
        first_update,
        first_report,
    );
    assert(left.updates =~= right.updates);
    assert(left.reports =~= right.reports);
}

/// Whether `name` is among the first `upto` vertices and active.
pub open spec fn active_name(ids: Seq<VertexId>, active: Seq<bool>, name: Seq<char>, upto: int) -> bool {
    exists|j: int| 0 <= j < upto && active[j] && (#[trigger] ids[j])@ == name
}

proof fn lemma_scheduled_names(ids: Seq<VertexId>, active: Seq<bool>, name: Seq<char>, upto: int)
    requires
        0 <= upto <= ids.len(),
    ensures
        names(scheduled_upto(ids, active, upto), name) <==> active_name(ids, active, name, upto),
    decreases upto,
{
    let chosen = scheduled_upto(ids, active, upto);
    if upto > 0 {
        let earlier = scheduled_upto(ids, active, upto - 1);
        lemma_scheduled_names(ids, active, name, upto - 1);
        if names(earlier, name) {
            let i = choose|i: int| 0 <= i < earlier.len() && (#[trigger] earlier[i])@ == name;
            assert(chosen[i]@ == name);
            let j = choose|j: int| 0 <= j < upto - 1 && active[j] && (#[trigger] ids[j])@ == name;
            assert(ids[j]@ == name);
        }
        if active[upto - 1] && ids[upto - 1]@ == name {
            assert(chosen[chosen.len() - 1]@ == name);
        }
        if names(chosen, name) {
            let i = choose|i: int| 0 <= i < chosen.len() && (#[trigger] chosen[i])@ == name;
            if i < earlier.len() {
                assert(earlier[i]@ == name);
            } else {
                assert(ids[upto - 1]@ == name);
            }
        }
        if active_name(ids, active, name, upto) {
            let j = choose|j: int| 0 <= j < upto && active[j] && (#[trigger] ids[j])@ == name;
            if j < upto - 1 {
                assert(active_name(ids, active, name, upto - 1));
            }
        }
    } else {
        if names(chosen, name) {
            let i = choose|i: int| 0 <= i < chosen.len() && (#[trigger] chosen[i])@ == name;
        }
    }
}

/// Scheduling. A vertex is among those scheduled for a superstep exactly
/// if it is active when the superstep begins.
pub proof fn lemma_scheduled_iff_active(ids: Seq<VertexId>, active: Seq<bool>, vertex: int)
    requires
        ascending(ids),
        0 <= vertex < ids.len(),
    ensures
        names(scheduled_upto(ids, active, ids.len() as int), ids[vertex]@) <==> active[vertex],
{
    let count = ids.len() as int;
    lemma_scheduled_names(ids, active, ids[vertex]@, count);
    if active_name(ids, active, ids[vertex]@, count) {
        let j = choose|j: int| 0 <= j < count && active[j] && (#[trigger] ids[j])@ == ids[vertex]@;
        if j != vertex {
            lemma_text_order(ids[vertex]@, ids[j]@, ids[j]@);
            if vertex < j {
                assert(crate::text::text_before(ids[vertex]@, ids[j]@));
            } else {
                assert(crate::text::text_before(ids[j]@, ids[vertex]@));
            }
        }
    }
    if active[vertex] {
        assert(ids[vertex]@ == ids[vertex]@);
    }
}

/// Isolation. What a vertex hands in during a superstep changes nothing
/// that any vertex sees in that superstep: not the workflow state, not a
/// mailbox, not the superstep count, not the active set.
pub proof fn lemma_reports_are_invisible<S: WorkflowState>(
    before: Progress<S>,
    at: int,
    update: S::Update,
    report: Report,
)
    ensures
        with_report(before, at, update, report).state == before.state,
        with_report(before, at, update, report).mailboxes == before.mailboxes,
        with_report(before, at, update, report).superstep == before.superstep,
        with_report(before, at, update, report).active == before.active,
        with_report(before, at, update, report).outputs == before.outputs,
{
}

/// Checkpoint round trip. Resuming from a checkpoint of a run gives the run
/// back as it stood at the barrier where the checkpoint was taken: the same
/// superstep count, state, mailboxes, active set and output log. The resumed
/// run knows the checkpoint as its last one and has no request to stop.
pub proof fn lemma_checkpoint_round_trip<S: WorkflowState>(
    graph_id: Seq<char>,
    ids: Seq<VertexId>,
    progress: Progress<S>,
    record: Checkpoint<S>,
)
    requires
        ascending(ids),
        progress.fits(ids.len()),
        record.records(graph_id, ids, progress),
    ensures
        record.suits(graph_id, ids),
        record.resumed(ids) == (Progress {
            updates: vacant(ids.len()),
            reports: vacant(ids.len()),
            cancelled: false,
            last_checkpoint: Some(progress.superstep),
            ..progress
        }),
{
    let count = ids.len() as int;
    let back = record.resumed(ids);
    assert forall|k: int| 0 <= k < record.active_set@.len() implies names(
        ids,
        (#[trigger] record.active_set@[k])@,
    ) by {
        let name = record.active_set@[k]@;
        lemma_scheduled_names(ids, progress.active, name, count);
        let j = choose|j: int| 0 <= j < count && progress.active[j] && (#[trigger] ids[j])@ == name;
        assert(ids[j]@ == name);
    }
    assert forall|i: int| 0 <= i < count implies back.active[i] == progress.active[i] by {
        lemma_scheduled_iff_active(ids, progress.active, i);
    }
    assert(back.active =~= progress.active);
    assert(back.mailboxes =~= progress.mailboxes);
}

/// The last checkpoint is carried through a run and changes nothing in it.
pub proof fn lemma_checkpoint_mark<S: WorkflowState, P: EdgePredicate<S>>(
    max_supersteps: u32,
    ids: Seq<VertexId>,
    edges: Seq<Edge<P>>,
    from: Progress<S>,
    conduct: spec_fn(int, Seq<Envelope>, S::V, u64) -> (S::Update, Report),
    steps: nat,
    mark: Option<u64>,
)
    ensures
        run_for::<S, P>(
            max_supersteps,
            ids,
            edges,
            Progress { last_checkpoint: mark, ..from },
            conduct,
            steps,
        ) == (Progress {
            last_checkpoint: mark,
            ..run_for::<S, P>(max_supersteps, ids, edges, from, conduct, steps)
        }),
    decreases steps,
{
    let marked = Progress { last_checkpoint: mark, ..from };
    assert(reported(marked, conduct) =~= (Progress {
        last_checkpoint: mark,
        ..reported(from, conduct)
    }));
    assert(marked.idle() == from.idle());
    if steps > 0 && !stopped::<S, P>(max_supersteps, ids, edges, from, conduct) {
        let next = after_barrier::<S, P>(ids, edges, reported(from, conduct));
        assert(after_barrier::<S, P>(ids, edges, reported(marked, conduct)) =~= (Progress {
            last_checkpoint: mark,
            ..next
        }));
        lemma_checkpoint_mark::<S, P>(
            max_supersteps,
            ids,
            edges,
            next,
            conduct,
            (steps - 1) as nat,
            mark,
        );
    }
}

/// Resuming. A run that is resumed from a checkpoint goes on as the run
/// that was checkpointed would have: after any number of further supersteps
/// both stand alike, but for the checkpoint that the resumed run remembers.
pub proof fn lemma_resume<S: WorkflowState, P: EdgePredicate<S>>(
    max_supersteps: u32,
    graph_id: Seq<char>,
    ids: Seq<VertexId>,
    edges: Seq<Edge<P>>,
    progress: Progress<S>,
    record: Checkpoint<S>,
    conduct: spec_fn(int, Seq<Envelope>, S::V, u64) -> (S::Update, Report),
    steps: nat,
)
    requires
        ascending(ids),
        progress.fits(ids.len()),
        progress.updates == vacant::<S::Update>(ids.len()),
        progress.reports == vacant::<Report>(ids.len()),
        !progress.cancelled,
        record.records(graph_id, ids, progress),
    ensures
        run_for::<S, P>(max_supersteps, ids, edges, record.resumed(ids), conduct, steps) == (
        Progress {
            last_checkpoint: Some(progress.superstep),
            ..run_for::<S, P>(max_supersteps, ids, edges, progress, conduct, steps)
        }),
{
    lemma_checkpoint_round_trip::<S>(graph_id, ids, progress, record);
    assert(record.resumed(ids) =~= (Progress {
        last_checkpoint: Some(progress.superstep),
        ..progress
    }));
    lemma_checkpoint_mark::<S, P>(
        max_supersteps,
        ids,
        edges,
        progress,
        conduct,
        steps,
        Some(progress.superstep),
    );
}

/// Monotonicity of the active set in the deliveries. One more message in a
/// mailbox removes no vertex from the set of those that are active next.
pub proof fn lemma_delivery_keeps_active(
    mailboxes: Seq<Seq<Envelope>>,
    reports: Seq<Option<Report>>,
    to: int,
    extra: Envelope,
    vertex: int,
)
    requires
        0 <= to < mailboxes.len(),
        0 <= vertex < mailboxes.len(),
        active_after(mailboxes, reports)[vertex],
    ensures
        active_after(mailboxes.update(to, mailboxes[to].push(extra)), reports)[vertex],
{
}

/// Monotonicity of the active set in what is sent. Where a vertex hands in
/// one more message, every other vertex that would have been active after
/// the barrier is still active after it.
pub proof fn lemma_sending_keeps_active<S: WorkflowState, P: EdgePredicate<S>>(
    ids: Seq<VertexId>,
    edges: Seq<Edge<P>>,
    before: Progress<S>,
    sender: int,
    more: Report,
    extra: Outbound,
    vertex: int,
)
    requires
        before.fits(ids.len()),
        0 <= sender < ids.len(),
        0 <= vertex < ids.len(),
        vertex != sender,
        before.reports[sender] matches Some(report) && more.state == report.state
            && more.outbox@ == report.outbox@.push(extra),
        after_barrier::<S, P>(ids, edges, before).active[vertex],
    ensures
        after_barrier::<S, P>(
            ids,
            edges,
            Progress { reports: before.reports.update(sender, Some(more)), ..before },
        ).active[vertex],
{
    let report = before.reports[sender]->0;
    let reports = before.reports.update(sender, Some(more));
    let widened = Progress { reports, ..before };
    let old_run = after_barrier::<S, P>(ids, edges, before);
    let new_run = after_barrier::<S, P>(ids, edges, widened);
    let to = Target::Vertex(ids[vertex]);
    assert(new_run.state == old_run.state);
    if old_run.mailboxes[vertex].len() > 0 {
        let envelope = old_run.mailboxes[vertex][0];
        assert(old_run.mailboxes[vertex].contains(envelope));
        lemma_inbox::<S, P>(
            ids,
            edges,
            old_run.state,
            before.reports,
            to,
            ids.len() as int,
            envelope,
        );
        let (at, k) = choose|at: int, k: int|
            at < ids.len() && #[trigger] sent_in_step::<S, P>(
                ids,
                edges,
                old_run.state,
                before.reports,
                to,
                envelope,
                at,
                k,
            );
        if at == sender {
            assert(more.outbox@[k] == report.outbox@[k]);
        }
        assert(sent_in_step::<S, P>(ids, edges, old_run.state, reports, to, envelope, at, k));
        lemma_inbox::<S, P>(ids, edges, old_run.state, reports, to, ids.len() as int, envelope);
        assert(new_run.mailboxes[vertex].contains(envelope));
    }
}

/// Whether `rank` grows along an edge that runs from a vertex to a vertex.
pub open spec fn grows<P>(edge: Edge<P>, rank: spec_fn(Seq<char>) -> nat) -> bool {
    match (edge.source, edge.target) {
        (Source::Vertex(from), Target::Vertex(to)) => rank(from@) < rank(to@),
        _ => true,
    }
}

/// Whether `rank` grows along every edge. A graph has such a rank exactly
/// if it has no cycle.
pub open spec fn graded<P>(edges: Seq<Edge<P>>, rank: spec_fn(Seq<char>) -> nat) -> bool {
    forall|j: int| 0 <= j < edges.len() ==> grows(#[trigger] edges[j], rank)
}

/// Whether every active vertex has a rank of `least` or more.
pub open spec fn ranks_from(
    ids: Seq<VertexId>,
    active: Seq<bool>,
    rank: spec_fn(Seq<char>) -> nat,
    least: nat,
) -> bool {
    forall|t: int| 0 <= t < ids.len() && #[trigger] active[t] ==> rank(ids[t]@) >= least
}

/// Whether the vertices never ask to run again without having sent or
/// received anything.
pub open spec fn never_lingers<S: WorkflowState>(
    conduct: spec_fn(int, Seq<Envelope>, S::V, u64) -> (S::Update, Report),
) -> bool {
    forall|vertex: int, mailbox: Seq<Envelope>, state: S::V, superstep: u64|
        !(#[trigger] conduct(vertex, mailbox, state, superstep)).1.lingers()
}

/// In a graph without cycles, a superstep in which no vertex lingers moves
/// the active set up by one rank.
pub proof fn lemma_rank_step<S: WorkflowState, P: EdgePredicate<S>>(
    ids: Seq<VertexId>,
    edges: Seq<Edge<P>>,
    before: Progress<S>,
    rank: spec_fn(Seq<char>) -> nat,
    least: nat,
)
    requires
        graded(edges, rank),
        before.fits(ids.len()),
        ranks_from(ids, before.active, rank, least),
        forall|s: int|
            0 <= s < ids.len() ==> (#[trigger] before.reports[s] matches Some(report)
                ==> !report.lingers()),
    ensures
        ranks_from(ids, after_barrier::<S, P>(ids, edges, before).active, rank, least + 1),
{
    let after = after_barrier::<S, P>(ids, edges, before);
    assert forall|t: int| 0 <= t < ids.len() && #[trigger] after.active[t] implies rank(ids[t]@)
        >= least + 1 by {
        let to = Target::Vertex(ids[t]);
        assert(before.reports[t] matches Some(report) ==> !report.lingers());
        assert(after.mailboxes[t].len() > 0);
        let envelope = after.mailboxes[t][0];
        assert(after.mailboxes[t].contains(envelope));
        lemma_inbox::<S, P>(
            ids,
            edges,
            after.state,
            before.reports,
            to,
            ids.len() as int,
            envelope,
        );
        let (at, k) = choose|at: int, k: int|
            at < ids.len() && #[trigger] sent_in_step::<S, P>(
                ids,
                edges,
                after.state,
                before.reports,
                to,
                envelope,
                at,
                k,
            );
        let report = before.reports[at]->0;
        let sender = Source::Vertex(ids[at]);
        assert(links::<S, P>(edges, after.state, sender, report.outbox@[k], to));
        let j = choose|j: int|
            0 <= j < edges.len() && takes::<S, P>(
                #[trigger] edges[j],
                after.state,
                sender,
                report.outbox@[k],
                to,
            );
        assert(grows(edges[j], rank));
        assert(before.active[at]);
    }
}

/// Termination. In a graph without cycles, with vertices that never linger,
/// a run goes no further after as many supersteps as there are ranks: if all
/// ranks lie below `bound` and the active vertices have a rank of `least`
/// or more, then `bound - least` supersteps are enough. A run that stops
/// then, and was not asked to stop, nor reached its cap, nor sent a message
/// that cannot be routed, has handed in its result or has no vertex active.
pub proof fn lemma_acyclic_run_ends<S: WorkflowState, P: EdgePredicate<S>>(
    max_supersteps: u32,
    ids: Seq<VertexId>,
    edges: Seq<Edge<P>>,
    from: Progress<S>,
    conduct: spec_fn(int, Seq<Envelope>, S::V, u64) -> (S::Update, Report),
    rank: spec_fn(Seq<char>) -> nat,
    bound: nat,
    least: nat,
    steps: nat,
)
    requires
        graded(edges, rank),
        forall|t: int| 0 <= t < ids.len() ==> rank((#[trigger] ids[t])@) < bound,
        from.fits(ids.len()),
        ranks_from(ids, from.active, rank, least),
        never_lingers::<S>(conduct),
        least + steps >= bound,
    ensures
        ({
            let end = run_for::<S, P>(max_supersteps, ids, edges, from, conduct, steps);
            &&& stopped::<S, P>(max_supersteps, ids, edges, end, conduct)
            &&& end.superstep <= from.superstep + steps
            &&& end.cancelled == from.cancelled
            &&& end.done || end.idle() || end.cancelled || end.superstep >= max_supersteps
                || crate::pregel::superstep::any_stray(ids, edges, reported(end, conduct).reports)
        }),
    decreases steps,
{
    let end = run_for::<S, P>(max_supersteps, ids, edges, from, conduct, steps);
    if stopped::<S, P>(max_supersteps, ids, edges, from, conduct) {
        lemma_all_report::<S>(from, conduct);
    } else if steps == 0 {
        assert forall|t: int| 0 <= t < from.active.len() implies !#[trigger] from.active[t] by {
            if from.active[t] {
                assert(rank(ids[t]@) < bound);
            }
        }
        assert(from.idle());
    } else {
        let handed = reported(from, conduct);
        let next = after_barrier::<S, P>(ids, edges, handed);
        assert forall|s: int| 0 <= s < ids.len() implies (#[trigger] handed.reports[s] matches Some(
            report,
        ) ==> !report.lingers()) by {
            if from.active[s] {
                assert(!conduct(
                    s,
                    from.mailboxes[s],
                    from.state,
                    from.superstep,
                ).1.lingers());
            }
        }
        lemma_rank_step::<S, P>(ids, edges, handed, rank, least);
        lemma_acyclic_run_ends::<S, P>(
            max_supersteps,
            ids,
            edges,
            next,
            conduct,
            rank,
            bound,
            least + 1,
            (steps - 1) as nat,
        );
    }
}

/// Where every vertex computes as `conduct` says, every active vertex has
/// reported.
proof fn lemma_all_report<S: WorkflowState>(
    from: Progress<S>,
    conduct: spec_fn(int, Seq<Envelope>, S::V, u64) -> (S::Update, Report),
)
    ensures
        crate::pregel::superstep::all_reported(
            reported(from, conduct).active,
            reported(from, conduct).reports,
        ),
{
}

/// Whether `first` may stand before `second` in a mailbox: it comes from
/// an earlier sender, or from the same sender with a priority that is not
/// lower. Among themselves, messages from outside go by priority.
pub open spec fn in_delivery_order(first: Envelope, second: Envelope) -> bool {
    match (first.source, second.source) {
        (Source::Vertex(a), Source::Vertex(b)) => crate::text::text_before(a@, b@) || (a@ == b@
            && first.priority.rank_of() <= second.priority.rank_of()),
        (Source::External, Source::External) => first.priority.rank_of()
            <= second.priority.rank_of(),
        _ => false,
    }
}

proof fn lemma_one_priority<S: WorkflowState, P: EdgePredicate<S>>(
    edges: Seq<Edge<P>>,
    state: S::V,
    sender: Source,
    outbox: Seq<Outbound>,
    to: Target,
    priority: Priority,
    i: int,
)
    requires
        0 <= i < from_outbox::<S, P>(edges, state, sender, outbox, to, priority).len(),
    ensures
        from_outbox::<S, P>(edges, state, sender, outbox, to, priority)[i].source == sender,
        from_outbox::<S, P>(edges, state, sender, outbox, to, priority)[i].priority == priority,
{
    let part = from_outbox::<S, P>(edges, state, sender, outbox, to, priority);
    assert(part.contains(part[i]));
    lemma_from_outbox::<S, P>(edges, state, sender, outbox, to, priority, part[i]);
}

/// What one sender sends to one recipient arrives by priority, the highest
/// first, and all of it in the envelope of the sender.
pub proof fn lemma_sender_order<S: WorkflowState, P: EdgePredicate<S>>(
    edges: Seq<Edge<P>>,
    state: S::V,
    sender: Source,
    outbox: Seq<Outbound>,
    to: Target,
    i: int,
    j: int,
)
    requires
        0 <= i <= j < from_sender::<S, P>(edges, state, sender, outbox, to).len(),
    ensures
        from_sender::<S, P>(edges, state, sender, outbox, to)[i].source == sender,
        from_sender::<S, P>(edges, state, sender, outbox, to)[j].source == sender,
        from_sender::<S, P>(edges, state, sender, outbox, to)[i].priority.rank_of()
            <= from_sender::<S, P>(edges, state, sender, outbox, to)[j].priority.rank_of(),
{
    let high = from_outbox::<S, P>(edges, state, sender, outbox, to, Priority::High);
    let normal = from_outbox::<S, P>(edges, state, sender, outbox, to, Priority::Normal);
    let low = from_outbox::<S, P>(edges, state, sender, outbox, to, Priority::Low);
    let whole = from_sender::<S, P>(edges, state, sender, outbox, to);
    assert forall|k: int| 0 <= k < whole.len() implies (#[trigger] whole[k]).source == sender && (
    if k < high.len() {
        whole[k].priority == Priority::High
    } else if k < high.len() + normal.len() {
        whole[k].priority == Priority::Normal
    } else {
        whole[k].priority == Priority::Low
    }) by {
        if k < high.len() {
            assert(whole[k] == high[k]);
            lemma_one_priority::<S, P>(edges, state, sender, outbox, to, Priority::High, k);
        } else if k < high.len() + normal.len() {
            assert(whole[k] == normal[k - high.len()]);
            lemma_one_priority::<S, P>(
                edges,
                state,
                sender,
                outbox,
                to,
                Priority::Normal,
                k - high.len(),
            );
        } else {
            assert(whole[k] == low[k - high.len() - normal.len()]);
            lemma_one_priority::<S, P>(
                edges,
                state,
                sender,
                outbox,
                to,
                Priority::Low,
                k - high.len() - normal.len(),
            );
        }
    }
    assert(whole[i].source == sender);
    assert(whole[j].source == sender);
}

proof fn lemma_inbox_order<S: WorkflowState, P: EdgePredicate<S>>(
    ids: Seq<VertexId>,
    edges: Seq<Edge<P>>,
    state: S::V,
    reports: Seq<Option<Report>>,
    to: Target,
    upto: int,
    i: int,
    j: int,
)
    requires
        ascending(ids),
        reports.len() == ids.len(),
        0 <= upto <= reports.len(),
        0 <= i < j < inbox::<S, P>(ids, edges, state, reports, to, upto).len(),
    ensures
        in_delivery_order(
            inbox::<S, P>(ids, edges, state, reports, to, upto)[i],
            inbox::<S, P>(ids, edges, state, reports, to, upto)[j],
        ),
    decreases upto,
{
    let whole = inbox::<S, P>(ids, edges, state, reports, to, upto);
    if upto > 0 {
        let earlier = inbox::<S, P>(ids, edges, state, reports, to, upto - 1);
        let sender = Source::Vertex(ids[upto - 1]);
        match reports[upto - 1] {
            Some(report) => {
                let fresh = from_sender::<S, P>(edges, state, sender, report.outbox@, to);
                if j < earlier.len() {
                    assert(whole[i] == earlier[i] && whole[j] == earlier[j]);
                    lemma_inbox_order::<S, P>(ids, edges, state, reports, to, upto - 1, i, j);
                } else if i >= earlier.len() {
                    assert(whole[i] == fresh[i - earlier.len()]);
                    assert(whole[j] == fresh[j - earlier.len()]);
                    lemma_sender_order::<S, P>(
                        edges,
                        state,
                        sender,
                        report.outbox@,
                        to,
                        i - earlier.len(),
                        j - earlier.len(),
                    );
                } else {
                    assert(whole[i] == earlier[i]);
                    assert(whole[j] == fresh[j - earlier.len()]);
                    lemma_sender_order::<S, P>(
                        edges,
                        state,
                        sender,
                        report.outbox@,
                        to,
                        j - earlier.len(),
                        j - earlier.len(),
                    );
                    assert(earlier.contains(earlier[i]));
                    lemma_inbox::<S, P>(ids, edges, state, reports, to, upto - 1, earlier[i]);
                    let (at, k) = choose|at: int, k: int|
                        at < upto - 1 && #[trigger] sent_in_step::<S, P>(
                            ids,
                            edges,
                            state,
                            reports,
                            to,
                            earlier[i],
                            at,
                            k,
                        );
                    assert(earlier[i].source == Source::Vertex(ids[at]));
                    assert(crate::text::text_before(ids[at]@, ids[upto - 1]@));
                }
            },
            None => {
                lemma_inbox_order::<S, P>(ids, edges, state, reports, to, upto - 1, i, j);
            },
        }
    }
}

/// The order within a mailbox. After a barrier the messages of a mailbox
/// stand in ascending order of their senders, and those of one sender by
/// priority, the highest first.
pub proof fn lemma_mailbox_order<S: WorkflowState, P: EdgePredicate<S>>(
    ids: Seq<VertexId>,
    edges: Seq<Edge<P>>,
    before: Progress<S>,
    vertex: int,
    i: int,
    j: int,
)
    requires
        ascending(ids),
        before.fits(ids.len()),
        0 <= vertex < ids.len(),
        0 <= i < j < after_barrier::<S, P>(ids, edges, before).mailboxes[vertex].len(),
    ensures
        in_delivery_order(
            after_barrier::<S, P>(ids, edges, before).mailboxes[vertex][i],
            after_barrier::<S, P>(ids, edges, before).mailboxes[vertex][j],
        ),
{
    let after = after_barrier::<S, P>(ids, edges, before);
    lemma_inbox_order::<S, P>(
        ids,
        edges,
        after.state,
        before.reports,
        Target::Vertex(ids[vertex]),
        ids.len() as int,
        i,
        j,
    );
}

} // verus!
