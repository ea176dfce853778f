//! What one superstep does, piece by piece: which reports are wanting, how
//! the updates are merged, what each mailbox holds afterwards and who is
//! active then.

use vstd::prelude::*;
use crate::pregel::graph::{Edge, EdgePredicate, Graph, Target};
use crate::pregel::message::{Envelope, Source};
use crate::pregel::routing::{
    deliver_sender,
    find_stray,
    finds_done,
    from_sender,
    hands_in,
    has_route,
    has_stray,
};
use crate::pregel::state::{merged_all, StateMerger, WorkflowState};
use crate::pregel::vertex::{Outbound, VertexId, VertexState};

verus! {

/// What the scheduler keeps of a compute call once its update is set aside
/// for the merge: the outbox and the state that the vertex asked for.
#[derive(Debug)]
pub struct Report {
    pub state: VertexState,
    pub outbox: Vec<Outbound>,
}

impl Report {
    /// Whether the vertex asked to stay active and sent nothing: it then
    /// runs again, on an empty mailbox.
    pub open spec fn lingers(&self) -> bool {
        self.state == VertexState::Active && self.outbox@.len() == 0
    }
}

/// The values that stand in the slots, in the order of the slots.
pub open spec fn collected<U>(slots: Seq<Option<U>>) -> Seq<U>
    decreases slots.len(),
{
    if slots.len() == 0 {
        Seq::empty()
    } else {
        let earlier = collected(slots.drop_last());
        match slots.last() {
            Some(value) => earlier.push(value),
            None => earlier,
        }
    }
}

/// A row of empty slots.
pub open spec fn vacant<T>(count: nat) -> Seq<Option<T>> {
    Seq::new(count, |i: int| None)
}

/// Whether every active vertex has reported.
pub open spec fn all_reported(active: Seq<bool>, reports: Seq<Option<Report>>) -> bool {
    forall|i: int| 0 <= i < active.len() && active[i] ==> (#[trigger] reports[i]) is Some
}

/// Whether one of the reports holds a message that cannot be routed.
pub open spec fn any_stray<P>(
    ids: Seq<VertexId>,
    edges: Seq<Edge<P>>,
    reports: Seq<Option<Report>>,
) -> bool {
    exists|i: int|
        0 <= i < reports.len() && stray_in(ids, edges, #[trigger] reports[i], i)
}

/// Whether the report of the vertex at `at` holds a message that cannot be
/// routed.
pub open spec fn stray_in<P>(
    ids: Seq<VertexId>,
    edges: Seq<Edge<P>>,
    report: Option<Report>,
    at: int,
) -> bool {
    report matches Some(r) && has_stray(edges, Source::Vertex(ids[at]), r.outbox@)
}

/// Whether one of the reports hands in the result of the workflow.
pub open spec fn any_done(reports: Seq<Option<Report>>) -> bool {
    exists|i: int| 0 <= i < reports.len() && done_in(#[trigger] reports[i])
}

pub open spec fn done_in(report: Option<Report>) -> bool {
    report matches Some(r) && hands_in(r.outbox@)
}

/// What reaches `to` from the reports of the first `upto` vertices: sender
/// by sender in ascending order, and for each sender as `from_sender` says.
pub open spec fn inbox<S: WorkflowState, P: EdgePredicate<S>>(
    ids: Seq<VertexId>,
    edges: Seq<Edge<P>>,
    state: S::V,
    reports: Seq<Option<Report>>,
    to: Target,
    upto: int,
) -> Seq<Envelope>
    decreases upto,
{
    if upto <= 0 {
        Seq::empty()
    } else {
        let earlier = inbox::<S, P>(ids, edges, state, reports, to, upto - 1);
        match reports[upto - 1] {
            Some(report) => earlier + from_sender::<S, P>(
                edges,
                state,
                Source::Vertex(ids[upto - 1]),
                report.outbox@,
                to,
            ),
            None => earlier,
        }
    }
}

/// The mailboxes after a superstep: for each vertex, what reaches it.
pub open spec fn mailboxes_after<S: WorkflowState, P: EdgePredicate<S>>(
    ids: Seq<VertexId>,
    edges: Seq<Edge<P>>,
    state: S::V,
    reports: Seq<Option<Report>>,
) -> Seq<Seq<Envelope>> {
    Seq::new(
        ids.len(),
        |t: int| inbox::<S, P>(ids, edges, state, reports, Target::Vertex(ids[t]), ids.len() as int),
    )
}

/// Who is active after a superstep: every vertex with a message in its new
/// mailbox, and every vertex that lingers.
pub open spec fn active_after(mailboxes: Seq<Seq<Envelope>>, reports: Seq<Option<Report>>) -> Seq<
    bool,
> {
    Seq::new(
        mailboxes.len(),
        |t: int|
            mailboxes[t].len() > 0 || (reports[t] matches Some(report) && report.lingers()),
    )
}

/// The active ones among the first `upto` vertices, in ascending order.
pub open spec fn scheduled_upto(ids: Seq<VertexId>, active: Seq<bool>, upto: int) -> Seq<VertexId>
    decreases upto,
{
    if upto <= 0 {
        Seq::empty()
    } else {
        let earlier = scheduled_upto(ids, active, upto - 1);
        if active[upto - 1] {
            earlier.push(ids[upto - 1])
        } else {
            earlier
        }
    }
}

/// Whether the vertex at `at` is the first active one that has not reported.
pub open spec fn is_first_unreported(
    active: Seq<bool>,
    reports: Seq<Option<Report>>,
    at: int,
) -> bool {
    &&& 0 <= at < active.len()
    &&& active[at] && reports[at] is None
    &&& forall|j: int| 0 <= j < at && active[j] ==> (#[trigger] reports[j]) is Some
}

/// Whether the message at `k` in the report of the vertex at `at` is the
/// first, in the order of the vertices and of sending, that cannot be
/// routed.
pub open spec fn is_first_stray<P>(
    ids: Seq<VertexId>,
    edges: Seq<Edge<P>>,
    reports: Seq<Option<Report>>,
    at: int,
    k: int,
) -> bool {
    &&& 0 <= at < reports.len()
    &&& forall|j: int| 0 <= j < at ==> !stray_in(ids, edges, #[trigger] reports[j], j)
    &&& reports[at] matches Some(report) && 0 <= k < report.outbox@.len() && !has_route(
        edges,
        Source::Vertex(ids[at]),
        report.outbox@[k].target@,
    ) && forall|j: int|
        0 <= j < k ==> has_route(
            edges,
            Source::Vertex(ids[at]),
            (#[trigger] report.outbox@[j]).target@,
        )
}

/// The first active vertex that has not reported, if there is one.
pub fn first_unreported(active: &Vec<bool>, reports: &Vec<Option<Report>>) -> (found: Option<usize>)
    requires
        active@.len() == reports@.len(),
    ensures
        found is None <==> all_reported(active@, reports@),
        found matches Some(i) ==> is_first_unreported(active@, reports@, i as int),
{
    let mut i: usize = 0;
    while i < active.len()
        invariant
            i <= active.len(),
            active@.len() == reports@.len(),
            forall|j: int| 0 <= j < i && active@[j] ==> (#[trigger] reports@[j]) is Some,
        decreases active.len() - i,
    {
        if active[i] && reports[i].is_none() {
            return Some(i);
        }
        i += 1;
    }
    None
}

/// The first message in the reports that cannot be routed, if there is one:
/// the position of the vertex and that of the message in its outbox.
pub fn first_stray<P>(graph: &Graph<P>, reports: &Vec<Option<Report>>) -> (found: Option<
    (usize, usize),
>)
    requires
        reports@.len() == graph.vertex_ids().len(),
    ensures
        found is Some <==> any_stray(graph.vertex_ids(), graph.edge_list(), reports@),
        found matches Some((i, k)) ==> is_first_stray(
            graph.vertex_ids(),
            graph.edge_list(),
            reports@,
            i as int,
            k as int,
        ),
{
    let ghost ids = graph.vertex_ids();
    let ghost edges = graph.edge_list();
    let mut i: usize = 0;
    while i < reports.len()
        invariant
            i <= reports.len(),
            reports@.len() == graph.vertex_ids().len(),
            ids == graph.vertex_ids(),
            edges == graph.edge_list(),
            forall|j: int| 0 <= j < i ==> !stray_in(ids, edges, #[trigger] reports@[j], j),
        decreases reports.len() - i,
    {
        match &reports[i] {
            Some(report) => {
                let sender = Source::Vertex(graph.vertex(i).clone());
                match find_stray(graph.edges(), &sender, &report.outbox) {
                    Some(k) => {
                        assert(stray_in(ids, edges, reports@[i as int], i as int));
                        return Some((i, k));
                    },
                    None => {},
                }
            },
            None => {},
        }
        i += 1;
    }
    None
}

/// Whether one of the reports hands in the result of the workflow.
pub fn finds_any_done(reports: &Vec<Option<Report>>) -> (found: bool)
    ensures
        found == any_done(reports@),
{
    let mut i: usize = 0;
    while i < reports.len()
        invariant
            i <= reports.len(),
            forall|j: int| 0 <= j < i ==> !done_in(#[trigger] reports@[j]),
        decreases reports.len() - i,
    {
        let here = match &reports[i] {
            Some(report) => finds_done(&report.outbox),
            None => false,
        };
        if here {
            assert(done_in(reports@[i as int]));
            return true;
        }
        i += 1;
    }
    false
}

/// Merges the updates that stand in the slots, in the order of the slots,
/// and empties the slots.
pub fn merge_pending<S: WorkflowState>(
    merger: &mut StateMerger<S>,
    updates: &mut Vec<Option<S::Update>>,
)
    ensures
        final(merger).model() == merged_all::<S>(old(merger).model(), collected(old(updates)@)),
        final(updates)@ == vacant::<S::Update>(old(updates)@.len()),
{
    let ghost start = merger.model();
    let ghost all = updates@;
    let mut i: usize = 0;
    assert(all.take(0) =~= Seq::<Option<S::Update>>::empty());
    while i < updates.len()
        invariant
            i <= updates.len(),
            updates@.len() == all.len(),
            forall|j: int| 0 <= j < i ==> (#[trigger] updates@[j]) is None,
            forall|j: int| i <= j < all.len() ==> (#[trigger] updates@[j]) == all[j],
            merger.model() == merged_all::<S>(start, collected(all.take(i as int))),
        decreases updates.len() - i,
    {
        let ghost seen = all.take(i as int);
        let ghost next = all.take(i + 1);
        assert(next.drop_last() =~= seen);
        assert(next.last() == all[i as int]);
        let taken = updates[i].take();
        match taken {
            Some(update) => {
                merger.apply(update);
                assert(collected(next).drop_last() =~= collected(seen));
            },
            None => {},
        }
        i += 1;
    }
    assert(all.take(i as int) =~= all);
    assert(updates@ =~= vacant::<S::Update>(all.len()));
}

/// What reaches `to` from the reports.
pub fn gather<S: WorkflowState, P: EdgePredicate<S>>(
    graph: &Graph<P>,
    state: &S,
    reports: &Vec<Option<Report>>,
    to: &Target,
) -> (arrived: Vec<Envelope>)
    requires
        reports@.len() == graph.vertex_ids().len(),
    ensures
        arrived@ == inbox::<S, P>(
            graph.vertex_ids(),
            graph.edge_list(),
            state@,
            reports@,
            *to,
            reports@.len() as int,
        ),
{
    let mut arrived: Vec<Envelope> = Vec::new();
    let mut i: usize = 0;
    while i < reports.len()
        invariant
            i <= reports.len(),
            reports@.len() == graph.vertex_ids().len(),
            arrived@ == inbox::<S, P>(
                graph.vertex_ids(),
                graph.edge_list(),
                state@,
                reports@,
                *to,
                i as int,
            ),
        decreases reports.len() - i,
    {
        match &reports[i] {
            Some(report) => {
                let sender = Source::Vertex(graph.vertex(i).clone());
                deliver_sender::<S, P>(
                    graph.edges(),
                    state,
                    &sender,
                    &report.outbox,
                    to,
                    &mut arrived,
                );
            },
            None => {},
        }
        i += 1;
    }
    arrived
}

/// The mailboxes after a superstep.
pub fn fill_mailboxes<S: WorkflowState, P: EdgePredicate<S>>(
    graph: &Graph<P>,
    state: &S,
    reports: &Vec<Option<Report>>,
) -> (mailboxes: Vec<Vec<Envelope>>)
    requires
        reports@.len() == graph.vertex_ids().len(),
    ensures
        mailbox_views(mailboxes@) == mailboxes_after::<S, P>(
            graph.vertex_ids(),
            graph.edge_list(),
            state@,
            reports@,
        ),
{
    let mut mailboxes: Vec<Vec<Envelope>> = Vec::new();
    let mut t: usize = 0;
    while t < graph.len()
        invariant
            t <= graph.vertex_ids().len(),
            reports@.len() == graph.vertex_ids().len(),
            mailboxes@.len() == t,
            forall|u: int|
                0 <= u < t ==> (#[trigger] mailboxes@[u])@ == inbox::<S, P>(
                    graph.vertex_ids(),
                    graph.edge_list(),
                    state@,
                    reports@,
                    Target::Vertex(graph.vertex_ids()[u]),
                    graph.vertex_ids().len() as int,
                ),
        decreases graph.vertex_ids().len() - t,
    {
        let to = Target::Vertex(graph.vertex(t).clone());
        let arrived = gather::<S, P>(graph, state, reports, &to);
        mailboxes.push(arrived);
        t += 1;
    }
    assert(mailbox_views(mailboxes@) =~= mailboxes_after::<S, P>(
        graph.vertex_ids(),
        graph.edge_list(),
        state@,
        reports@,
    ));
    mailboxes
}

/// The contents of a row of mailboxes.
pub open spec fn mailbox_views(mailboxes: Seq<Vec<Envelope>>) -> Seq<Seq<Envelope>> {
    Seq::new(mailboxes.len(), |t: int| mailboxes[t]@)
}

/// Who is active after a superstep.
pub fn mark_active(mailboxes: &Vec<Vec<Envelope>>, reports: &Vec<Option<Report>>) -> (active: Vec<
    bool,
>)
    requires
        mailboxes@.len() == reports@.len(),
    ensures
        active@ == active_after(mailbox_views(mailboxes@), reports@),
{
    let mut active: Vec<bool> = Vec::new();
    let mut t: usize = 0;
    while t < mailboxes.len()
        invariant
            t <= mailboxes.len(),
            mailboxes@.len() == reports@.len(),
            active@.len() == t,
            forall|u: int|
                0 <= u < t ==> (#[trigger] active@[u]) == (mailboxes@[u]@.len() > 0 || (
                reports@[u] matches Some(report) && report.lingers())),
        decreases mailboxes.len() - t,
    {
        let lingers = match &reports[t] {
            Some(report) => report.state.is_active() && report.outbox.len() == 0,
            None => false,
        };
        active.push(mailboxes[t].len() > 0 || lingers);
        t += 1;
    }
    assert(active@ =~= active_after(mailbox_views(mailboxes@), reports@));
    active
}

/// A row of empty slots.
pub fn vacant_slots<T>(count: usize) -> (slots: Vec<Option<T>>)
    ensures
        slots@ == vacant::<T>(count as nat),
{
    let mut slots: Vec<Option<T>> = Vec::new();
    let mut i: usize = 0;
    while i < count
        invariant
            i <= count,
            slots@.len() == i,
            forall|j: int| 0 <= j < i ==> (#[trigger] slots@[j]) is None,
        decreases count - i,
    {
        slots.push(None);
        i += 1;
    }
    assert(slots@ =~= vacant::<T>(count as nat));
    slots
}

} // verus!
