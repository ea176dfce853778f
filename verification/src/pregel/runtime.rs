//! The scheduler: the state of a run between supersteps, and the steps that
//! take it from one superstep to the next.
//!
//! The runtime does not call vertices. Its caller asks which vertices are
//! scheduled, runs each of them on the context that the runtime hands out,
//! submits what they return, and then calls the barrier, which merges the
//! updates, routes and delivers the messages, and works out who is active
//! next. Between two barriers nothing that a vertex sees changes.

use vstd::prelude::*;
use crate::pregel::checkpoint::{Checkpoint, PendingMailbox};
use crate::pregel::config::PregelConfig;
use crate::pregel::error::PregelError;
use crate::pregel::graph::{names, position, Edge, EdgePredicate, Graph, Target};
use crate::pregel::message::{clone_envelopes, Envelope, Source};
use crate::pregel::routing::{
    deliver_sender,
    find_stray,
    finds_done,
    from_sender,
    hands_in,
    has_route,
    has_stray,
};
use crate::pregel::state::{merged_all, StateMerger, WorkflowState};
use crate::pregel::superstep::{
    active_after,
    all_reported,
    any_done,
    any_stray,
    collected,
    fill_mailboxes,
    finds_any_done,
    first_stray,
    first_unreported,
    is_first_stray,
    is_first_unreported,
    gather,
    inbox,
    mailbox_views,
    mailboxes_after,
    mark_active,
    merge_pending,
    scheduled_upto,
    vacant,
    vacant_slots,
    Report,
};
use crate::pregel::vertex::{ComputeContext, ComputeResult, Outbound, Outbox, VertexId};
use crate::text::str_eq;

verus! {

/// The state of a run between two supersteps, as the contracts see it.
#[verifier::ext_equal]
pub struct Progress<S: WorkflowState> {
    /// How many supersteps are done.
    pub superstep: u64,
    /// The merged workflow state.
    pub state: S::V,
    /// The mailbox of each vertex, by position.
    pub mailboxes: Seq<Seq<Envelope>>,
    /// Whether each vertex is active, by position.
    pub active: Seq<bool>,
    /// The updates submitted in the running superstep, by position.
    pub updates: Seq<Option<S::Update>>,
    /// The reports submitted in the running superstep, by position.
    pub reports: Seq<Option<Report>>,
    /// What has left the workflow so far.
    pub outputs: Seq<Envelope>,
    /// Whether a vertex has handed in the result of the workflow.
    pub done: bool,
    /// Whether the run was asked to stop.
    pub cancelled: bool,
    /// The superstep count of the last checkpoint that was written.
    pub last_checkpoint: Option<u64>,
}

/// What the vertices of a superstep see of a run: the superstep count, the
/// merged state and the mailboxes. Nothing of it changes before the barrier.
#[verifier::ext_equal]
pub struct Sight<S: WorkflowState> {
    pub superstep: u64,
    pub state: S::V,
    pub mailboxes: Seq<Seq<Envelope>>,
}

/// Whether `ctx` is the context on which the vertex at the position `at`
/// computes, given what the vertices see: it bears the name of the vertex,
/// and holds its mailbox, the merged state, the superstep count and an empty
/// outbox.
pub open spec fn handed_at<S: WorkflowState>(
    ids: Seq<VertexId>,
    sight: Sight<S>,
    at: int,
    ctx: ComputeContext<'_, S>,
) -> bool {
    &&& ctx.vertex_id == ids[at]
    &&& ctx.messages@ == sight.mailboxes[at]
    &&& ctx.state@ == sight.state
    &&& ctx.superstep == sight.superstep
    &&& ctx.sent().len() == 0
}

impl<S: WorkflowState> Progress<S> {
    /// What the vertices see of the run.
    pub open spec fn sight(self) -> Sight<S> {
        Sight { superstep: self.superstep, state: self.state, mailboxes: self.mailboxes }
    }

    /// Whether the vertex at a position is awaited: it is active and has not
    /// reported in this superstep.
    pub open spec fn awaited(self, at: int) -> bool {
        self.active[at] && self.reports[at] is None
    }


    /// Whether the state is one of a graph of `count` vertices: every row
    /// has one entry for each vertex, updates and reports come in pairs, and
    /// only active vertices have reported.
    pub open spec fn fits(self, count: nat) -> bool {
        &&& self.mailboxes.len() == count
        &&& self.active.len() == count
        &&& self.updates.len() == count
        &&& self.reports.len() == count
        &&& forall|i: int|
            0 <= i < count ==> ((#[trigger] self.updates[i]) is Some <==> self.reports[i] is Some)
        &&& forall|i: int| 0 <= i < count && (#[trigger] self.reports[i]) is Some ==> self.active[i]
    }

    /// A state that fits a graph has one update slot and one report slot for
    /// each vertex.
    pub proof fn lemma_fits_lengths(self, count: nat)
        requires
            self.fits(count),
        ensures
            self.updates.len() == count,
            self.reports.len() == count,
            self == (Progress { updates: self.updates, reports: self.reports, ..self }),
    {
    }

    /// Whether no vertex is active.
    pub open spec fn idle(self) -> bool {
        forall|i: int| 0 <= i < self.active.len() ==> !#[trigger] self.active[i]
    }
}

/// Where a run stands at the start of a superstep.
#[derive(Debug, Clone, Copy, PartialEq, Eq, Structural)]
pub enum Phase {
    /// A vertex has handed in the result: the run has succeeded.
    Completed,
    /// No vertex is active: the run has succeeded.
    Converged,
    /// The run was asked to stop.
    Cancelled,
    /// The cap on supersteps is reached with vertices still active: the run
    /// has failed.
    Exhausted,
    /// The next superstep can run.
    Ready,
}

/// Where a run stands: the first that holds of handed in, idle, asked to
/// stop, at the cap.
pub open spec fn phase_of<S: WorkflowState>(max_supersteps: u32, progress: Progress<S>) -> Phase {
    if progress.done {
        Phase::Completed
    } else if progress.idle() {
        Phase::Converged
    } else if progress.cancelled {
        Phase::Cancelled
    } else if progress.superstep >= max_supersteps {
        Phase::Exhausted
    } else {
        Phase::Ready
    }
}

/// How a run ended.
#[derive(Debug)]
pub enum WorkflowResult<S> {
    /// A vertex handed in the result. `outputs` holds what left the
    /// workflow, the result among it.
    Completed { state: S, supersteps: u64, outputs: Vec<Envelope> },
    /// No vertex was left active. `outputs` holds what left the workflow.
    Converged { state: S, supersteps: u64, outputs: Vec<Envelope> },
    /// The run was stopped on request.
    Cancelled { last_checkpoint_step: Option<u64> },
    /// The run failed.
    Failed { error: PregelError, last_checkpoint_step: Option<u64> },
}

/// Whether `ended` is the result that goes with a run that has ended in
/// `progress`, in the phase of that name. Nothing goes with `Ready`.
pub open spec fn concludes<S: WorkflowState>(
    ended: WorkflowResult<S>,
    phase: Phase,
    progress: Progress<S>,
) -> bool {
    match phase {
        Phase::Ready => false,
        Phase::Completed => ended matches WorkflowResult::Completed { state, supersteps, outputs }
            && state@ == progress.state && supersteps == progress.superstep && outputs@
            == progress.outputs,
        Phase::Converged => ended matches WorkflowResult::Converged { state, supersteps, outputs }
            && state@ == progress.state && supersteps == progress.superstep && outputs@
            == progress.outputs,
        Phase::Cancelled => ended matches WorkflowResult::Cancelled { last_checkpoint_step }
            && last_checkpoint_step == progress.last_checkpoint,
        Phase::Exhausted => ended matches WorkflowResult::Failed { error, last_checkpoint_step }
            && error == (PregelError::ConvergenceError { supersteps: progress.superstep })
            && last_checkpoint_step == progress.last_checkpoint,
    }
}

/// The state of a run before its first superstep: each mailbox holds what
/// the inputs bring it along the edges from outside, and the vertices that
/// got something are active.
pub open spec fn initial<S: WorkflowState, P: EdgePredicate<S>>(
    ids: Seq<VertexId>,
    edges: Seq<Edge<P>>,
    state: S::V,
    inputs: Seq<Outbound>,
) -> Progress<S> {
    let mailboxes = Seq::new(
        ids.len(),
        |t: int| from_sender::<S, P>(edges, state, Source::External, inputs, Target::Vertex(ids[t])),
    );
    Progress {
        superstep: 0,
        state,
        mailboxes,
        active: Seq::new(ids.len(), |t: int| mailboxes[t].len() > 0),
        updates: vacant(ids.len()),
        reports: vacant(ids.len()),
        outputs: from_sender::<S, P>(edges, state, Source::External, inputs, Target::Output),
        done: hands_in(inputs),
        cancelled: false,
        last_checkpoint: None,
    }
}

/// Whether the barrier can be passed: the cap on supersteps is not reached,
/// every active vertex has reported, and every message can be routed.
pub open spec fn can_step<S: WorkflowState, P>(
    max_supersteps: u32,
    ids: Seq<VertexId>,
    edges: Seq<Edge<P>>,
    before: Progress<S>,
) -> bool {
    &&& before.superstep < max_supersteps
    &&& all_reported(before.active, before.reports)
    &&& !any_stray(ids, edges, before.reports)
}

/// The state of a run after the barrier.
///
/// The updates are merged in ascending order of their vertices. Every
/// mailbox is made anew from the reports of this superstep alone, with the
/// guards judged against the merged state. A vertex is active afterwards
/// where its new mailbox holds a message or where it lingers.
pub open spec fn after_barrier<S: WorkflowState, P: EdgePredicate<S>>(
    ids: Seq<VertexId>,
    edges: Seq<Edge<P>>,
    before: Progress<S>,
) -> Progress<S> {
    let state = merged_all::<S>(before.state, collected(before.updates));
    let mailboxes = mailboxes_after::<S, P>(ids, edges, state, before.reports);
    Progress {
        superstep: (before.superstep + 1) as u64,
        state,
        mailboxes,
        active: active_after(mailboxes, before.reports),
        updates: vacant(ids.len()),
        reports: vacant(ids.len()),
        outputs: before.outputs + inbox::<S, P>(
            ids,
            edges,
            state,
            before.reports,
            Target::Output,
            ids.len() as int,
        ),
        done: before.done || any_done(before.reports),
        cancelled: before.cancelled,
        last_checkpoint: before.last_checkpoint,
    }
}

/// Whether the input at `k` is the first that no edge from outside carries.
pub open spec fn is_first_lost<P>(edges: Seq<Edge<P>>, inputs: Seq<Outbound>, k: int) -> bool {
    &&& 0 <= k < inputs.len()
    &&& !has_route(edges, Source::External, inputs[k].target@)
    &&& forall|j: int|
        0 <= j < k ==> has_route(edges, Source::External, (#[trigger] inputs[j]).target@)
}

/// The state of a run once the vertex at `at` has handed in its update and
/// its report.
pub open spec fn with_report<S: WorkflowState>(
    before: Progress<S>,
    at: int,
    update: S::Update,
    report: Report,
) -> Progress<S> {
    Progress {
        updates: before.updates.update(at, Some(update)),
        reports: before.reports.update(at, Some(report)),
        ..before
    }
}

/// Whether `error` is the fatal failure of the vertex `id` with the text
/// `reason`.
pub open spec fn is_fatal(error: PregelError, id: Seq<char>, reason: Seq<char>) -> bool {
    error matches PregelError::VertexError { vertex_id, message, retryable } && vertex_id@ == id
        && message@ == reason && !retryable
}

/// Whether `error` says why the barrier cannot be passed: the cap is
/// reached; else an active vertex has not reported, and the error names the
/// first such vertex; else a message cannot be routed, and the error names
/// the sender and the label of the first such message.
pub open spec fn explains<S: WorkflowState, P>(
    error: PregelError,
    max_supersteps: u32,
    ids: Seq<VertexId>,
    edges: Seq<Edge<P>>,
    before: Progress<S>,
) -> bool {
    if before.superstep >= max_supersteps {
        error == (PregelError::ConvergenceError { supersteps: before.superstep })
    } else if !all_reported(before.active, before.reports) {
        exists|at: int|
            #[trigger] is_first_unreported(before.active, before.reports, at) && is_fatal(
                error,
                ids[at]@,
                "vertex has not reported"@,
            )
    } else {
        exists|at: int, k: int|
            #[trigger] is_first_stray(ids, edges, before.reports, at, k) && names_stray(
                error,
                ids,
                before.reports,
                at,
                k,
            )
    }
}

/// Whether `error` is the routing error for the message at `k` in the report
/// of the vertex at `at`.
pub open spec fn names_stray(
    error: PregelError,
    ids: Seq<VertexId>,
    reports: Seq<Option<Report>>,
    at: int,
    k: int,
) -> bool {
    error matches PregelError::RoutingError { source, label } && source == Source::Vertex(ids[at])
        && label@ == reports[at]->0.outbox@[k].target@
}

/// Whether `id` is among `ids`.
fn holds_id(ids: &Vec<VertexId>, id: &VertexId) -> (found: bool)
    ensures
        found == names(ids@, id@),
{
    let mut k: usize = 0;
    while k < ids.len()
        invariant
            k <= ids.len(),
            forall|j: int| 0 <= j < k ==> (#[trigger] ids@[j])@ != id@,
        decreases ids.len() - k,
    {
        if ids[k] == *id {
            return true;
        }
        k += 1;
    }
    false
}

/// Whether `error` is the failure of resuming from a checkpoint that does
/// not suit the graph.
pub open spec fn is_unsuitable(error: PregelError) -> bool {
    error matches PregelError::CheckpointError { message } && message@
        == "checkpoint does not suit the graph"@
}

/// The failure of resuming from a checkpoint that does not suit the graph.
fn unsuitable() -> (error: PregelError)
    ensures
        is_unsuitable(error),
{
    PregelError::CheckpointError { message: "checkpoint does not suit the graph".to_owned() }
}

/// The runtime of one workflow run.
pub struct PregelRuntime<S: WorkflowState, P: EdgePredicate<S>> {
    graph: Graph<P>,
    config: PregelConfig,
    merger: StateMerger<S>,
    superstep: u64,
    mailboxes: Vec<Vec<Envelope>>,
    active: Vec<bool>,
    updates: Vec<Option<S::Update>>,
    reports: Vec<Option<Report>>,
    outputs: Vec<Envelope>,
    done: bool,
    cancelled: bool,
    last_checkpoint: Option<u64>,
}

impl<S: WorkflowState, P: EdgePredicate<S>> View for PregelRuntime<S, P> {
    type V = Progress<S>;

    closed spec fn view(&self) -> Progress<S> {
        Progress {
            superstep: self.superstep,
            state: self.merger.model(),
            mailboxes: mailbox_views(self.mailboxes@),
            active: self.active@,
            updates: self.updates@,
            reports: self.reports@,
            outputs: self.outputs@,
            done: self.done,
            cancelled: self.cancelled,
            last_checkpoint: self.last_checkpoint,
        }
    }
}

impl<S: WorkflowState, P: EdgePredicate<S>> PregelRuntime<S, P> {
    /// The graph that the run is on.
    pub closed spec fn plan(&self) -> Graph<P> {
        self.graph
    }

    /// The settings of the run.
    pub closed spec fn settings(&self) -> PregelConfig {
        self.config
    }

    /// The graph is well-formed and the state fits it.
    pub closed spec fn wf(&self) -> bool {
        &&& self.graph.wf()
        &&& self@.fits(self.graph.vertex_ids().len())
    }

    /// What well-formedness means, for use in proofs.
    pub proof fn lemma_wf(&self)
        requires
            self.wf(),
        ensures
            self.plan().wf(),
            self@.fits(self.plan().vertex_ids().len()),
    {
    }

    /// The phase of the run.
    pub open spec fn stage(&self) -> Phase {
        phase_of(self.settings().max_supersteps, self@)
    }

    /// Sets up a run: routes the inputs through the edges that lead in from
    /// outside and activates the vertices that they reach. Fails with a
    /// routing error where an input has a label that no such edge carries.
    pub fn start(graph: Graph<P>, state: S, config: PregelConfig, inputs: Vec<Outbound>) -> (started:
        Result<Self, PregelError>)
        requires
            graph.wf(),
        ensures
            started is Ok <==> !has_stray(graph.edge_list(), Source::External, inputs@),
            started matches Ok(runtime) ==> {
                &&& runtime.wf()
                &&& runtime.plan() == graph
                &&& runtime.settings() == config
                &&& runtime@ == initial::<S, P>(
                    graph.vertex_ids(),
                    graph.edge_list(),
                    state@,
                    inputs@,
                )
            },
            started matches Err(error) ==> error matches PregelError::RoutingError { source, label }
                && source == Source::External && exists|k: int|
                #[trigger] is_first_lost(graph.edge_list(), inputs@, k) && inputs@[k].target@
                    == label@,
    {
        let outside = Source::External;
        match find_stray(graph.edges(), &outside, &inputs) {
            Some(k) => {
                assert(is_first_lost(graph.edge_list(), inputs@, k as int));
                return Err(
                    PregelError::RoutingError {
                        source: Source::External,
                        label: inputs[k].target.as_str().to_owned(),
                    },
                );
            },
            None => {},
        }
        let count = graph.len();
        let mut mailboxes: Vec<Vec<Envelope>> = Vec::new();
        let mut active: Vec<bool> = Vec::new();
        let mut t: usize = 0;
        while t < count
            invariant
                t <= count,
                count == graph.vertex_ids().len(),
                outside == Source::External,
                mailboxes@.len() == t,
                active@.len() == t,
                forall|u: int|
                    0 <= u < t ==> (#[trigger] mailboxes@[u])@ == from_sender::<S, P>(
                        graph.edge_list(),
                        state@,
                        Source::External,
                        inputs@,
                        Target::Vertex(graph.vertex_ids()[u]),
                    ),
                forall|u: int| 0 <= u < t ==> (#[trigger] active@[u]) == (mailboxes@[u]@.len() > 0),
            decreases count - t,
        {
            let to = Target::Vertex(graph.vertex(t).clone());
            let mut arrived: Vec<Envelope> = Vec::new();
            deliver_sender::<S, P>(graph.edges(), &state, &outside, &inputs, &to, &mut arrived);
            active.push(arrived.len() > 0);
            mailboxes.push(arrived);
            t += 1;
        }
        let mut outputs: Vec<Envelope> = Vec::new();
        deliver_sender::<S, P>(
            graph.edges(),
            &state,
            &outside,
            &inputs,
            &Target::Output,
            &mut outputs,
        );
        let done = finds_done(&inputs);
        let runtime = PregelRuntime {
            graph,
            config,
            merger: StateMerger::new(state),
            superstep: 0,
            mailboxes,
            active,
            updates: vacant_slots(count),
            reports: vacant_slots(count),
            outputs,
            done,
            cancelled: false,
            last_checkpoint: None,
        };
        proof {
            let target = initial::<S, P>(
                graph.vertex_ids(),
                graph.edge_list(),
                state@,
                inputs@,
            );
            assert(runtime@.mailboxes =~= target.mailboxes);
            assert(runtime@.active =~= target.active);
            assert(runtime@.outputs =~= target.outputs);
            assert(runtime@ =~= target);
        }
        Ok(runtime)
    }

    pub fn graph(&self) -> (graph: &Graph<P>)
        ensures
            *graph == self.plan(),
    {
        &self.graph
    }

    pub fn config(&self) -> (config: &PregelConfig)
        ensures
            *config == self.settings(),
    {
        &self.config
    }

    /// How many supersteps are done.
    pub fn superstep(&self) -> (count: u64)
        ensures
            count == self@.superstep,
    {
        self.superstep
    }

    /// The workflow state, as merged at the last barrier.
    pub fn state(&self) -> (state: &S)
        ensures
            state@ == self@.state,
    {
        self.merger.view()
    }

    /// What has left the workflow so far.
    pub fn outputs(&self) -> (outputs: &Vec<Envelope>)
        ensures
            outputs@ == self@.outputs,
    {
        &self.outputs
    }

    /// The superstep count of the last checkpoint that was written.
    pub fn last_checkpoint(&self) -> (step: Option<u64>)
        ensures
            step == self@.last_checkpoint,
    {
        self.last_checkpoint
    }

    /// The mailbox of a vertex, or `None` for a name that the graph lacks.
    pub fn mailbox(&self, id: &VertexId) -> (found: Option<&Vec<Envelope>>)
        requires
            self.wf(),
        ensures
            found is Some <==> names(self.plan().vertex_ids(), id@),
            found matches Some(mailbox) ==> mailbox@ == self@.mailboxes[position(
                self.plan().vertex_ids(),
                id@,
            )],
    {
        match self.graph.index_of(id) {
            Some(at) => Some(&self.mailboxes[at]),
            None => None,
        }
    }

    /// Whether a vertex is active. A name that the graph lacks is not.
    pub fn is_active(&self, id: &VertexId) -> (answer: bool)
        requires
            self.wf(),
        ensures
            answer == (names(self.plan().vertex_ids(), id@) && self@.active[position(
                self.plan().vertex_ids(),
                id@,
            )]),
    {
        match self.graph.index_of(id) {
            Some(at) => self.active[at],
            None => false,
        }
    }

    /// Whether no vertex is active.
    pub fn is_idle(&self) -> (answer: bool)
        ensures
            answer == self@.idle(),
    {
        let mut i: usize = 0;
        while i < self.active.len()
            invariant
                i <= self.active.len(),
                forall|j: int| 0 <= j < i ==> !#[trigger] self.active@[j],
            decreases self.active.len() - i,
        {
            if self.active[i] {
                assert(self@.active[i as int]);
                return false;
            }
            i += 1;
        }
        true
    }

    /// Where the run stands.
    pub fn phase(&self) -> (phase: Phase)
        ensures
            phase == self.stage(),
    {
        if self.done {
            Phase::Completed
        } else if self.is_idle() {
            Phase::Converged
        } else if self.cancelled {
            Phase::Cancelled
        } else if self.superstep >= self.config.max_supersteps as u64 {
            Phase::Exhausted
        } else {
            Phase::Ready
        }
    }

    /// Activates a vertex, so that it runs in the next superstep though no
    /// message has reached it. The answer says whether the graph has the
    /// vertex.
    pub fn activate(&mut self, id: &VertexId) -> (known: bool)
        requires
            old(self).wf(),
        ensures
            final(self).wf(),
            final(self).plan() == old(self).plan(),
            final(self).settings() == old(self).settings(),
            known == names(old(self).plan().vertex_ids(), id@),
            !known ==> final(self)@ == old(self)@,
            known ==> final(self)@ == (Progress {
                active: old(self)@.active.update(position(old(self).plan().vertex_ids(), id@), true),
                ..old(self)@
            }),
    {
        match self.graph.index_of(id) {
            Some(at) => {
                self.active[at] = true;
                assert(self@ =~= (Progress {
                    active: old(self)@.active.update(at as int, true),
                    ..old(self)@
                }));
                true
            },
            None => false,
        }
    }

    /// The vertices to run in this superstep: the active ones, in ascending
    /// order.
    pub fn scheduled(&self) -> (ids: Vec<VertexId>)
        requires
            self.wf(),
        ensures
            ids@ == scheduled_upto(
                self.plan().vertex_ids(),
                self@.active,
                self@.active.len() as int,
            ),
    {
        let mut ids: Vec<VertexId> = Vec::new();
        let mut i: usize = 0;
        while i < self.active.len()
            invariant
                i <= self.active.len(),
                self.wf(),
                ids@ == scheduled_upto(self.graph.vertex_ids(), self.active@, i as int),
            decreases self.active.len() - i,
        {
            if self.active[i] {
                ids.push(self.graph.vertex(i).clone());
            }
            i += 1;
        }
        ids
    }

    /// Whether `ctx` is the context on which the vertex `id` computes in
    /// this superstep: it bears the name of the vertex as the graph has it,
    /// and holds the mailbox of the vertex, the merged state, the superstep
    /// count and an empty outbox.
    pub open spec fn hands_out(&self, id: Seq<char>, ctx: ComputeContext<'_, S>) -> bool {
        &&& names(self.plan().vertex_ids(), id)
        &&& handed_at(
            self.plan().vertex_ids(),
            self@.sight(),
            position(self.plan().vertex_ids(), id),
            ctx,
        )
    }

    /// Whether the vertex at a position is awaited: it is active and has not
    /// reported in this superstep.
    pub fn awaits_at(&self, at: usize) -> (answer: bool)
        requires
            self.wf(),
            at < self.plan().vertex_ids().len(),
        ensures
            answer == self@.awaited(at as int),
    {
        self.active[at] && self.reports[at].is_none()
    }

    /// The context on which a vertex computes in this superstep: its
    /// mailbox, the merged state, the number of the superstep, and an empty
    /// outbox. `None` for a name that the graph lacks.
    pub fn context(&self, id: &VertexId) -> (found: Option<ComputeContext<'_, S>>)
        requires
            self.wf(),
        ensures
            found is Some <==> names(self.plan().vertex_ids(), id@),
            found matches Some(ctx) ==> self.hands_out(id@, ctx),
    {
        match self.graph.index_of(id) {
            Some(at) => Some(
                ComputeContext::new(
                    self.graph.vertex(at).clone(),
                    self.mailboxes[at].as_slice(),
                    self.superstep,
                    self.merger.view(),
                ),
            ),
            None => None,
        }
    }

    /// Whether what a vertex returns can be handed in: the graph has the
    /// vertex, it is active, and it has not reported in this superstep.
    pub open spec fn awaits(&self, id: Seq<char>) -> bool {
        let at = position(self.plan().vertex_ids(), id);
        names(self.plan().vertex_ids(), id) && self@.active[at] && self@.reports[at] is None
    }

    /// Hands in what a vertex has returned from compute: its result and its
    /// outbox. Nothing of it takes effect before the barrier. Fails, and
    /// changes nothing, where the vertex is not awaited.
    pub fn submit(&mut self, id: &VertexId, result: ComputeResult<S::Update>, outbox: Outbox) -> (taken:
        Result<(), PregelError>)
        requires
            old(self).wf(),
        ensures
            final(self).wf(),
            final(self).plan() == old(self).plan(),
            final(self).settings() == old(self).settings(),
            taken is Ok <==> old(self).awaits(id@),
            taken is Ok ==> exists|report: Report|
                report.state == result.state && report.outbox@ == outbox@ && final(self)@
                    == #[trigger] with_report(
                    old(self)@,
                    position(old(self).plan().vertex_ids(), id@),
                    result.update,
                    report,
                ),
            taken matches Err(error) ==> final(self)@ == old(self)@ && is_fatal(
                error,
                id@,
                "vertex is not awaited"@,
            ),
    {
        let at = match self.graph.index_of(id) {
            Some(at) => at,
            None => {
                return Err(PregelError::vertex_error(id.clone(), "vertex is not awaited"));
            },
        };
        if !self.active[at] || self.reports[at].is_some() {
            return Err(PregelError::vertex_error(id.clone(), "vertex is not awaited"));
        }
        let report = Report { state: result.state, outbox: outbox.into_entries() };
        self.updates[at] = Some(result.update);
        self.reports[at] = Some(report);
        assert(self@ =~= with_report(old(self)@, at as int, result.update, report));
        Ok(())
    }

    /// Ends the superstep: merges the updates handed in, routes the messages
    /// handed in and delivers them to fresh mailboxes, works out who is
    /// active, and counts the superstep. Fails, and changes nothing, where
    /// the barrier cannot be passed.
    pub fn barrier(&mut self) -> (passed: Result<(), PregelError>)
        requires
            old(self).wf(),
        ensures
            final(self).wf(),
            final(self).plan() == old(self).plan(),
            final(self).settings() == old(self).settings(),
            passed is Ok <==> can_step(
                old(self).settings().max_supersteps,
                old(self).plan().vertex_ids(),
                old(self).plan().edge_list(),
                old(self)@,
            ),
            passed is Ok ==> final(self)@ == after_barrier::<S, P>(
                old(self).plan().vertex_ids(),
                old(self).plan().edge_list(),
                old(self)@,
            ),
            passed matches Err(error) ==> final(self)@ == old(self)@ && explains(
                error,
                old(self).settings().max_supersteps,
                old(self).plan().vertex_ids(),
                old(self).plan().edge_list(),
                old(self)@,
            ),
    {
        if self.superstep >= self.config.max_supersteps as u64 {
            return Err(PregelError::ConvergenceError { supersteps: self.superstep });
        }
        match first_unreported(&self.active, &self.reports) {
            Some(i) => {
                let error = PregelError::vertex_error(
                    self.graph.vertex(i).clone(),
                    "vertex has not reported",
                );
                assert(is_first_unreported(self@.active, self@.reports, i as int) && is_fatal(
                    error,
                    self.graph.vertex_ids()[i as int]@,
                    "vertex has not reported"@,
                ));
                return Err(error);
            },
            None => {},
        }
        match first_stray(&self.graph, &self.reports) {
            Some((i, k)) => {
                let label = match &self.reports[i] {
                    Some(report) => report.outbox[k].target.as_str().to_owned(),
                    None => String::new(),
                };
                let error = PregelError::RoutingError {
                    source: Source::Vertex(self.graph.vertex(i).clone()),
                    label,
                };
                assert(is_first_stray(
                    self.graph.vertex_ids(),
                    self.graph.edge_list(),
                    self@.reports,
                    i as int,
                    k as int,
                ) && names_stray(error, self.graph.vertex_ids(), self@.reports, i as int, k as int));
                return Err(error);
            },
            None => {},
        }
        let count = self.graph.len();
        merge_pending(&mut self.merger, &mut self.updates);
        let fresh = fill_mailboxes::<S, P>(&self.graph, self.merger.view(), &self.reports);
        let mut arrived = gather::<S, P>(
            &self.graph,
            self.merger.view(),
            &self.reports,
            &Target::Output,
        );
        let active = mark_active(&fresh, &self.reports);
        let done = finds_any_done(&self.reports);
        self.outputs.append(&mut arrived);
        self.mailboxes = fresh;
        self.active = active;
        self.done = self.done || done;
        self.reports = vacant_slots(count);
        self.superstep = self.superstep + 1;
        proof {
            let target = after_barrier::<S, P>(
                self.graph.vertex_ids(),
                self.graph.edge_list(),
                old(self)@,
            );
            assert(self@.mailboxes =~= target.mailboxes);
            assert(self@.active =~= target.active);
            assert(self@.outputs =~= target.outputs);
            assert(self@ =~= target);
        }
        Ok(())
    }

    /// Ends the run, where it has ended: gives the result that goes with the
    /// phase, or hands the runtime back where the next superstep can run.
    pub fn finish(self) -> (ended: Result<WorkflowResult<S>, Self>)
        ensures
            self.stage() == Phase::Ready ==> (ended matches Err(runtime) && runtime == self),
            self.stage() != Phase::Ready ==> (ended matches Ok(result) && concludes(
                result,
                self.stage(),
                self@,
            )),
    {
        match self.phase() {
            Phase::Ready => Err(self),
            Phase::Completed => Ok(
                WorkflowResult::Completed {
                    supersteps: self.superstep,
                    outputs: self.outputs,
                    state: self.merger.into_state(),
                },
            ),
            Phase::Converged => Ok(
                WorkflowResult::Converged {
                    supersteps: self.superstep,
                    outputs: self.outputs,
                    state: self.merger.into_state(),
                },
            ),
            Phase::Cancelled => Ok(
                WorkflowResult::Cancelled { last_checkpoint_step: self.last_checkpoint },
            ),
            Phase::Exhausted => Ok(
                WorkflowResult::Failed {
                    error: PregelError::ConvergenceError { supersteps: self.superstep },
                    last_checkpoint_step: self.last_checkpoint,
                },
            ),
        }
    }

    /// Ends the run with a failure, naming the last checkpoint from which it
    /// can be resumed.
    pub fn abort(self, error: PregelError) -> (ended: WorkflowResult<S>)
        ensures
            ended matches WorkflowResult::Failed { error: reported, last_checkpoint_step }
                && reported == error && last_checkpoint_step == self@.last_checkpoint,
    {
        WorkflowResult::Failed { error, last_checkpoint_step: self.last_checkpoint }
    }

    /// A checkpoint of the present state. It is meant to be taken after a
    /// barrier: what has been submitted since is not part of it.
    pub fn checkpoint(&self) -> (record: Checkpoint<S>)
        requires
            self.wf(),
        ensures
            record.records(self.plan().graph_id(), self.plan().vertex_ids(), self@),
    {
        let mut pending: Vec<PendingMailbox> = Vec::new();
        let mut i: usize = 0;
        while i < self.mailboxes.len()
            invariant
                i <= self.mailboxes.len(),
                self.wf(),
                pending@.len() == i,
                forall|j: int|
                    0 <= j < i ==> (#[trigger] pending@[j]).vertex == self.graph.vertex_ids()[j]
                        && pending@[j].messages@ == self.mailboxes@[j]@,
            decreases self.mailboxes.len() - i,
        {
            pending.push(
                PendingMailbox {
                    vertex: self.graph.vertex(i).clone(),
                    messages: clone_envelopes(&self.mailboxes[i]),
                },
            );
            i += 1;
        }
        Checkpoint {
            graph_id: self.graph.id().to_owned(),
            superstep: self.superstep,
            state_snapshot: self.merger.snapshot(),
            pending_mailboxes: pending,
            active_set: self.scheduled(),
            outputs: clone_envelopes(&self.outputs),
            done: self.done,
        }
    }

    /// Resumes a run from a checkpoint. Fails where the checkpoint does not
    /// suit the graph, with the checkpoint error that says so.
    pub fn restore(graph: Graph<P>, config: PregelConfig, record: Checkpoint<S>) -> (restored: Result<
        Self,
        PregelError,
    >)
        requires
            graph.wf(),
        ensures
            restored is Ok <==> record.suits(graph.graph_id(), graph.vertex_ids()),
            restored matches Ok(runtime) ==> {
                &&& runtime.wf()
                &&& runtime.plan() == graph
                &&& runtime.settings() == config
                &&& runtime@ == record.resumed(graph.vertex_ids())
            },
            restored matches Err(error) ==> is_unsuitable(error),
    {
        let count = graph.len();
        if !str_eq(record.graph_id.as_str(), graph.id()) || record.pending_mailboxes.len()
            != count {
            return Err(unsuitable());
        }
        let mut k: usize = 0;
        while k < record.active_set.len()
            invariant
                k <= record.active_set.len(),
                forall|j: int|
                    0 <= j < k ==> names(graph.vertex_ids(), (#[trigger] record.active_set@[j])@),
            decreases record.active_set.len() - k,
        {
            if !graph.contains(&record.active_set[k]) {
                return Err(unsuitable());
            }
            k += 1;
        }
        let mut mailboxes: Vec<Vec<Envelope>> = Vec::new();
        let mut active: Vec<bool> = Vec::new();
        let mut i: usize = 0;
        while i < count
            invariant
                i <= count,
                count == graph.vertex_ids().len(),
                record.pending_mailboxes@.len() == count,
                mailboxes@.len() == i,
                active@.len() == i,
                forall|j: int|
                    0 <= j < i ==> (#[trigger] record.pending_mailboxes@[j]).vertex@
                        == graph.vertex_ids()[j]@,
                forall|j: int|
                    0 <= j < i ==> (#[trigger] mailboxes@[j])@
                        == record.pending_mailboxes@[j].messages@,
                forall|j: int|
                    0 <= j < i ==> (#[trigger] active@[j]) == names(
                        record.active_set@,
                        graph.vertex_ids()[j]@,
                    ),
            decreases count - i,
        {
            if record.pending_mailboxes[i].vertex != *graph.vertex(i) {
                return Err(unsuitable());
            }
            mailboxes.push(clone_envelopes(&record.pending_mailboxes[i].messages));
            active.push(holds_id(&record.active_set, graph.vertex(i)));
            i += 1;
        }
        let runtime = PregelRuntime {
            graph,
            config,
            merger: StateMerger::new(record.state_snapshot),
            superstep: record.superstep,
            mailboxes,
            active,
            updates: vacant_slots(count),
            reports: vacant_slots(count),
            outputs: record.outputs,
            done: record.done,
            cancelled: false,
            last_checkpoint: Some(record.superstep),
        };
        proof {
            let target = record.resumed(graph.vertex_ids());
            assert(runtime@.mailboxes =~= target.mailboxes);
            assert(runtime@.active =~= target.active);
            assert(runtime@ =~= target);
        }
        Ok(runtime)
    }

    /// Asks the run to stop. It does so at the next barrier: the phase then
    /// reads `Cancelled`, unless the run has ended by itself.
    pub fn request_cancel(&mut self)
        requires
            old(self).wf(),
        ensures
            final(self).wf(),
            final(self).plan() == old(self).plan(),
            final(self).settings() == old(self).settings(),
            final(self)@ == (Progress { cancelled: true, ..old(self)@ }),
    {
        self.cancelled = true;
    }

    /// Records that a checkpoint of the present state was written.
    pub fn mark_checkpointed(&mut self)
        requires
            old(self).wf(),
        ensures
            final(self).wf(),
            final(self).plan() == old(self).plan(),
            final(self).settings() == old(self).settings(),
            final(self)@ == (Progress {
                last_checkpoint: Some(old(self)@.superstep),
                ..old(self)@
            }),
    {
        self.last_checkpoint = Some(self.superstep);
    }

    /// Whether a checkpoint is due now, by the cadence of the settings.
    pub fn checkpoint_due(&self) -> (answer: bool)
        ensures
            answer == self.settings().checkpoint_cadence.due(self@.superstep, self@.idle()),
    {
        let halting = self.is_idle();
        self.config.checkpoint_cadence.is_due(self.superstep, halting)
    }
}

} // verus!
