//! Running a workflow to its end, for vertices that compute without
//! waiting: the superstep loop with retries and checkpoints.
//!
//! What a vertex returns is not for this crate to say, so the contracts here
//! tell a run by its course: the states after each superstep, each made from
//! the one before by what the compute calls of the vertices returned; the
//! result that the last state ends on; and the checkpoints written on the
//! way. That a value is what a call returned is said with `call_ensures`.

use vstd::prelude::*;
use crate::pregel::checkpoint::{Checkpoint, MemoryCheckpointer};
use crate::pregel::config::{CheckpointCadence, PregelConfig, RetryDecision, RetryPolicy};
use crate::pregel::error::PregelError;
use crate::pregel::graph::{names, position, EdgePredicate, Graph};
use crate::pregel::message::Source;
use crate::pregel::routing::has_stray;
use crate::pregel::runtime::{
    after_barrier,
    can_step,
    concludes,
    explains,
    handed_at,
    initial,
    is_fatal,
    is_first_lost,
    is_unsuitable,
    phase_of,
    Phase,
    PregelRuntime,
    Progress,
    Sight,
    WorkflowResult,
};
use crate::pregel::state::WorkflowState;
use crate::pregel::superstep::Report;
use crate::pregel::vertex::{
    ComputeContext,
    ComputeResult,
    Outbound,
    Outbox,
    Vertex,
    VertexId,
};

verus! {

/// What one vertex has returned from the compute call of a superstep.
pub struct VertexOutcome<U> {
    pub vertex: VertexId,
    pub result: ComputeResult<U>,
    pub outbox: Outbox,
}

/// Whether a vertex answers to `name`: whether a call of `id` on it may
/// return that name.
pub open spec fn answers_to<S: WorkflowState, V: Vertex<S>>(vertex: &V, name: Seq<char>) -> bool {
    exists|given: &VertexId| #[trigger] call_ensures(V::id, (vertex,), given) && given@ == name
}

/// Whether a vertex answers to another name than `name`: whether a call of
/// `id` on it may return another name.
pub open spec fn answers_otherwise<S: WorkflowState, V: Vertex<S>>(
    vertex: &V,
    name: Seq<char>,
) -> bool {
    exists|given: &VertexId| #[trigger] call_ensures(V::id, (vertex,), given) && given@ != name
}

/// Whether the vertex at the position `at` is the first that answers to
/// `name`: it answers to the name, and every vertex before it gave another.
pub open spec fn resolved<S: WorkflowState, V: Vertex<S>>(
    vertices: Seq<V>,
    name: Seq<char>,
    at: int,
) -> bool {
    &&& 0 <= at < vertices.len()
    &&& answers_to::<S, V>(&vertices[at], name)
    &&& forall|j: int| 0 <= j < at ==> answers_otherwise::<S, V>(&#[trigger] vertices[j], name)
}

/// Whether no vertex answers to `name`: every vertex gave another name.
pub open spec fn unresolved<S: WorkflowState, V: Vertex<S>>(vertices: Seq<V>, name: Seq<char>) -> bool {
    forall|j: int|
        0 <= j < vertices.len() ==> answers_otherwise::<S, V>(&#[trigger] vertices[j], name)
}

/// The position of the first vertex of the given name: each vertex is asked
/// for its name, in order, until one answers to `id`. `None` where every
/// vertex gave another name.
pub fn find_vertex<S: WorkflowState, V: Vertex<S>>(vertices: &Vec<V>, id: &VertexId) -> (found:
    Option<usize>)
    ensures
        found matches Some(at) ==> resolved::<S, V>(vertices@, id@, at as int),
        found is None ==> unresolved::<S, V>(vertices@, id@),
{
    let mut at: usize = 0;
    while at < vertices.len()
        invariant
            at <= vertices.len(),
            forall|j: int|
                0 <= j < at ==> answers_otherwise::<S, V>(&#[trigger] vertices@[j], id@),
        decreases vertices.len() - at,
    {
        if *vertices[at].id() == *id {
            return Some(at);
        }
        at += 1;
    }
    None
}

/// What one compute call has returned: its result, and the outbox that it
/// left in its context.
pub struct Attempt<U> {
    pub result: Result<ComputeResult<U>, PregelError>,
    pub outbox: Outbox,
}

/// Makes one compute call of a vertex, on the given context.
pub fn call_vertex<S: WorkflowState, V: Vertex<S>>(vertex: &V, ctx: ComputeContext<'_, S>) -> (attempt:
    Attempt<S::Update>)
    ensures
        exists|handed: &mut ComputeContext<'_, S>|
            *handed == ctx && final(handed).sent() == attempt.outbox@ && #[trigger] call_ensures(
                V::compute,
                (vertex, handed),
                attempt.result,
            ),
{
    let mut local = ctx;
    let result = vertex.compute(&mut local);
    let outbox = local.into_outbox();
    Attempt { result, outbox }
}

/// Whether `attempt` is what a compute call of `vertex` on the context
/// `ctx` may return: the result of `Vertex::compute`, and the outbox it left.
pub open spec fn computed<S: WorkflowState, V: Vertex<S>>(
    vertex: &V,
    ctx: ComputeContext<'_, S>,
    attempt: Attempt<S::Update>,
) -> bool {
    call_ensures(call_vertex::<S, V>, (vertex, ctx), attempt)
}

/// Whether `attempt` is what a compute call of `vertex` returned on the
/// context that is handed out for the vertex at the position `at`.
pub open spec fn attempted<S: WorkflowState, V: Vertex<S>>(
    ids: Seq<VertexId>,
    sight: Sight<S>,
    vertex: &V,
    at: int,
    attempt: Attempt<S::Update>,
) -> bool {
    exists|ctx: ComputeContext<'_, S>|
        handed_at(ids, sight, at, ctx) && #[trigger] computed::<S, V>(vertex, ctx, attempt)
}

/// Whether the attempt of number `at` failed with an error that the policy
/// retries after that many failed calls, this one included.
pub open spec fn retried<U>(policy: RetryPolicy, attempt: Attempt<U>, at: int) -> bool {
    attempt.result matches Err(error) && policy.retries(error, (at + 1) as u32)
}

/// Whether `attempts` are the compute calls of a vertex in one superstep, in
/// order: there is at least one; each is a call on the context handed out
/// for the vertex; and every one but the last failed with an error that the
/// retry policy retries.
pub open spec fn is_attempts<S: WorkflowState, V: Vertex<S>>(
    ids: Seq<VertexId>,
    sight: Sight<S>,
    policy: RetryPolicy,
    vertex: &V,
    at: int,
    attempts: Seq<Attempt<S::Update>>,
) -> bool {
    &&& 1 <= attempts.len()
    &&& forall|i: int|
        0 <= i < attempts.len() ==> attempted::<S, V>(ids, sight, vertex, at, #[trigger] attempts[i])
    &&& forall|i: int| 0 <= i < attempts.len() - 1 ==> retried(policy, #[trigger] attempts[i], i)
}

/// Whether `outcome` is what follows from the last of the compute calls of
/// a vertex: its result and outbox under the name `id`, where it succeeded;
/// else its error, which the policy does not retry after so many failed
/// calls.
pub open spec fn settles<U>(
    policy: RetryPolicy,
    id: VertexId,
    attempts: Seq<Attempt<U>>,
    outcome: Result<VertexOutcome<U>, PregelError>,
) -> bool {
    match attempts.last().result {
        Ok(result) => outcome matches Ok(handed) && handed.vertex == id && handed.result == result
            && handed.outbox == attempts.last().outbox,
        Err(error) => !policy.retries(error, attempts.len() as u32) && (outcome matches Err(last)
            && last == error),
    }
}

/// Whether `outcome` is what running the vertex at the position `at` for one
/// superstep may give: there are compute calls of the vertex, each on the
/// context handed out for it and each but the last retried, and `outcome`
/// follows from the last.
pub open spec fn vertex_outcome<S: WorkflowState, V: Vertex<S>>(
    ids: Seq<VertexId>,
    sight: Sight<S>,
    policy: RetryPolicy,
    vertex: &V,
    at: int,
    id: VertexId,
    outcome: Result<VertexOutcome<S::Update>, PregelError>,
) -> bool {
    exists|attempts: Seq<Attempt<S::Update>>|
        #[trigger] is_attempts::<S, V>(ids, sight, policy, vertex, at, attempts) && settles(
            policy,
            id,
            attempts,
            outcome,
        )
}

/// Runs one vertex for one superstep: calls compute, and calls it again, on
/// a fresh context with the same mailbox and state, as long as it fails and
/// the retry policy of the run says so. The waits that the policy names are
/// not observed.
///
/// A name that the graph lacks fails at once, without a call. Else what is
/// handed back follows from the last of the calls: its result together with
/// the outbox that it left, or, where the policy gives up, its failure.
pub fn compute_vertex<S: WorkflowState, P: EdgePredicate<S>, V: Vertex<S>>(
    runtime: &PregelRuntime<S, P>,
    vertex: &V,
    id: &VertexId,
) -> (outcome: Result<VertexOutcome<S::Update>, PregelError>)
    requires
        runtime.wf(),
    ensures
        !names(runtime.plan().vertex_ids(), id@) ==> (outcome matches Err(error) && is_fatal(
            error,
            id@,
            "vertex is not in the graph"@,
        )),
        names(runtime.plan().vertex_ids(), id@) ==> vertex_outcome::<S, V>(
            runtime.plan().vertex_ids(),
            runtime@.sight(),
            runtime.settings().retry_policy,
            vertex,
            position(runtime.plan().vertex_ids(), id@),
            *id,
            outcome,
        ),
{
    if !runtime.graph().contains(id) {
        return Err(PregelError::vertex_error(id.clone(), "vertex is not in the graph"));
    }
    let policy = runtime.config().retry_policy;
    let ghost ids = runtime.plan().vertex_ids();
    let ghost sight = runtime@.sight();
    let ghost at = position(ids, id@);
    let mut failed: u32 = 0;
    let ghost mut attempts: Seq<Attempt<S::Update>> = Seq::empty();
    loop
        invariant
            runtime.wf(),
            names(runtime.plan().vertex_ids(), id@),
            ids == runtime.plan().vertex_ids(),
            sight == runtime@.sight(),
            at == position(ids, id@),
            policy == runtime.settings().retry_policy,
            failed == attempts.len(),
            failed == 0 || failed < policy.max_attempts,
            forall|i: int|
                0 <= i < attempts.len() ==> attempted::<S, V>(
                    ids,
                    sight,
                    vertex,
                    at,
                    #[trigger] attempts[i],
                ),
            forall|i: int| 0 <= i < attempts.len() ==> retried(policy, #[trigger] attempts[i], i),
        decreases policy.max_attempts + 1 - failed,
    {
        let ctx = match runtime.context(id) {
            Some(ctx) => ctx,
            None => {
                return Err(PregelError::vertex_error(id.clone(), "vertex is not in the graph"));
            },
        };
        let ghost handed = ctx;
        let attempt = call_vertex::<S, V>(vertex, ctx);
        proof {
            assert(computed::<S, V>(vertex, handed, attempt));
            assert(attempted::<S, V>(ids, sight, vertex, at, attempt));
            let before = attempts;
            attempts = attempts.push(attempt);
            assert forall|i: int| 0 <= i < attempts.len() implies attempted::<S, V>(
                ids,
                sight,
                vertex,
                at,
                #[trigger] attempts[i],
            ) by {
                if i < before.len() {
                    assert(attempts[i] == before[i]);
                }
            }
            assert forall|i: int| 0 <= i < attempts.len() - 1 implies retried(
                policy,
                #[trigger] attempts[i],
                i,
            ) by {
                assert(attempts[i] == before[i]);
            }
            assert(is_attempts::<S, V>(ids, sight, policy, vertex, at, attempts));
        }
        let Attempt { result, outbox } = attempt;
        match result {
            Ok(result) => {
                let outcome = Ok(VertexOutcome { vertex: id.clone(), result, outbox });
                assert(settles(policy, *id, attempts, outcome));
                return outcome;
            },
            Err(error) => {
                failed = failed + 1;
                match policy.decide(&error, failed) {
                    RetryDecision::Retry { .. } => {
                        assert(retried(policy, attempts[failed - 1], failed - 1));
                    },
                    RetryDecision::GiveUp => {
                        let outcome = Err(error);
                        assert(settles::<S::Update>(policy, *id, attempts, outcome));
                        return outcome;
                    },
                }
            },
        }
    }
}

/// Whether a count of supersteps is one that a run can end on which began
/// at the count `start` under the cap `cap`: not below the start, and above
/// the cap only where the start was.
pub open spec fn within_cap(supersteps: u64, start: u64, cap: u32) -> bool {
    start <= supersteps && (supersteps <= cap || supersteps == start)
}

/// Whether some vertex answers to `name`.
pub open spec fn found<S: WorkflowState, V: Vertex<S>>(vertices: Seq<V>, name: Seq<char>) -> bool {
    exists|j: int| #[trigger] resolved::<S, V>(vertices, name, j)
}

/// Whether `update` and `report` are what the vertex at the position `at`
/// hands in when it is run from the state `from`: the first vertex that
/// answers to its name is run, succeeds, and its update, its wish to stay
/// active and its outbox are handed in.
pub open spec fn ran_at<S: WorkflowState, V: Vertex<S>>(
    ids: Seq<VertexId>,
    policy: RetryPolicy,
    vertices: Seq<V>,
    from: Progress<S>,
    at: int,
    update: Option<S::Update>,
    report: Option<Report>,
) -> bool {
    exists|j: int, outcome: VertexOutcome<S::Update>|
        resolved::<S, V>(vertices, ids[at]@, j) && #[trigger] vertex_outcome::<S, V>(
            ids,
            from.sight(),
            policy,
            &vertices[j],
            at,
            ids[at],
            Ok(outcome),
        ) && update == Some(outcome.result.update) && (report matches Some(handed)
            && handed.state == outcome.result.state && handed.outbox@ == outcome.outbox@)
}

/// Whether the vertex at the position `at` stands in `now` as it should
/// once the awaited vertices of `from` before the position `upto` are run:
/// an awaited vertex before `upto` has handed in what its run gave; every
/// other vertex stands as in `from`.
pub open spec fn slot_after<S: WorkflowState, V: Vertex<S>>(
    ids: Seq<VertexId>,
    policy: RetryPolicy,
    vertices: Seq<V>,
    from: Progress<S>,
    now: Progress<S>,
    upto: int,
    at: int,
) -> bool {
    if at < upto && from.awaited(at) {
        ran_at::<S, V>(ids, policy, vertices, from, at, now.updates[at], now.reports[at])
    } else {
        now.updates[at] == from.updates[at] && now.reports[at] == from.reports[at]
    }
}

/// Whether `now` is `from` with the awaited vertices before the position
/// `upto` run: nothing but updates and reports has changed, and each vertex
/// stands as `slot_after` says.
pub open spec fn is_round_upto<S: WorkflowState, V: Vertex<S>>(
    ids: Seq<VertexId>,
    policy: RetryPolicy,
    vertices: Seq<V>,
    from: Progress<S>,
    now: Progress<S>,
    upto: int,
) -> bool {
    &&& now == (Progress { updates: now.updates, reports: now.reports, ..from })
    &&& now.updates.len() == ids.len()
    &&& now.reports.len() == ids.len()
    &&& forall|at: int|
        0 <= at < ids.len() ==> #[trigger] slot_after::<S, V>(
            ids,
            policy,
            vertices,
            from,
            now,
            upto,
            at,
        )
}

/// Whether `handed` is `from` with every awaited vertex run and its result
/// handed in. A vertex that has reported already is not run again.
pub open spec fn is_round<S: WorkflowState, V: Vertex<S>>(
    ids: Seq<VertexId>,
    policy: RetryPolicy,
    vertices: Seq<V>,
    from: Progress<S>,
    handed: Progress<S>,
) -> bool {
    is_round_upto::<S, V>(ids, policy, vertices, from, handed, ids.len() as int)
}

/// A state with the checkpoint marked that the cadence asks for after a
/// barrier.
pub open spec fn marked<S: WorkflowState>(
    cadence: CheckpointCadence,
    state: Progress<S>,
) -> Progress<S> {
    if cadence.due(state.superstep, state.idle()) {
        Progress { last_checkpoint: Some(state.superstep), ..state }
    } else {
        state
    }
}

/// Whether one superstep takes a run from `from` to `to`: the run can take a
/// superstep; every awaited vertex is run and hands in its result; the
/// barrier is passed; and the checkpoint is marked where the cadence is due.
pub open spec fn follows<S: WorkflowState, P: EdgePredicate<S>, V: Vertex<S>>(
    graph: Graph<P>,
    config: PregelConfig,
    vertices: Seq<V>,
    from: Progress<S>,
    to: Progress<S>,
) -> bool {
    &&& phase_of(config.max_supersteps, from) == Phase::Ready
    &&& exists|handed: Progress<S>|
        #[trigger] is_round::<S, V>(
            graph.vertex_ids(),
            config.retry_policy,
            vertices,
            from,
            handed,
        ) && can_step(config.max_supersteps, graph.vertex_ids(), graph.edge_list(), handed) && to
            == marked(
            config.checkpoint_cadence,
            after_barrier::<S, P>(graph.vertex_ids(), graph.edge_list(), handed),
        )
}

/// Whether `course` holds the states of a run after each of its supersteps,
/// from `start` on.
pub open spec fn is_run<S: WorkflowState, P: EdgePredicate<S>, V: Vertex<S>>(
    graph: Graph<P>,
    config: PregelConfig,
    vertices: Seq<V>,
    start: Progress<S>,
    course: Seq<Progress<S>>,
) -> bool {
    &&& course.len() >= 1
    &&& course[0] == start
    &&& forall|t: int|
        0 <= t < course.len() - 1 ==> follows::<S, P, V>(
            graph,
            config,
            vertices,
            #[trigger] course[t],
            course[t + 1],
        )
}

/// Whether the vertex at the position `at` is the first awaited one that no
/// vertex answers to.
pub open spec fn is_first_lacking<S: WorkflowState, V: Vertex<S>>(
    ids: Seq<VertexId>,
    vertices: Seq<V>,
    last: Progress<S>,
    at: int,
) -> bool {
    &&& 0 <= at < ids.len()
    &&& last.awaited(at)
    &&& unresolved::<S, V>(vertices, ids[at]@)
    &&& forall|earlier: int|
        0 <= earlier < at && last.awaited(earlier) ==> found::<S, V>(
            vertices,
            (#[trigger] ids[earlier])@,
        )
}

/// Whether every awaited vertex has a vertex that answers to its name.
pub open spec fn all_found<S: WorkflowState, V: Vertex<S>>(
    ids: Seq<VertexId>,
    vertices: Seq<V>,
    last: Progress<S>,
) -> bool {
    forall|at: int|
        0 <= at < ids.len() && last.awaited(at) ==> found::<S, V>(vertices, (#[trigger] ids[at])@)
}

/// Whether the run of the vertex at the position `at`, by the vertex at the
/// position `by`, fails with `error` for good, after every awaited vertex
/// before it has run well.
pub open spec fn is_first_failing<S: WorkflowState, V: Vertex<S>>(
    ids: Seq<VertexId>,
    policy: RetryPolicy,
    vertices: Seq<V>,
    last: Progress<S>,
    error: PregelError,
    at: int,
    by: int,
) -> bool {
    &&& 0 <= at < ids.len()
    &&& last.awaited(at)
    &&& resolved::<S, V>(vertices, ids[at]@, by)
    &&& vertex_outcome::<S, V>(
        ids,
        last.sight(),
        policy,
        &vertices[by],
        at,
        ids[at],
        Err(error),
    )
    &&& forall|earlier: int|
        0 <= earlier < at && last.awaited(earlier) ==> exists|
            update: Option<S::Update>,
            report: Option<Report>,
        |
            #[trigger] ran_at::<S, V>(ids, policy, vertices, last, earlier, update, report)
}

/// Whether `error` is a failure that ends a run which stands at `last` and
/// can take a superstep. There are three:
///
/// - the fatal error "no vertex of this name", for the first awaited vertex
///   that no vertex answers to;
/// - where every awaited vertex has its vertex: the error on which the run
///   of a vertex gave up, for the first vertex whose run did;
/// - where every awaited vertex has run and handed in: the error that tells
///   why the barrier cannot be passed.
pub open spec fn breaks<S: WorkflowState, P: EdgePredicate<S>, V: Vertex<S>>(
    graph: Graph<P>,
    config: PregelConfig,
    vertices: Seq<V>,
    last: Progress<S>,
    error: PregelError,
) -> bool {
    let ids = graph.vertex_ids();
    ||| exists|at: int|
        #[trigger] is_first_lacking::<S, V>(ids, vertices, last, at) && is_fatal(
            error,
            ids[at]@,
            "no vertex of this name"@,
        )
    ||| all_found::<S, V>(ids, vertices, last) && exists|at: int, by: int|
        #[trigger] is_first_failing::<S, V>(
            ids,
            config.retry_policy,
            vertices,
            last,
            error,
            at,
            by,
        )
    ||| exists|handed: Progress<S>|
        #[trigger] is_round::<S, V>(ids, config.retry_policy, vertices, last, handed) && !can_step(
            config.max_supersteps,
            ids,
            graph.edge_list(),
            handed,
        ) && explains(error, config.max_supersteps, ids, graph.edge_list(), handed)
}

/// Whether `ended` is how a run ends that stands at `last`: with the result
/// that goes with its phase, where it can take no superstep; else with a
/// failure that breaks it, and the last checkpoint it has marked.
pub open spec fn ends_as<S: WorkflowState, P: EdgePredicate<S>, V: Vertex<S>>(
    graph: Graph<P>,
    config: PregelConfig,
    vertices: Seq<V>,
    last: Progress<S>,
    ended: WorkflowResult<S>,
) -> bool {
    let phase = phase_of(config.max_supersteps, last);
    if phase != Phase::Ready {
        concludes(ended, phase, last)
    } else {
        ended matches WorkflowResult::Failed { error, last_checkpoint_step }
            && last_checkpoint_step == last.last_checkpoint && breaks::<S, P, V>(
            graph,
            config,
            vertices,
            last,
            error,
        )
    }
}

/// Whether the store `after` is the store `before` once the run has reached
/// `state`: with a checkpoint of the state written to it where the cadence
/// is due, and as it was where not.
pub open spec fn store_step<S: WorkflowState, P>(
    before: MemoryCheckpointer<S>,
    after: MemoryCheckpointer<S>,
    graph: Graph<P>,
    cadence: CheckpointCadence,
    state: Progress<S>,
) -> bool {
    if cadence.due(state.superstep, state.idle()) {
        exists|record: Checkpoint<S>|
            record.records(graph.graph_id(), graph.vertex_ids(), state)
                && #[trigger] after.follows_put(before, record)
    } else {
        after == before
    }
}

/// Whether `stores` are the states of the checkpoint store along a run:
/// from `first` to `last`, one for each state of the course, each but the
/// first made from the one before as `store_step` says.
pub open spec fn is_storing<S: WorkflowState, P>(
    stores: Seq<MemoryCheckpointer<S>>,
    first: MemoryCheckpointer<S>,
    last: MemoryCheckpointer<S>,
    graph: Graph<P>,
    cadence: CheckpointCadence,
    course: Seq<Progress<S>>,
) -> bool {
    &&& stores.len() == course.len()
    &&& stores.len() >= 1
    &&& stores[0] == first
    &&& stores.last() == last
    &&& forall|t: int|
        1 <= t < stores.len() ==> store_step(
            stores[t - 1],
            #[trigger] stores[t],
            graph,
            cadence,
            course[t],
        )
}

/// Whether the store `last` is the store `first` after the checkpoints of a
/// run: one is written for each state of the course where the cadence is
/// due, and nothing else is.
pub open spec fn stored<S: WorkflowState, P>(
    first: MemoryCheckpointer<S>,
    last: MemoryCheckpointer<S>,
    graph: Graph<P>,
    cadence: CheckpointCadence,
    course: Seq<Progress<S>>,
) -> bool {
    exists|stores: Seq<MemoryCheckpointer<S>>|
        #[trigger] is_storing(stores, first, last, graph, cadence, course)
}

/// Whether `course` tells a whole run: the states after each superstep from
/// `start` on, the result `ended` that the last state ends on, and the
/// checkpoints that took the store from `first` to `last`.
pub open spec fn is_whole_run<S: WorkflowState, P: EdgePredicate<S>, V: Vertex<S>>(
    graph: Graph<P>,
    config: PregelConfig,
    vertices: Seq<V>,
    start: Progress<S>,
    course: Seq<Progress<S>>,
    ended: WorkflowResult<S>,
    first: MemoryCheckpointer<S>,
    last: MemoryCheckpointer<S>,
) -> bool {
    &&& is_run::<S, P, V>(graph, config, vertices, start, course)
    &&& ends_as::<S, P, V>(graph, config, vertices, course.last(), ended)
    &&& stored(first, last, graph, config.checkpoint_cadence, course)
}

/// Runs a workflow to its end.
///
/// As long as the next superstep can run, the vertex of every awaited name
/// is looked up, every awaited vertex is run and its result handed in, and
/// the barrier is passed. A vertex that has reported already is not run
/// again. After a barrier a checkpoint is stored where the cadence of the run
/// asks for one.
///
/// The run ends with the result that goes with its phase once it can take
/// no further superstep. A name without a vertex, a vertex that fails for
/// good, and a barrier that cannot be passed end it with that failure. A
/// run that ends well has counted no superstep down and none beyond the cap.
pub fn run<S: WorkflowState, P: EdgePredicate<S>, V: Vertex<S>>(
    runtime: PregelRuntime<S, P>,
    vertices: &Vec<V>,
    store: &mut MemoryCheckpointer<S>,
) -> (ended: WorkflowResult<S>)
    requires
        runtime.wf(),
        old(store).wf(),
    ensures
        final(store).wf(),
        exists|course: Seq<Progress<S>>|
            #[trigger] is_whole_run::<S, P, V>(
                runtime.plan(),
                runtime.settings(),
                vertices@,
                runtime@,
                course,
                ended,
                *old(store),
                *final(store),
            ),
        runtime.stage() != Phase::Ready ==> concludes(ended, runtime.stage(), runtime@)
            && *final(store) == *old(store),
        ended matches WorkflowResult::Converged { supersteps, .. } ==> within_cap(
            supersteps,
            runtime@.superstep,
            runtime.settings().max_supersteps,
        ),
        ended matches WorkflowResult::Completed { supersteps, .. } ==> within_cap(
            supersteps,
            runtime@.superstep,
            runtime.settings().max_supersteps,
        ),
{
    let ghost graph = runtime.plan();
    let ghost config = runtime.settings();
    let ghost ids = graph.vertex_ids();
    let ghost cap = config.max_supersteps;
    let ghost mut course: Seq<Progress<S>> = seq![runtime@];
    let ghost mut stores: Seq<MemoryCheckpointer<S>> = seq![*store];
    proof {
        runtime.lemma_wf();
    }
    let mut current = runtime;
    let mut started = false;
    loop
        invariant
            current.wf(),
            store.wf(),
            graph.wf(),
            current.plan() == graph,
            current.settings() == config,
            graph == runtime.plan(),
            config == runtime.settings(),
            ids == graph.vertex_ids(),
            cap == config.max_supersteps,
            !started ==> current == runtime && *store == *old(store),
            started ==> runtime.stage() == Phase::Ready,
            within_cap(current@.superstep, runtime@.superstep, cap),
            course.last() == current@,
            is_run::<S, P, V>(graph, config, vertices@, runtime@, course),
            is_storing(stores, *old(store), *store, graph, config.checkpoint_cadence, course),
        decreases cap - current@.superstep,
    {
        current = match current.finish() {
            Ok(result) => {
                assert(ends_as::<S, P, V>(graph, config, vertices@, course.last(), result));
                assert(is_whole_run::<S, P, V>(
                    graph,
                    config,
                    vertices@,
                    runtime@,
                    course,
                    result,
                    *old(store),
                    *store,
                ));
                return result;
            },
            Err(back) => back,
        };
        started = true;
        let ghost from = current@;
        let count = current.graph().len();
        proof {
            current.lemma_wf();
        }
        let mut chosen: Vec<usize> = Vec::new();
        let mut at: usize = 0;
        while at < count
            invariant
                at <= count,
                count == ids.len(),
                current.wf(),
                store.wf(),
                current.plan() == graph,
                current.settings() == config,
                graph == runtime.plan(),
                config == runtime.settings(),
                ids == graph.vertex_ids(),
                current@ == from,
                course.last() == from,
                phase_of(config.max_supersteps, from) == Phase::Ready,
                runtime.stage() == Phase::Ready,
                is_run::<S, P, V>(graph, config, vertices@, runtime@, course),
                is_storing(stores, *old(store), *store, graph, config.checkpoint_cadence, course),
                chosen@.len() == at,
                forall|k: int|
                    0 <= k < at && from.awaited(k) ==> resolved::<S, V>(
                        vertices@,
                        ids[k]@,
                        #[trigger] chosen@[k] as int,
                    ),
            decreases count - at,
        {
            if current.awaits_at(at) {
                match find_vertex::<S, V>(vertices, current.graph().vertex(at)) {
                    Some(by) => {
                        chosen.push(by);
                    },
                    None => {
                        let error = PregelError::vertex_error(
                            current.graph().vertex(at).clone(),
                            "no vertex of this name",
                        );
                        proof {
                            assert forall|earlier: int|
                                0 <= earlier < at && from.awaited(earlier) implies found::<S, V>(
                                vertices@,
                                (#[trigger] ids[earlier])@,
                            ) by {
                                assert(resolved::<S, V>(
                                    vertices@,
                                    ids[earlier]@,
                                    chosen@[earlier] as int,
                                ));
                            }
                            assert(is_first_lacking::<S, V>(ids, vertices@, from, at as int));
                            assert(breaks::<S, P, V>(graph, config, vertices@, from, error));
                        }
                        let ended = current.abort(error);
                        assert(is_whole_run::<S, P, V>(
                            graph,
                            config,
                            vertices@,
                            runtime@,
                            course,
                            ended,
                            *old(store),
                            *store,
                        ));
                        return ended;
                    },
                }
            } else {
                chosen.push(0);
            }
            at += 1;
        }
        proof {
            assert forall|k: int| 0 <= k < ids.len() && from.awaited(k) implies found::<S, V>(
                vertices@,
                (#[trigger] ids[k])@,
            ) by {
                assert(resolved::<S, V>(vertices@, ids[k]@, chosen@[k] as int));
            }
            assert forall|k: int| 0 <= k < ids.len() implies #[trigger] slot_after::<S, V>(
                ids,
                config.retry_policy,
                vertices@,
                from,
                from,
                0,
                k,
            ) by {}
            from.lemma_fits_lengths(ids.len());
        }
        at = 0;
        while at < count
            invariant
                at <= count,
                count == ids.len(),
                current.wf(),
                store.wf(),
                graph.wf(),
                current.plan() == graph,
                current.settings() == config,
                graph == runtime.plan(),
                config == runtime.settings(),
                ids == graph.vertex_ids(),
                cap == config.max_supersteps,
                course.last() == from,
                phase_of(config.max_supersteps, from) == Phase::Ready,
                runtime.stage() == Phase::Ready,
                within_cap(from.superstep, runtime@.superstep, cap),
                is_run::<S, P, V>(graph, config, vertices@, runtime@, course),
                is_storing(stores, *old(store), *store, graph, config.checkpoint_cadence, course),
                all_found::<S, V>(ids, vertices@, from),
                chosen@.len() == count,
                forall|k: int|
                    0 <= k < count && from.awaited(k) ==> resolved::<S, V>(
                        vertices@,
                        ids[k]@,
                        #[trigger] chosen@[k] as int,
                    ),
                is_round_upto::<S, V>(
                    ids,
                    config.retry_policy,
                    vertices@,
                    from,
                    current@,
                    at as int,
                ),
            decreases count - at,
        {
            let ghost now = current@;
            assert(slot_after::<S, V>(
                ids,
                config.retry_policy,
                vertices@,
                from,
                now,
                at as int,
                at as int,
            ));
            if current.awaits_at(at) {
                let id = current.graph().vertex(at).clone();
                let by = chosen[at];
                proof {
                    graph.lemma_position(at as int);
                    assert(resolved::<S, V>(vertices@, ids[at as int]@, chosen@[at as int] as int));
                    assert(now.sight() =~= from.sight());
                }
                match compute_vertex::<S, P, V>(&current, &vertices[by], &id) {
                    Ok(outcome) => {
                        let ghost handed_in = outcome;
                        match current.submit(&id, outcome.result, outcome.outbox) {
                            Ok(()) => {
                                proof {
                                    let after = current@;
                                    assert(ran_at::<S, V>(
                                        ids,
                                        config.retry_policy,
                                        vertices@,
                                        from,
                                        at as int,
                                        after.updates[at as int],
                                        after.reports[at as int],
                                    )) by {
                                        assert(vertex_outcome::<S, V>(
                                            ids,
                                            from.sight(),
                                            config.retry_policy,
                                            &vertices@[by as int],
                                            at as int,
                                            ids[at as int],
                                            Ok(handed_in),
                                        ));
                                    }
                                    assert forall|k: int|
                                        0 <= k < ids.len() implies #[trigger] slot_after::<S, V>(
                                        ids,
                                        config.retry_policy,
                                        vertices@,
                                        from,
                                        after,
                                        at + 1,
                                        k,
                                    ) by {
                                        assert(slot_after::<S, V>(
                                            ids,
                                            config.retry_policy,
                                            vertices@,
                                            from,
                                            now,
                                            at as int,
                                            k,
                                        ));
                                    }
                                    assert(after =~= (Progress {
                                        updates: after.updates,
                                        reports: after.reports,
                                        ..from
                                    }));
                                }
                            },
                            Err(error) => {
                                assert(false);
                                return current.abort(error);
                            },
                        }
                    },
                    Err(error) => {
                        proof {
                            assert(vertex_outcome::<S, V>(
                                ids,
                                from.sight(),
                                config.retry_policy,
                                &vertices@[by as int],
                                at as int,
                                ids[at as int],
                                Err(error),
                            ));
                            assert forall|earlier: int|
                                0 <= earlier < at && from.awaited(earlier) implies exists|
                                update: Option<S::Update>,
                                report: Option<Report>,
                            |
                                #[trigger] ran_at::<S, V>(
                                    ids,
                                    config.retry_policy,
                                    vertices@,
                                    from,
                                    earlier,
                                    update,
                                    report,
                                ) by {
                                assert(slot_after::<S, V>(
                                    ids,
                                    config.retry_policy,
                                    vertices@,
                                    from,
                                    now,
                                    at as int,
                                    earlier,
                                ));
                                assert(ran_at::<S, V>(
                                    ids,
                                    config.retry_policy,
                                    vertices@,
                                    from,
                                    earlier,
                                    now.updates[earlier],
                                    now.reports[earlier],
                                ));
                            }
                            assert(is_first_failing::<S, V>(
                                ids,
                                config.retry_policy,
                                vertices@,
                                from,
                                error,
                                at as int,
                                by as int,
                            ));
                            assert(breaks::<S, P, V>(graph, config, vertices@, from, error));
                        }
                        let ended = current.abort(error);
                        assert(is_whole_run::<S, P, V>(
                            graph,
                            config,
                            vertices@,
                            runtime@,
                            course,
                            ended,
                            *old(store),
                            *store,
                        ));
                        return ended;
                    },
                }
            } else {
                proof {
                    assert forall|k: int| 0 <= k < ids.len() implies #[trigger] slot_after::<S, V>(
                        ids,
                        config.retry_policy,
                        vertices@,
                        from,
                        now,
                        at + 1,
                        k,
                    ) by {
                        assert(slot_after::<S, V>(
                            ids,
                            config.retry_policy,
                            vertices@,
                            from,
                            now,
                            at as int,
                            k,
                        ));
                    }
                }
            }
            at += 1;
        }
        let ghost handed = current@;
        assert(is_round::<S, V>(ids, config.retry_policy, vertices@, from, handed));
        match current.barrier() {
            Ok(()) => {},
            Err(error) => {
                proof {
                    assert(breaks::<S, P, V>(graph, config, vertices@, from, error));
                }
                let ended = current.abort(error);
                assert(is_whole_run::<S, P, V>(
                    graph,
                    config,
                    vertices@,
                    runtime@,
                    course,
                    ended,
                    *old(store),
                    *store,
                ));
                return ended;
            },
        }
        let ghost passed = current@;
        let ghost kept = *store;
        if current.checkpoint_due() {
            let record = current.checkpoint();
            store.put(record);
            current.mark_checkpointed();
        }
        proof {
            let to = current@;
            assert(to == marked(config.checkpoint_cadence, passed));
            assert(follows::<S, P, V>(graph, config, vertices@, from, to));
            assert(to.active == passed.active);
            assert(to.idle() == passed.idle()) by {
                if passed.idle() {
                    assert forall|i: int| 0 <= i < to.active.len() implies !#[trigger] to.active[i] by {
                        assert(!passed.active[i]);
                    }
                }
                if to.idle() {
                    assert forall|i: int|
                        0 <= i < passed.active.len() implies !#[trigger] passed.active[i] by {
                        assert(!to.active[i]);
                    }
                }
            }
            assert(store_step(kept, *store, graph, config.checkpoint_cadence, to));
            let earlier = course;
            let before = stores;
            course = course.push(to);
            stores = stores.push(*store);
            assert forall|t: int| 0 <= t < course.len() - 1 implies follows::<S, P, V>(
                graph,
                config,
                vertices@,
                #[trigger] course[t],
                course[t + 1],
            ) by {
                if t < earlier.len() - 1 {
                    assert(course[t] == earlier[t] && course[t + 1] == earlier[t + 1]);
                    assert(follows::<S, P, V>(
                        graph,
                        config,
                        vertices@,
                        earlier[t],
                        earlier[t + 1],
                    ));
                } else {
                    assert(course[t] == from);
                }
            }
            assert forall|t: int| 1 <= t < stores.len() implies store_step(
                stores[t - 1],
                #[trigger] stores[t],
                graph,
                config.checkpoint_cadence,
                course[t],
            ) by {
                if t < before.len() {
                    assert(stores[t] == before[t] && stores[t - 1] == before[t - 1]);
                    assert(course[t] == earlier[t]);
                    assert(store_step(
                        before[t - 1],
                        before[t],
                        graph,
                        config.checkpoint_cadence,
                        earlier[t],
                    ));
                } else {
                    assert(stores[t - 1] == kept);
                }
            }
        }
    }
}

/// Runs a workflow from its inputs to its end.
///
/// Inputs that cannot be routed fail the run before its first superstep,
/// with the routing error for the first such input. Else the run begins in
/// the state that the inputs give and goes as `run` says. A run that needs
/// no superstep ends at once: with no vertex active it has converged, in its
/// first state and after no superstep; at a cap of no superstep it has
/// failed to converge. No run ends well beyond the cap.
pub fn execute<S: WorkflowState, P: EdgePredicate<S>, V: Vertex<S>>(
    graph: Graph<P>,
    state: S,
    config: PregelConfig,
    inputs: Vec<Outbound>,
    vertices: &Vec<V>,
    store: &mut MemoryCheckpointer<S>,
) -> (ended: WorkflowResult<S>)
    requires
        graph.wf(),
        old(store).wf(),
    ensures
        final(store).wf(),
        has_stray(graph.edge_list(), Source::External, inputs@) ==> (
        ended matches WorkflowResult::Failed { error, last_checkpoint_step }
            && last_checkpoint_step is None && *final(store) == *old(store) && (
        error matches PregelError::RoutingError { source, label } && source == Source::External
            && exists|k: int|
            #[trigger] is_first_lost(graph.edge_list(), inputs@, k) && inputs@[k].target@
                == label@)),
        !has_stray(graph.edge_list(), Source::External, inputs@) ==> exists|
            course: Seq<Progress<S>>,
        |
            #[trigger] is_whole_run::<S, P, V>(
                graph,
                config,
                vertices@,
                initial::<S, P>(graph.vertex_ids(), graph.edge_list(), state@, inputs@),
                course,
                ended,
                *old(store),
                *final(store),
            ),
        !has_stray(graph.edge_list(), Source::External, inputs@) ==> ({
            let begun = initial::<S, P>(graph.vertex_ids(), graph.edge_list(), state@, inputs@);
            let phase = phase_of(config.max_supersteps, begun);
            phase != Phase::Ready ==> concludes(ended, phase, begun) && *final(store) == *old(
                store,
            )
        }),
        ended matches WorkflowResult::Converged { supersteps, .. } ==> supersteps
            <= config.max_supersteps,
        ended matches WorkflowResult::Completed { supersteps, .. } ==> supersteps
            <= config.max_supersteps,
{
    match PregelRuntime::start(graph, state, config, inputs) {
        Ok(runtime) => run::<S, P, V>(runtime, vertices, store),
        Err(error) => WorkflowResult::Failed { error, last_checkpoint_step: None },
    }
}

/// Runs a workflow on from the newest checkpoint that the store has for the
/// graph.
///
/// Fails with a checkpoint error where the store has none, or where the
/// newest does not suit the graph; the latter failure names the superstep
/// count of that checkpoint. Else the run begins in the state of the
/// checkpoint and goes as `run` says; one that needs no further superstep
/// ends at once, with the result that goes with that state.
pub fn resume<S: WorkflowState, P: EdgePredicate<S>, V: Vertex<S>>(
    graph: Graph<P>,
    config: PregelConfig,
    vertices: &Vec<V>,
    store: &mut MemoryCheckpointer<S>,
) -> (ended: WorkflowResult<S>)
    requires
        graph.wf(),
        old(store).wf(),
    ensures
        final(store).wf(),
        old(store).history(graph.graph_id()).len() == 0 ==> (
        ended matches WorkflowResult::Failed { error, last_checkpoint_step } && (
        error matches PregelError::CheckpointError { message } && message@
            == "no checkpoint to resume from"@) && last_checkpoint_step is None && *final(store)
            == *old(store)),
        old(store).history(graph.graph_id()).len() > 0 ==> ({
            let record = old(store).history(graph.graph_id()).last();
            let resumed = record.resumed(graph.vertex_ids());
            let phase = phase_of(config.max_supersteps, resumed);
            &&& !record.suits(graph.graph_id(), graph.vertex_ids()) ==> (
            ended matches WorkflowResult::Failed { error, last_checkpoint_step } && is_unsuitable(
                error,
            ) && last_checkpoint_step == Some(record.superstep) && *final(store) == *old(store))
            &&& record.suits(graph.graph_id(), graph.vertex_ids()) ==> exists|
                course: Seq<Progress<S>>,
            |
                #[trigger] is_whole_run::<S, P, V>(
                    graph,
                    config,
                    vertices@,
                    resumed,
                    course,
                    ended,
                    *old(store),
                    *final(store),
                )
            &&& record.suits(graph.graph_id(), graph.vertex_ids()) && phase != Phase::Ready
                ==> concludes(ended, phase, resumed) && *final(store) == *old(store)
        }),
{
    let record = match store.latest(graph.id()) {
        Some(record) => {
            let copy = record.duplicate();
            proof {
                copy.lemma_same(*record, graph.graph_id(), graph.vertex_ids());
            }
            copy
        },
        None => {
            return WorkflowResult::Failed {
                error: PregelError::CheckpointError {
                    message: "no checkpoint to resume from".to_owned(),
                },
                last_checkpoint_step: None,
            };
        },
    };
    let step = record.superstep;
    match PregelRuntime::restore(graph, config, record) {
        Ok(runtime) => run::<S, P, V>(runtime, vertices, store),
        Err(error) => WorkflowResult::Failed { error, last_checkpoint_step: Some(step) },
    }
}

} // verus!
