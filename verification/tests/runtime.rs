use std::cell::Cell;
use std::rc::Rc;

use rig_deepagents::pregel::checkpoint::MemoryCheckpointer;
use rig_deepagents::pregel::config::{
    Backoff, CheckpointCadence, PregelConfig, RetryOn, RetryPolicy,
};
use rig_deepagents::pregel::driver::{execute, resume, run};
use rig_deepagents::pregel::error::PregelError;
use rig_deepagents::pregel::graph::{Edge, Graph, KeyIs, Target};
use rig_deepagents::pregel::message::{Envelope, Priority, Source, WorkflowMessage};
use rig_deepagents::pregel::runtime::{Phase, PregelRuntime, WorkflowResult};
use rig_deepagents::pregel::state::{
    StateMerger, StateUpdate, TallyState, TallyUpdate, UnitState, UnitUpdate, WorkflowState,
};
use rig_deepagents::pregel::vertex::{
    ComputeContext, ComputeResult, Outbound, Outbox, Vertex, VertexId,
};
use serde_json::Value;

type Body<S> = Box<
    dyn Fn(&mut ComputeContext<'_, S>) -> Result<ComputeResult<<S as WorkflowState>::Update>, PregelError>,
>;

/// A vertex whose compute call is a closure.
struct Scripted<S: WorkflowState> {
    id: VertexId,
    body: Body<S>,
}

impl<S: WorkflowState> Scripted<S> {
    fn new(
        id: &str,
        body: impl Fn(&mut ComputeContext<'_, S>) -> Result<ComputeResult<S::Update>, PregelError>
            + 'static,
    ) -> Self {
        Scripted { id: VertexId::new(id), body: Box::new(body) }
    }
}

impl<S: WorkflowState> Vertex<S> for Scripted<S> {
    fn id(&self) -> &VertexId {
        &self.id
    }

    fn compute(&self, ctx: &mut ComputeContext<'_, S>) -> Result<ComputeResult<S::Update>, PregelError> {
        (self.body)(ctx)
    }
}

fn tally(total: u64) -> TallyState {
    TallyState { total }
}

fn add(add: u64) -> TallyUpdate {
    TallyUpdate { add }
}

fn id(name: &str) -> VertexId {
    VertexId::new(name)
}

fn data(key: &str, value: Value) -> WorkflowMessage {
    WorkflowMessage::data(key, value)
}

fn text(value: &str) -> Value {
    Value::String(value.to_string())
}

fn input(label: &str, message: WorkflowMessage) -> Outbound {
    Outbound { target: id(label), message, priority: Priority::Normal }
}

fn graph_of(name: &str, vertices: &[&str]) -> Graph<KeyIs> {
    let mut graph = Graph::new(name);
    for vertex in vertices {
        assert!(graph.add_vertex(id(vertex)));
    }
    graph
}

fn entry(graph: &mut Graph<KeyIs>, label: &str, to: &str) {
    graph.add_edge(Edge::direct(Source::External, label, Target::Vertex(id(to)))).unwrap();
}

fn link(graph: &mut Graph<KeyIs>, from: &str, label: &str, to: &str) {
    graph
        .add_edge(Edge::direct(Source::Vertex(id(from)), label, Target::Vertex(id(to))))
        .unwrap();
}

fn sink(graph: &mut Graph<KeyIs>, from: &str, label: &str) {
    graph.add_edge(Edge::direct(Source::Vertex(id(from)), label, Target::Output)).unwrap();
}

fn config(max_supersteps: u32) -> PregelConfig {
    PregelConfig { max_supersteps, ..Default::default() }
}

fn number(message: &WorkflowMessage) -> i64 {
    message.value().as_i64().unwrap()
}

/// Runs every scheduled vertex once and passes the barrier.
fn step<S: WorkflowState>(
    runtime: &mut PregelRuntime<S, KeyIs>,
    vertices: &[Scripted<S>],
) -> Result<(), PregelError> {
    let mut handed = Vec::new();
    for name in runtime.scheduled() {
        let vertex = vertices.iter().find(|v| v.id == name).unwrap();
        let mut ctx = runtime.context(&name).unwrap();
        let result = vertex.compute(&mut ctx)?;
        handed.push((name, result, ctx.into_outbox()));
    }
    for (name, result, outbox) in handed {
        runtime.submit(&name, result, outbox)?;
    }
    runtime.barrier()
}

fn halting() -> Result<ComputeResult<UnitUpdate>, PregelError> {
    Ok(ComputeResult::halt(UnitUpdate))
}

// ---- boundaries -----------------------------------------------------------

#[test]
fn zero_active_vertices_end_in_zero_supersteps() {
    let graph = graph_of("g", &["a"]);
    let vertices = vec![Scripted::<TallyState>::new("a", |_| panic!("must not run"))];
    let mut store = MemoryCheckpointer::new();
    let ended = execute(graph, tally(41), config(100), vec![], &vertices, &mut store);
    match ended {
        WorkflowResult::Converged { state, supersteps, outputs } => {
            assert_eq!(state, tally(41));
            assert_eq!(supersteps, 0);
            assert!(outputs.is_empty());
        }
        other => panic!("expected Converged, got {:?}", other),
    }
}

#[test]
fn single_vertex_that_halts_at_once_takes_one_superstep() {
    let mut graph = graph_of("g", &["a"]);
    entry(&mut graph, "a", "a");
    let calls = Rc::new(Cell::new(0));
    let seen = calls.clone();
    let vertices = vec![Scripted::<UnitState>::new("a", move |_| {
        seen.set(seen.get() + 1);
        halting()
    })];
    let mut store = MemoryCheckpointer::new();
    let ended = execute(
        graph,
        UnitState,
        config(100),
        vec![input("a", data("go", Value::Null))],
        &vertices,
        &mut store,
    );
    assert!(matches!(ended, WorkflowResult::Converged { supersteps: 1, .. }));
    assert_eq!(calls.get(), 1);
}

#[test]
fn cap_of_zero_with_an_active_vertex_fails_at_once() {
    let mut graph = graph_of("g", &["a"]);
    entry(&mut graph, "a", "a");
    let vertices = vec![Scripted::<UnitState>::new("a", |_| panic!("must not run"))];
    let mut store = MemoryCheckpointer::new();
    let ended = execute(
        graph,
        UnitState,
        config(0),
        vec![input("a", data("go", Value::Null))],
        &vertices,
        &mut store,
    );
    match ended {
        WorkflowResult::Failed { error, last_checkpoint_step } => {
            assert_eq!(error, PregelError::ConvergenceError { supersteps: 0 });
            assert_eq!(last_checkpoint_step, None);
        }
        other => panic!("expected Failed, got {:?}", other),
    }
}

#[test]
fn cap_of_zero_without_active_vertex_converges() {
    let graph = graph_of("g", &["a"]);
    let vertices: Vec<Scripted<UnitState>> = vec![];
    let mut store = MemoryCheckpointer::new();
    let ended = execute(graph, UnitState, config(0), vec![], &vertices, &mut store);
    assert!(matches!(ended, WorkflowResult::Converged { supersteps: 0, .. }));
}

#[test]
fn message_to_unknown_label_is_a_routing_error() {
    let mut graph = graph_of("g", &["a", "b"]);
    entry(&mut graph, "a", "a");
    link(&mut graph, "a", "next", "b");
    let vertices = vec![
        Scripted::<UnitState>::new("a", |ctx| {
            ctx.send_message("next", data("ok", Value::Null));
            ctx.send_message("nowhere", data("lost", Value::Null));
            halting()
        }),
        Scripted::<UnitState>::new("b", |_| halting()),
    ];
    let mut store = MemoryCheckpointer::new();
    let ended = execute(
        graph,
        UnitState,
        config(10),
        vec![input("a", data("go", Value::Null))],
        &vertices,
        &mut store,
    );
    match ended {
        WorkflowResult::Failed { error, .. } => assert_eq!(
            error,
            PregelError::RoutingError {
                source: Source::Vertex(id("a")),
                label: "nowhere".to_string()
            }
        ),
        other => panic!("expected Failed, got {:?}", other),
    }
}

#[test]
fn input_to_unknown_label_is_a_routing_error() {
    let graph = graph_of("g", &["a"]);
    let vertices: Vec<Scripted<UnitState>> = vec![];
    let mut store = MemoryCheckpointer::new();
    let ended = execute(
        graph,
        UnitState,
        config(10),
        vec![input("a", data("go", Value::Null))],
        &vertices,
        &mut store,
    );
    match ended {
        WorkflowResult::Failed { error, last_checkpoint_step } => {
            assert_eq!(
                error,
                PregelError::RoutingError { source: Source::External, label: "a".to_string() }
            );
            assert_eq!(last_checkpoint_step, None);
        }
        other => panic!("expected Failed, got {:?}", other),
    }
}

#[test]
fn a_routing_error_leaves_the_runtime_as_it_was() {
    let mut graph = graph_of("g", &["a"]);
    entry(&mut graph, "a", "a");
    let mut runtime = PregelRuntime::<UnitState, KeyIs>::start(
        graph,
        UnitState,
        config(10),
        vec![input("a", data("go", Value::Null))],
    )
    .unwrap();
    let vertices = vec![Scripted::<UnitState>::new("a", |ctx| {
        ctx.send_message("nowhere", data("lost", Value::Null));
        halting()
    })];
    assert!(matches!(step(&mut runtime, &vertices), Err(PregelError::RoutingError { .. })));
    assert_eq!(runtime.superstep(), 0);
    assert!(runtime.is_active(&id("a")));
    assert_eq!(runtime.mailbox(&id("a")).unwrap().len(), 1);
    assert_eq!(runtime.phase(), Phase::Ready);
}

#[test]
fn retry_exhaustion_surfaces_the_last_error() {
    let mut graph = graph_of("g", &["a"]);
    entry(&mut graph, "a", "a");
    let calls = Rc::new(Cell::new(0u32));
    let seen = calls.clone();
    let vertices = vec![Scripted::<UnitState>::new("a", move |ctx| {
        seen.set(seen.get() + 1);
        Err(PregelError::transient(ctx.vertex_id.clone(), &format!("failure {}", seen.get())))
    })];
    let mut store = MemoryCheckpointer::new();
    let ended = execute(
        graph,
        UnitState,
        PregelConfig {
            retry_policy: RetryPolicy {
                max_attempts: 3,
                backoff: Backoff::Fixed(0),
                retry_on: RetryOn::TransientOnly,
            },
            ..Default::default()
        },
        vec![input("a", data("go", Value::Null))],
        &vertices,
        &mut store,
    );
    assert_eq!(calls.get(), 3);
    match ended {
        WorkflowResult::Failed { error, .. } => {
            assert_eq!(error, PregelError::transient(id("a"), "failure 3"))
        }
        other => panic!("expected Failed, got {:?}", other),
    }
}

#[test]
fn fatal_errors_are_not_retried_unless_all_are() {
    for (retry_on, expected_calls) in [(RetryOn::TransientOnly, 1), (RetryOn::All, 4)] {
        let mut graph = graph_of("g", &["a"]);
        entry(&mut graph, "a", "a");
        let calls = Rc::new(Cell::new(0u32));
        let seen = calls.clone();
        let vertices = vec![Scripted::<UnitState>::new("a", move |ctx| {
            seen.set(seen.get() + 1);
            Err(PregelError::vertex_error(ctx.vertex_id.clone(), "broken"))
        })];
        let mut store = MemoryCheckpointer::new();
        let ended = execute(
            graph,
            UnitState,
            PregelConfig {
                retry_policy: RetryPolicy { max_attempts: 4, backoff: Backoff::Immediate, retry_on },
                ..Default::default()
            },
            vec![input("a", data("go", Value::Null))],
            &vertices,
            &mut store,
        );
        assert_eq!(calls.get(), expected_calls);
        assert!(matches!(ended, WorkflowResult::Failed { .. }));
    }
}

// ---- scenarios ------------------------------------------------------------

#[test]
fn echo() {
    let mut graph = graph_of("echo", &["A"]);
    entry(&mut graph, "A", "A");
    sink(&mut graph, "A", "output");
    let vertices = vec![Scripted::<UnitState>::new("A", |ctx| {
        let heard = ctx.messages[0].message.value().clone();
        ctx.send_message("output", data("reply", heard));
        halting()
    })];
    let mut store = MemoryCheckpointer::new();
    let ended = execute(
        graph,
        UnitState,
        config(100),
        vec![input("A", data("greet", text("hi")))],
        &vertices,
        &mut store,
    );
    match ended {
        WorkflowResult::Converged { supersteps, outputs, .. } => {
            assert_eq!(supersteps, 1);
            assert_eq!(
                outputs,
                vec![Envelope {
                    message: data("reply", text("hi")),
                    priority: Priority::Normal,
                    source: Source::Vertex(id("A")),
                }]
            );
        }
        other => panic!("expected Converged, got {:?}", other),
    }
}

#[test]
fn counter() {
    let mut graph = graph_of("counter", &["A"]);
    entry(&mut graph, "A", "A");
    link(&mut graph, "A", "A", "A");
    let log = Rc::new(std::cell::RefCell::new(Vec::<String>::new()));
    let seen = log.clone();
    let vertices = vec![Scripted::<UnitState>::new("A", move |ctx| {
        let k = number(&ctx.messages[0].message);
        if k == 3 {
            seen.borrow_mut().push("halt".to_string());
            return halting();
        }
        seen.borrow_mut().push(format!("{}->{}", k, k + 1));
        ctx.send_message("A", data("n", Value::from(k + 1)));
        halting()
    })];
    let mut store = MemoryCheckpointer::new();
    let ended = execute(
        graph,
        UnitState,
        config(100),
        vec![input("A", data("n", Value::from(0)))],
        &vertices,
        &mut store,
    );
    match ended {
        WorkflowResult::Converged { state, supersteps, outputs } => {
            assert_eq!(supersteps, 4);
            assert_eq!(state, UnitState);
            assert!(outputs.is_empty());
        }
        other => panic!("expected Converged, got {:?}", other),
    }
    assert_eq!(*log.borrow(), vec!["0->1", "1->2", "2->3", "halt"]);
}

fn fan_out_graph() -> Graph<KeyIs> {
    let mut graph = graph_of("fan", &["S", "J", "B", "A"]);
    entry(&mut graph, "S", "S");
    link(&mut graph, "S", "spread", "B");
    link(&mut graph, "S", "spread", "A");
    link(&mut graph, "A", "join", "J");
    link(&mut graph, "B", "join", "J");
    graph
}

fn fan_out_vertices(joined: Rc<std::cell::RefCell<Vec<Envelope>>>) -> Vec<Scripted<UnitState>> {
    vec![
        Scripted::new("S", |ctx| {
            ctx.send_message("spread", data("work", Value::from(1)));
            halting()
        }),
        Scripted::new("B", |ctx| {
            ctx.send_message("join", data("from", text("B")));
            halting()
        }),
        Scripted::new("A", |ctx| {
            ctx.send_message("join", data("from", text("A")));
            halting()
        }),
        Scripted::new("J", move |ctx| {
            joined.borrow_mut().extend(ctx.messages.iter().cloned());
            halting()
        }),
    ]
}

#[test]
fn fan_out_and_join() {
    let joined = Rc::new(std::cell::RefCell::new(Vec::new()));
    let vertices = fan_out_vertices(joined.clone());
    let mut runtime = PregelRuntime::<UnitState, KeyIs>::start(
        fan_out_graph(),
        UnitState,
        config(100),
        vec![input("S", data("go", Value::Null))],
    )
    .unwrap();

    assert_eq!(runtime.scheduled(), vec![id("S")]);
    step(&mut runtime, &vertices).unwrap();
    assert_eq!(runtime.scheduled(), vec![id("A"), id("B")]);
    step(&mut runtime, &vertices).unwrap();
    assert_eq!(runtime.scheduled(), vec![id("J")]);
    let expected = vec![
        Envelope {
            message: data("from", text("A")),
            priority: Priority::Normal,
            source: Source::Vertex(id("A")),
        },
        Envelope {
            message: data("from", text("B")),
            priority: Priority::Normal,
            source: Source::Vertex(id("B")),
        },
    ];
    assert_eq!(runtime.mailbox(&id("J")).unwrap(), &expected);
    step(&mut runtime, &vertices).unwrap();
    assert!(runtime.scheduled().is_empty());
    assert_eq!(runtime.phase(), Phase::Converged);
    assert_eq!(runtime.superstep(), 3);
    assert_eq!(*joined.borrow(), expected);
    assert!(matches!(runtime.finish(), Ok(WorkflowResult::Converged { supersteps: 3, .. })));
}

#[test]
fn retry_succeeds_on_the_third_attempt() {
    let mut graph = graph_of("retry", &["A"]);
    entry(&mut graph, "A", "A");
    let calls = Rc::new(Cell::new(0u32));
    let seen = calls.clone();
    let vertices = vec![Scripted::<UnitState>::new("A", move |ctx| {
        seen.set(seen.get() + 1);
        if seen.get() < 3 {
            return Err(PregelError::transient(ctx.vertex_id.clone(), "not yet"));
        }
        assert!(ctx.has_messages());
        assert_eq!(ctx.superstep, 0);
        ctx.send_message("__done__", data("result", text("made it")));
        halting()
    })];
    let mut store = MemoryCheckpointer::new();
    let ended = execute(
        graph,
        UnitState,
        PregelConfig {
            retry_policy: RetryPolicy {
                max_attempts: 3,
                backoff: Backoff::Fixed(0),
                retry_on: RetryOn::TransientOnly,
            },
            ..Default::default()
        },
        vec![input("A", data("go", Value::Null))],
        &vertices,
        &mut store,
    );
    assert_eq!(calls.get(), 3);
    match ended {
        WorkflowResult::Completed { supersteps, outputs, .. } => {
            assert_eq!(supersteps, 1);
            assert_eq!(outputs.len(), 1);
            assert_eq!(outputs[0].message, data("result", text("made it")));
        }
        other => panic!("expected Completed, got {:?}", other),
    }
}

fn countdown_graph() -> Graph<KeyIs> {
    let mut graph = graph_of("countdown", &["A"]);
    entry(&mut graph, "A", "A");
    link(&mut graph, "A", "A", "A");
    graph
}

/// Counts up to 8, adding each number to the tally.
fn countdown_vertices() -> Vec<Scripted<TallyState>> {
    vec![Scripted::new("A", |ctx| {
        let k = number(&ctx.messages[0].message);
        if k < 8 {
            ctx.send_message("A", data("n", Value::from(k + 1)));
        }
        Ok(ComputeResult::halt(add(k as u64)))
    })]
}

#[test]
fn resume_goes_on_from_the_checkpoint() {
    let straight = {
        let mut store = MemoryCheckpointer::new();
        execute(
            countdown_graph(),
            tally(0),
            config(100),
            vec![input("A", data("n", Value::from(1)))],
            &countdown_vertices(),
            &mut store,
        )
    };
    let (straight_state, straight_steps) = match straight {
        WorkflowResult::Converged { state, supersteps, .. } => (state, supersteps),
        other => panic!("expected Converged, got {:?}", other),
    };
    assert_eq!(straight_state, tally(36));
    assert_eq!(straight_steps, 8);

    let vertices = countdown_vertices();
    let mut runtime = PregelRuntime::<TallyState, KeyIs>::start(
        countdown_graph(),
        tally(0),
        config(100),
        vec![input("A", data("n", Value::from(1)))],
    )
    .unwrap();
    for _ in 0..5 {
        step(&mut runtime, &vertices).unwrap();
    }
    let mut store = MemoryCheckpointer::new();
    store.put(runtime.checkpoint());
    runtime.mark_checkpointed();
    assert_eq!(runtime.last_checkpoint(), Some(5));
    drop(runtime);

    let resumed = store.latest("countdown").unwrap().duplicate();
    let runtime =
        PregelRuntime::<TallyState, KeyIs>::restore(countdown_graph(), config(100), resumed).unwrap();
    assert_eq!(runtime.superstep(), 5);
    assert_eq!(runtime.state(), &tally(15));
    assert_eq!(runtime.last_checkpoint(), Some(5));

    let ended = resume(countdown_graph(), config(100), &countdown_vertices(), &mut store);
    match ended {
        WorkflowResult::Converged { state, supersteps, .. } => {
            assert_eq!(state, straight_state);
            assert_eq!(supersteps, straight_steps);
        }
        other => panic!("expected Converged, got {:?}", other),
    }
}

#[test]
fn ring_runs_into_the_cap() {
    let n = 6usize;
    let names: Vec<String> = (0..n).map(|i| format!("v{}", i)).collect();
    let mut graph = graph_of("ring", &names.iter().map(|s| s.as_str()).collect::<Vec<_>>());
    for name in &names {
        entry(&mut graph, name, name);
        link(&mut graph, name, "self", name);
    }
    let vertices: Vec<Scripted<UnitState>> = names
        .iter()
        .map(|name| {
            Scripted::new(name, |ctx| {
                ctx.send_message("self", data("ping", Value::Null));
                halting()
            })
        })
        .collect();
    let inputs = names.iter().map(|name| input(name, data("ping", Value::Null))).collect();
    let mut store = MemoryCheckpointer::new();
    let ended = execute(
        graph,
        UnitState,
        PregelConfig {
            max_supersteps: (n / 2) as u32,
            checkpoint_cadence: CheckpointCadence::EveryN(2),
            ..Default::default()
        },
        inputs,
        &vertices,
        &mut store,
    );
    match ended {
        WorkflowResult::Failed { error, last_checkpoint_step } => {
            assert_eq!(error, PregelError::ConvergenceError { supersteps: 3 });
            assert_eq!(last_checkpoint_step, Some(2));
            assert!(last_checkpoint_step.unwrap() <= (n / 2) as u64);
        }
        other => panic!("expected Failed, got {:?}", other),
    }
    assert_eq!(store.list("ring"), vec![2]);
}

// ---- what holds of every run, on given values -------------------------------

#[test]
fn mailboxes_hold_only_what_was_sent_in_the_last_superstep() {
    let mut graph = graph_of("g", &["a", "b"]);
    entry(&mut graph, "a", "a");
    entry(&mut graph, "b", "b");
    link(&mut graph, "a", "b", "b");
    let vertices = vec![
        Scripted::<UnitState>::new("a", |ctx| {
            if ctx.superstep == 0 {
                ctx.send_message("b", data("from-a", Value::from(ctx.superstep)));
            }
            halting()
        }),
        Scripted::<UnitState>::new("b", |_| halting()),
    ];
    let mut runtime = PregelRuntime::<UnitState, KeyIs>::start(
        graph,
        UnitState,
        config(10),
        vec![input("a", data("in", Value::Null)), input("b", data("in", Value::Null))],
    )
    .unwrap();
    assert_eq!(runtime.mailbox(&id("b")).unwrap()[0].source, Source::External);

    // While the superstep runs, nothing that is handed in shows.
    let mut ctx = runtime.context(&id("a")).unwrap();
    let result = vertices[0].compute(&mut ctx).unwrap();
    let outbox = ctx.into_outbox();
    runtime.submit(&id("a"), result, outbox).unwrap();
    assert_eq!(runtime.mailbox(&id("b")).unwrap().len(), 1);
    assert_eq!(runtime.mailbox(&id("b")).unwrap()[0].message, data("in", Value::Null));
    runtime.submit(&id("b"), ComputeResult::halt(UnitUpdate), Outbox::new()).unwrap();
    runtime.barrier().unwrap();

    // After the barrier the old mail is gone and the new mail is there.
    let mailbox = runtime.mailbox(&id("b")).unwrap();
    assert_eq!(mailbox.len(), 1);
    assert_eq!(mailbox[0].message, data("from-a", Value::from(0)));
    assert_eq!(mailbox[0].source, Source::Vertex(id("a")));
    assert!(runtime.mailbox(&id("a")).unwrap().is_empty());
    assert!(!runtime.is_active(&id("a")));

    step(&mut runtime, &vertices).unwrap();
    assert!(runtime.mailbox(&id("b")).unwrap().is_empty());
    assert_eq!(runtime.phase(), Phase::Converged);
}

#[test]
fn two_runs_of_the_same_workflow_end_alike() {
    let run_once = || {
        let joined = Rc::new(std::cell::RefCell::new(Vec::new()));
        let mut store = MemoryCheckpointer::new();
        let ended = execute(
            fan_out_graph(),
            UnitState,
            config(100),
            vec![input("S", data("go", Value::Null))],
            &fan_out_vertices(joined.clone()),
            &mut store,
        );
        let seen = joined.borrow().clone();
        (format!("{:?}", ended), seen)
    };
    assert_eq!(run_once(), run_once());
}

#[test]
fn the_order_of_handing_in_does_not_matter() {
    let build = |order: [&str; 2]| {
        let mut graph = graph_of("g", &["a", "b", "c"]);
        entry(&mut graph, "a", "a");
        entry(&mut graph, "b", "b");
        link(&mut graph, "a", "c", "c");
        link(&mut graph, "b", "c", "c");
        let mut runtime = PregelRuntime::<TallyState, KeyIs>::start(
            graph,
            tally(1),
            config(10),
            vec![input("a", data("in", Value::Null)), input("b", data("in", Value::Null))],
        )
        .unwrap();
        for name in order {
            let mut outbox = Outbox::new();
            outbox.push(Outbound {
                target: id("c"),
                message: data("from", text(name)),
                priority: Priority::Normal,
            });
            let amount = if name == "a" { 10 } else { 20 };
            runtime.submit(&id(name), ComputeResult::halt(add(amount)), outbox).unwrap();
        }
        runtime.barrier().unwrap();
        (runtime.state().clone(), runtime.mailbox(&id("c")).unwrap().clone())
    };
    let (state, mailbox) = build(["a", "b"]);
    assert_eq!(state, tally(31));
    assert_eq!(mailbox[0].source, Source::Vertex(id("a")));
    assert_eq!(mailbox[1].source, Source::Vertex(id("b")));
    assert_eq!(build(["b", "a"]), (state, mailbox));
}

#[test]
fn merging_two_updates_commutes() {
    let mut one = tally(5);
    one.merge(add(2));
    one.merge(add(40));
    let mut other = tally(5);
    other.merge(add(40));
    other.merge(add(2));
    assert_eq!(one, other);
    assert_eq!(one, tally(47));

    let mut unit = UnitState;
    unit.merge(UnitUpdate::empty());
    assert_eq!(unit, UnitState);
    assert!(UnitUpdate.is_empty());

    let mut full = tally(u64::MAX - 1);
    full.merge(add(5));
    full.merge(add(0));
    assert_eq!(full, tally(u64::MAX));
    assert!(TallyUpdate::empty().is_empty());
    assert!(!add(1).is_empty());
}

#[test]
fn merging_in_any_order_gives_the_same_state() {
    let orders: [[u64; 3]; 6] =
        [[1, 20, 300], [1, 300, 20], [20, 1, 300], [20, 300, 1], [300, 1, 20], [300, 20, 1]];
    for order in orders {
        let mut merger = StateMerger::new(tally(4000));
        merger.apply_all(order.iter().map(|n| add(*n)).collect());
        assert_eq!(merger.into_state(), tally(4321));
    }
    let mut near = StateMerger::new(tally(u64::MAX - 10));
    near.apply_all(vec![add(7), add(7)]);
    assert_eq!(near.into_state(), tally(u64::MAX));
}

#[test]
fn the_merger_folds_updates_in_order() {
    let mut merger = StateMerger::new(tally(1));
    merger.apply_all(vec![add(2), add(3), add(0)]);
    assert_eq!(merger.view(), &tally(6));
    assert_eq!(merger.snapshot(), tally(6));
    merger.apply(add(4));
    assert_eq!(merger.into_state(), tally(10));
}

#[test]
fn checkpoint_round_trip() {
    let joined = Rc::new(std::cell::RefCell::new(Vec::new()));
    let vertices = fan_out_vertices(joined);
    let mut runtime = PregelRuntime::<UnitState, KeyIs>::start(
        fan_out_graph(),
        UnitState,
        config(100),
        vec![input("S", data("go", Value::Null))],
    )
    .unwrap();
    step(&mut runtime, &vertices).unwrap();
    step(&mut runtime, &vertices).unwrap();

    let record = runtime.checkpoint();
    assert_eq!(record.graph_id, "fan");
    assert_eq!(record.superstep, 2);
    assert_eq!(record.active_set, vec![id("J")]);
    assert_eq!(record.pending_mailboxes.len(), 4);
    assert_eq!(record.pending_mailboxes[2].vertex, id("J"));
    assert_eq!(record.pending_mailboxes[2].messages.len(), 2);

    let back =
        PregelRuntime::<UnitState, KeyIs>::restore(fan_out_graph(), config(100), record).unwrap();
    assert_eq!(back.superstep(), runtime.superstep());
    assert_eq!(back.state(), runtime.state());
    assert_eq!(back.scheduled(), runtime.scheduled());
    for name in ["A", "B", "J", "S"] {
        assert_eq!(back.mailbox(&id(name)), runtime.mailbox(&id(name)));
        assert_eq!(back.is_active(&id(name)), runtime.is_active(&id(name)));
    }
    assert_eq!(back.outputs(), runtime.outputs());
    assert_eq!(back.phase(), runtime.phase());
    assert_eq!(back.last_checkpoint(), Some(2));
}

#[test]
fn restore_rejects_a_checkpoint_of_another_graph() {
    let runtime = PregelRuntime::<UnitState, KeyIs>::start(
        fan_out_graph(),
        UnitState,
        config(100),
        vec![input("S", data("go", Value::Null))],
    )
    .unwrap();
    let other = graph_of("fan", &["S", "J", "B"]);
    let restored = PregelRuntime::<UnitState, KeyIs>::restore(other, config(1), runtime.checkpoint());
    match restored {
        Err(error) => assert_eq!(
            error,
            PregelError::CheckpointError {
                message: "checkpoint does not suit the graph".to_string()
            }
        ),
        Ok(_) => panic!("expected a checkpoint error"),
    }
    let renamed = graph_of("other", &["S", "J", "B", "A"]);
    let restored =
        PregelRuntime::<UnitState, KeyIs>::restore(renamed, config(1), runtime.checkpoint());
    assert!(matches!(restored, Err(PregelError::CheckpointError { .. })));
}

#[test]
fn resume_without_checkpoint_fails() {
    let mut store = MemoryCheckpointer::<UnitState>::new();
    let vertices: Vec<Scripted<UnitState>> = vec![];
    let ended = resume(fan_out_graph(), config(10), &vertices, &mut store);
    assert!(matches!(
        ended,
        WorkflowResult::Failed {
            error: PregelError::CheckpointError { .. },
            last_checkpoint_step: None
        }
    ));
}

#[test]
fn one_more_message_removes_nobody_from_the_active_set() {
    let active_after = |extra: bool| {
        let mut graph = graph_of("g", &["a", "b", "c"]);
        entry(&mut graph, "a", "a");
        link(&mut graph, "a", "b", "b");
        link(&mut graph, "a", "c", "c");
        let mut runtime = PregelRuntime::<UnitState, KeyIs>::start(
            graph,
            UnitState,
            config(10),
            vec![input("a", data("in", Value::Null))],
        )
        .unwrap();
        let mut outbox = Outbox::new();
        outbox.push(Outbound {
            target: id("b"),
            message: data("x", Value::Null),
            priority: Priority::Normal,
        });
        if extra {
            outbox.push(Outbound {
                target: id("c"),
                message: data("y", Value::Null),
                priority: Priority::Normal,
            });
        }
        runtime.submit(&id("a"), ComputeResult::halt(UnitUpdate), outbox).unwrap();
        runtime.barrier().unwrap();
        runtime.scheduled()
    };
    assert_eq!(active_after(false), vec![id("b")]);
    assert_eq!(active_after(true), vec![id("b"), id("c")]);
}

#[test]
fn a_chain_without_cycles_converges_within_its_length() {
    let names = ["n0", "n1", "n2", "n3"];
    let mut graph = graph_of("chain", &names);
    entry(&mut graph, "n0", "n0");
    for pair in names.windows(2) {
        link(&mut graph, pair[0], "next", pair[1]);
    }
    sink(&mut graph, "n3", "next");
    let vertices: Vec<Scripted<UnitState>> = names
        .iter()
        .map(|name| {
            Scripted::new(name, |ctx| {
                ctx.send_message("next", ctx.messages[0].message.clone());
                halting()
            })
        })
        .collect();
    let mut store = MemoryCheckpointer::new();
    let ended = execute(
        graph,
        UnitState,
        config(4),
        vec![input("n0", data("token", Value::from(7)))],
        &vertices,
        &mut store,
    );
    match ended {
        WorkflowResult::Converged { supersteps, outputs, .. } => {
            assert_eq!(supersteps, 4);
            assert_eq!(outputs.len(), 1);
            assert_eq!(outputs[0].message, data("token", Value::from(7)));
            assert_eq!(outputs[0].source, Source::Vertex(id("n3")));
        }
        other => panic!("expected Converged, got {:?}", other),
    }
}

// ---- further behaviour ------------------------------------------------------

#[test]
fn mail_is_sorted_by_sender_then_priority_then_sending() {
    let mut graph = graph_of("g", &["b", "a", "t"]);
    entry(&mut graph, "a", "a");
    entry(&mut graph, "b", "b");
    link(&mut graph, "a", "t", "t");
    link(&mut graph, "b", "t", "t");
    let mut runtime = PregelRuntime::<UnitState, KeyIs>::start(
        graph,
        UnitState,
        config(10),
        vec![input("b", data("in", Value::Null)), input("a", data("in", Value::Null))],
    )
    .unwrap();
    let send = |name: &str, entries: &[(&str, Priority)]| {
        let mut outbox = Outbox::new();
        for (key, priority) in entries {
            outbox.push(Outbound {
                target: id("t"),
                message: data(&format!("{}-{}", name, key), Value::Null),
                priority: *priority,
            });
        }
        outbox
    };
    runtime
        .submit(
            &id("b"),
            ComputeResult::halt(UnitUpdate),
            send("b", &[("1", Priority::Normal), ("2", Priority::High)]),
        )
        .unwrap();
    runtime
        .submit(
            &id("a"),
            ComputeResult::halt(UnitUpdate),
            send(
                "a",
                &[
                    ("1", Priority::Low),
                    ("2", Priority::Normal),
                    ("3", Priority::High),
                    ("4", Priority::Normal),
                    ("5", Priority::High),
                ],
            ),
        )
        .unwrap();
    runtime.barrier().unwrap();
    let keys: Vec<String> =
        runtime.mailbox(&id("t")).unwrap().iter().map(|e| e.message.key().to_string()).collect();
    assert_eq!(keys, vec!["a-3", "a-5", "a-2", "a-4", "a-1", "b-2", "b-1"]);
}

#[test]
fn a_conditional_edge_drops_what_its_guard_rejects() {
    let mut graph = graph_of("g", &["a", "b"]);
    entry(&mut graph, "a", "a");
    graph
        .add_edge(Edge::conditional(
            Source::Vertex(id("a")),
            "maybe",
            Target::Vertex(id("b")),
            KeyIs { key: "wanted".to_string() },
        ))
        .unwrap();
    let mut runtime = PregelRuntime::<UnitState, KeyIs>::start(
        graph,
        UnitState,
        config(10),
        vec![input("a", data("in", Value::Null))],
    )
    .unwrap();
    let mut outbox = Outbox::new();
    for key in ["unwanted", "wanted", "other"] {
        outbox.push(Outbound {
            target: id("maybe"),
            message: data(key, Value::Null),
            priority: Priority::Normal,
        });
    }
    runtime.submit(&id("a"), ComputeResult::halt(UnitUpdate), outbox).unwrap();
    runtime.barrier().unwrap();
    let mailbox = runtime.mailbox(&id("b")).unwrap();
    assert_eq!(mailbox.len(), 1);
    assert_eq!(mailbox[0].message.key(), "wanted");
}

#[test]
fn a_message_goes_along_every_edge_that_carries_it() {
    let mut graph = graph_of("g", &["a", "b", "c"]);
    entry(&mut graph, "a", "a");
    link(&mut graph, "a", "all", "b");
    link(&mut graph, "a", "all", "c");
    sink(&mut graph, "a", "all");
    let mut runtime = PregelRuntime::<UnitState, KeyIs>::start(
        graph,
        UnitState,
        config(10),
        vec![input("a", data("in", Value::Null))],
    )
    .unwrap();
    let mut outbox = Outbox::new();
    outbox.push(Outbound {
        target: id("all"),
        message: data("m", Value::from(1)),
        priority: Priority::Normal,
    });
    runtime.submit(&id("a"), ComputeResult::halt(UnitUpdate), outbox).unwrap();
    runtime.barrier().unwrap();
    assert_eq!(runtime.mailbox(&id("b")).unwrap().len(), 1);
    assert_eq!(runtime.mailbox(&id("c")).unwrap().len(), 1);
    assert_eq!(runtime.outputs().len(), 1);
    assert_eq!(runtime.scheduled(), vec![id("b"), id("c")]);
}

#[test]
fn a_vertex_that_lingers_runs_again_on_an_empty_mailbox() {
    let mut graph = graph_of("g", &["a"]);
    entry(&mut graph, "a", "a");
    let sizes = Rc::new(std::cell::RefCell::new(Vec::new()));
    let seen = sizes.clone();
    let vertices = vec![Scripted::<UnitState>::new("a", move |ctx| {
        seen.borrow_mut().push(ctx.messages.len());
        if ctx.superstep < 2 {
            Ok(ComputeResult::active(UnitUpdate))
        } else {
            halting()
        }
    })];
    let mut store = MemoryCheckpointer::new();
    let ended = execute(
        graph,
        UnitState,
        config(10),
        vec![input("a", data("in", Value::Null))],
        &vertices,
        &mut store,
    );
    assert!(matches!(ended, WorkflowResult::Converged { supersteps: 3, .. }));
    assert_eq!(*sizes.borrow(), vec![1, 0, 0]);
}

#[test]
fn an_active_vertex_that_sends_does_not_linger() {
    let mut graph = graph_of("g", &["a", "b"]);
    entry(&mut graph, "a", "a");
    link(&mut graph, "a", "b", "b");
    let mut runtime = PregelRuntime::<UnitState, KeyIs>::start(
        graph,
        UnitState,
        config(10),
        vec![input("a", data("in", Value::Null))],
    )
    .unwrap();
    let mut outbox = Outbox::new();
    outbox.push(Outbound {
        target: id("b"),
        message: data("m", Value::Null),
        priority: Priority::Normal,
    });
    runtime.submit(&id("a"), ComputeResult::active(UnitUpdate), outbox).unwrap();
    runtime.barrier().unwrap();
    assert_eq!(runtime.scheduled(), vec![id("b")]);
}

#[test]
fn cancelling_stops_the_run_at_the_barrier() {
    let mut graph = graph_of("g", &["a"]);
    entry(&mut graph, "a", "a");
    link(&mut graph, "a", "a", "a");
    let vertices = vec![Scripted::<UnitState>::new("a", |ctx| {
        ctx.send_message("a", data("again", Value::Null));
        halting()
    })];
    let mut runtime = PregelRuntime::<UnitState, KeyIs>::start(
        graph,
        UnitState,
        config(10),
        vec![input("a", data("in", Value::Null))],
    )
    .unwrap();
    step(&mut runtime, &vertices).unwrap();
    runtime.mark_checkpointed();
    step(&mut runtime, &vertices).unwrap();
    runtime.request_cancel();
    assert_eq!(runtime.phase(), Phase::Cancelled);
    let mut store = MemoryCheckpointer::new();
    let ended = run(runtime, &vertices, &mut store);
    assert!(matches!(ended, WorkflowResult::Cancelled { last_checkpoint_step: Some(1) }));
}

#[test]
fn submit_takes_only_what_is_awaited() {
    let mut graph = graph_of("g", &["a", "b"]);
    entry(&mut graph, "a", "a");
    let mut runtime = PregelRuntime::<UnitState, KeyIs>::start(
        graph,
        UnitState,
        config(10),
        vec![input("a", data("in", Value::Null))],
    )
    .unwrap();
    let refused = |name: &str| PregelError::vertex_error(id(name), "vertex is not awaited");
    assert_eq!(
        runtime.submit(&id("zz"), ComputeResult::halt(UnitUpdate), Outbox::new()),
        Err(refused("zz"))
    );
    assert_eq!(
        runtime.submit(&id("b"), ComputeResult::halt(UnitUpdate), Outbox::new()),
        Err(refused("b"))
    );
    assert_eq!(
        runtime.barrier(),
        Err(PregelError::vertex_error(id("a"), "vertex has not reported"))
    );
    assert_eq!(runtime.submit(&id("a"), ComputeResult::halt(UnitUpdate), Outbox::new()), Ok(()));
    assert_eq!(
        runtime.submit(&id("a"), ComputeResult::halt(UnitUpdate), Outbox::new()),
        Err(refused("a"))
    );
    assert_eq!(runtime.barrier(), Ok(()));
    assert_eq!(runtime.superstep(), 1);
}

#[test]
fn activate_schedules_a_vertex_without_mail() {
    let graph = graph_of("g", &["a", "b"]);
    let mut runtime =
        PregelRuntime::<UnitState, KeyIs>::start(graph, UnitState, config(10), vec![]).unwrap();
    assert_eq!(runtime.phase(), Phase::Converged);
    assert!(!runtime.activate(&id("zz")));
    assert!(runtime.activate(&id("b")));
    assert_eq!(runtime.scheduled(), vec![id("b")]);
    assert_eq!(runtime.phase(), Phase::Ready);
    let ctx = runtime.context(&id("b")).unwrap();
    assert!(!ctx.has_messages());
    assert!(ctx.is_first_superstep());
    assert!(runtime.context(&id("zz")).is_none());
}

#[test]
fn the_barrier_refuses_at_the_cap() {
    let mut graph = graph_of("g", &["a"]);
    entry(&mut graph, "a", "a");
    let mut runtime = PregelRuntime::<UnitState, KeyIs>::start(
        graph,
        UnitState,
        config(0),
        vec![input("a", data("in", Value::Null))],
    )
    .unwrap();
    assert_eq!(runtime.phase(), Phase::Exhausted);
    runtime.submit(&id("a"), ComputeResult::halt(UnitUpdate), Outbox::new()).unwrap();
    assert_eq!(runtime.barrier(), Err(PregelError::ConvergenceError { supersteps: 0 }));
}

#[test]
fn checkpoints_follow_the_cadence() {
    let mut store = MemoryCheckpointer::new();
    let ended = execute(
        countdown_graph(),
        tally(0),
        PregelConfig { checkpoint_cadence: CheckpointCadence::EveryN(3), ..Default::default() },
        vec![input("A", data("n", Value::from(1)))],
        &countdown_vertices(),
        &mut store,
    );
    assert!(matches!(ended, WorkflowResult::Converged { supersteps: 8, .. }));
    assert_eq!(store.list("countdown"), vec![3, 6]);
    assert_eq!(store.latest("countdown").unwrap().state_snapshot, tally(21));

    let mut store = MemoryCheckpointer::new();
    execute(
        countdown_graph(),
        tally(0),
        PregelConfig { checkpoint_cadence: CheckpointCadence::OnHalt, ..Default::default() },
        vec![input("A", data("n", Value::from(1)))],
        &countdown_vertices(),
        &mut store,
    );
    assert_eq!(store.list("countdown"), vec![8]);
}

#[test]
fn resume_from_a_checkpoint_that_does_not_suit_the_graph_fails() {
    let runtime = PregelRuntime::<UnitState, KeyIs>::start(
        fan_out_graph(),
        UnitState,
        config(100),
        vec![input("S", data("go", Value::Null))],
    )
    .unwrap();
    let mut record = runtime.checkpoint();
    record.superstep = 4;
    let mut store = MemoryCheckpointer::new();
    store.put(record);
    let smaller = graph_of("fan", &["S", "J"]);
    let vertices: Vec<Scripted<UnitState>> = vec![];
    let ended = resume(smaller, config(10), &vertices, &mut store);
    match ended {
        WorkflowResult::Failed { error, last_checkpoint_step } => {
            assert_eq!(
                error,
                PregelError::CheckpointError {
                    message: "checkpoint does not suit the graph".to_string()
                }
            );
            assert_eq!(last_checkpoint_step, Some(4));
        }
        other => panic!("expected Failed, got {:?}", other),
    }
    assert_eq!(store.list("fan"), vec![4]);
}

#[test]
fn resume_of_a_run_that_has_ended_ends_at_once() {
    let mut store = MemoryCheckpointer::new();
    execute(
        countdown_graph(),
        tally(0),
        PregelConfig { checkpoint_cadence: CheckpointCadence::OnHalt, ..Default::default() },
        vec![input("A", data("n", Value::from(1)))],
        &countdown_vertices(),
        &mut store,
    );
    let vertices = vec![Scripted::<TallyState>::new("A", |_| panic!("must not run"))];
    let ended = resume(countdown_graph(), config(100), &vertices, &mut store);
    match ended {
        WorkflowResult::Converged { state, supersteps, .. } => {
            assert_eq!(state, tally(36));
            assert_eq!(supersteps, 8);
        }
        other => panic!("expected Converged, got {:?}", other),
    }
    assert_eq!(store.list("countdown"), vec![8]);
}

#[test]
fn a_run_without_vertices_fails_on_the_first_scheduled() {
    let mut graph = graph_of("g", &["b", "a"]);
    entry(&mut graph, "in", "a");
    entry(&mut graph, "in", "b");
    let runtime = PregelRuntime::<UnitState, KeyIs>::start(
        graph,
        UnitState,
        config(10),
        vec![input("in", data("go", Value::Null))],
    )
    .unwrap();
    let vertices: Vec<Scripted<UnitState>> = vec![];
    let mut store = MemoryCheckpointer::new();
    let ended = run(runtime, &vertices, &mut store);
    match ended {
        WorkflowResult::Failed { error, last_checkpoint_step } => {
            assert_eq!(error, PregelError::vertex_error(id("a"), "no vertex of this name"));
            assert_eq!(last_checkpoint_step, None);
        }
        other => panic!("expected Failed, got {:?}", other),
    }
    assert!(store.list("g").is_empty());
}

#[test]
fn a_vertex_that_has_reported_is_not_run_again() {
    let mut graph = graph_of("g", &["a", "b", "c"]);
    entry(&mut graph, "in", "a");
    entry(&mut graph, "in", "b");
    link(&mut graph, "a", "c", "c");
    link(&mut graph, "b", "c", "c");
    let mut runtime = PregelRuntime::<TallyState, KeyIs>::start(
        graph,
        tally(0),
        config(10),
        vec![input("in", data("go", Value::Null))],
    )
    .unwrap();
    let mut outbox = Outbox::new();
    outbox.push(Outbound {
        target: id("c"),
        message: data("by-hand", Value::Null),
        priority: Priority::Normal,
    });
    runtime.submit(&id("a"), ComputeResult::halt(add(100)), outbox).unwrap();

    let calls = Rc::new(std::cell::RefCell::new(Vec::<String>::new()));
    let vertex = |name: &'static str, calls: Rc<std::cell::RefCell<Vec<String>>>| {
        Scripted::<TallyState>::new(name, move |ctx| {
            calls.borrow_mut().push(format!("{}@{}", name, ctx.superstep));
            if name != "c" {
                ctx.send_message("c", data(name, Value::Null));
            }
            Ok(ComputeResult::halt(add(1)))
        })
    };
    let vertices =
        vec![vertex("a", calls.clone()), vertex("b", calls.clone()), vertex("c", calls.clone())];
    let mut store = MemoryCheckpointer::new();
    let ended = run(runtime, &vertices, &mut store);
    match ended {
        WorkflowResult::Converged { state, supersteps, .. } => {
            assert_eq!(state, tally(102));
            assert_eq!(supersteps, 2);
        }
        other => panic!("expected Converged, got {:?}", other),
    }
    assert_eq!(*calls.borrow(), vec!["b@0", "c@1"]);
}

#[test]
fn a_missing_vertex_is_found_before_any_vertex_runs() {
    let mut graph = graph_of("g", &["a", "b"]);
    entry(&mut graph, "in", "a");
    entry(&mut graph, "in", "b");
    let ran = Rc::new(Cell::new(false));
    let seen = ran.clone();
    let vertices = vec![Scripted::<UnitState>::new("a", move |_| {
        seen.set(true);
        halting()
    })];
    let mut store = MemoryCheckpointer::new();
    let ended = execute(
        graph,
        UnitState,
        config(10),
        vec![input("in", data("go", Value::Null))],
        &vertices,
        &mut store,
    );
    match ended {
        WorkflowResult::Failed { error, last_checkpoint_step } => {
            assert_eq!(error, PregelError::vertex_error(id("b"), "no vertex of this name"));
            assert_eq!(last_checkpoint_step, None);
        }
        other => panic!("expected Failed, got {:?}", other),
    }
    assert!(!ran.get());
}

#[test]
fn the_first_vertex_that_fails_for_good_ends_the_run() {
    let mut graph = graph_of("g", &["a", "b", "c"]);
    for name in ["a", "b", "c"] {
        entry(&mut graph, "in", name);
    }
    let order = Rc::new(std::cell::RefCell::new(Vec::<String>::new()));
    let vertex = |name: &'static str, fails: bool, order: Rc<std::cell::RefCell<Vec<String>>>| {
        Scripted::<UnitState>::new(name, move |ctx| {
            order.borrow_mut().push(name.to_string());
            if fails {
                Err(PregelError::vertex_error(ctx.vertex_id.clone(), "broken"))
            } else {
                halting()
            }
        })
    };
    let vertices = vec![
        vertex("c", true, order.clone()),
        vertex("b", true, order.clone()),
        vertex("a", false, order.clone()),
    ];
    let mut store = MemoryCheckpointer::new();
    let ended = execute(
        graph,
        UnitState,
        config(10),
        vec![input("in", data("go", Value::Null))],
        &vertices,
        &mut store,
    );
    match ended {
        WorkflowResult::Failed { error, .. } => {
            assert_eq!(error, PregelError::vertex_error(id("b"), "broken"))
        }
        other => panic!("expected Failed, got {:?}", other),
    }
    assert_eq!(*order.borrow(), vec!["a", "b"]);
}
