use rig_deepagents::pregel::checkpoint::{
    order_steps, steps_to_prune, Checkpoint, CheckpointHeader, MemoryCheckpointer,
    PendingMailbox, CHECKPOINT_VERSION,
};
use rig_deepagents::pregel::config::{
    Backoff, CheckpointBackend, CheckpointCadence, Parallelism, PregelConfig, RetryDecision,
    RetryOn, RetryPolicy,
};
use rig_deepagents::pregel::error::PregelError;
use rig_deepagents::pregel::graph::{Edge, EdgePredicate, Graph, KeyIs, Target};
use rig_deepagents::pregel::message::{
    clone_envelopes, Envelope, Priority, Source, WorkflowMessage,
};
use rig_deepagents::pregel::naming::{checkpoint_file_name, superstep_of_file_name};
use rig_deepagents::pregel::state::{TallyState, UnitState};
use rig_deepagents::pregel::vertex::{
    ComputeContext, ComputeResult, Outbound, Outbox, VertexId, VertexState,
};
use rig_deepagents::text::{chars_of, str_before, str_contains, str_eq};
use serde_json::Value;

fn id(name: &str) -> VertexId {
    VertexId::new(name)
}

fn record(graph: &str, superstep: u64, total: u64) -> Checkpoint<TallyState> {
    Checkpoint {
        graph_id: graph.to_string(),
        superstep,
        state_snapshot: TallyState { total },
        pending_mailboxes: vec![],
        active_set: vec![],
        outputs: vec![],
        done: false,
    }
}

// ---- identifiers and text -----------------------------------------------------

#[test]
fn vertex_ids_compare_as_text() {
    assert_eq!(id("agent"), VertexId::from_string("agent".to_string()));
    assert_eq!(id("agent"), VertexId::from("agent"));
    let converted: VertexId = "agent".into();
    assert_eq!(converted.as_str(), "agent");
    assert_ne!(id("agent"), id("Agent"));
    assert_eq!(id("agent").as_str(), "agent");
    assert_eq!(id("agent").clone(), id("agent"));
    assert!(id("a").before(&id("b")));
    assert!(!id("b").before(&id("a")));
    assert!(!id("a").before(&id("a")));
    assert!(id("a").before(&id("ab")));
    assert!(id("").before(&id("a")));
    assert!(id("B").before(&id("a")));
    assert!(id("v10").before(&id("v9")));
}

#[test]
fn text_order_is_that_of_str() {
    let samples = ["", "a", "ab", "b", "B", "é", "z", "zz", "日本", "v10", "v9", "\u{10000}"];
    for x in samples {
        for y in samples {
            assert_eq!(str_before(x, y), x < y, "{:?} before {:?}", x, y);
            assert_eq!(str_eq(x, y), x == y);
        }
    }
}

#[test]
fn text_search_is_that_of_str() {
    let samples = ["", "a", "ab", "ba", "aab", "abab", "é", "日本語", "本", "x日本", "FINAL"];
    for hay in samples {
        for needle in samples {
            assert_eq!(str_contains(hay, needle), hay.contains(needle), "{:?} in {:?}", needle, hay);
        }
        assert_eq!(chars_of(hay), hay.chars().collect::<Vec<char>>());
    }
    assert!(str_contains("the answer is FINAL", "FINAL"));
    assert!(str_contains("the answer is FINAL", "the"));
    assert!(!str_contains("the answer is final", "FINAL"));
    assert!(!str_contains("short", "much longer"));
}

#[test]
fn vertex_states() {
    assert!(VertexState::Active.is_active());
    assert!(!VertexState::Active.is_halted());
    assert!(VertexState::Halted.is_halted());
    assert!(!VertexState::Halted.is_active());
    assert_eq!(ComputeResult::active(7u8).state, VertexState::Active);
    assert_eq!(ComputeResult::halt(7u8).state, VertexState::Halted);
    assert_eq!(ComputeResult::halt(7u8).update, 7);
}

// ---- messages -------------------------------------------------------------------

#[test]
fn messages_and_envelopes() {
    let message = WorkflowMessage::data("n", Value::from(3));
    assert_eq!(message.key(), "n");
    assert_eq!(message.value(), &Value::from(3));
    assert_eq!(message.clone(), message);

    let plain = Envelope::external(message.clone());
    assert_eq!(plain.priority, Priority::Normal);
    assert_eq!(plain.source, Source::External);
    let urgent = Envelope::new(message.clone(), Source::Vertex(id("a"))).with_priority(Priority::High);
    assert_eq!(urgent.priority, Priority::High);
    assert_eq!(urgent.source, Source::Vertex(id("a")));
    assert_eq!(urgent.message, message);
    assert_eq!(clone_envelopes(&vec![plain.clone(), urgent.clone()]), vec![plain, urgent]);

    assert_eq!(Priority::default(), Priority::Normal);
    assert_eq!(
        [Priority::High.rank(), Priority::Normal.rank(), Priority::Low.rank()],
        [0, 1, 2]
    );
    assert!(Source::External.is_same(&Source::External));
    assert!(Source::Vertex(id("a")).is_same(&Source::Vertex(id("a"))));
    assert!(!Source::Vertex(id("a")).is_same(&Source::Vertex(id("b"))));
    assert!(!Source::Vertex(id("a")).is_same(&Source::External));
}

#[test]
fn outbox_keeps_the_order_of_sending() {
    let mut ctx = ComputeContext::<UnitState>::new(id("v"), &[], 4, &UnitState);
    assert!(!ctx.has_messages());
    assert!(!ctx.is_first_superstep());
    ctx.send_message("x", WorkflowMessage::data("1", Value::Null));
    ctx.send_with_priority("y", WorkflowMessage::data("2", Value::Null), Priority::High);
    ctx.send_message("x", WorkflowMessage::data("3", Value::Null));
    let outbox = ctx.into_outbox();
    assert_eq!(outbox.len(), 3);
    assert!(!outbox.is_empty());
    assert!(outbox.contains_key(&id("x")));
    assert!(outbox.contains_key(&id("y")));
    assert!(!outbox.contains_key(&id("z")));
    assert_eq!(
        outbox.get(&id("x")).unwrap(),
        vec![WorkflowMessage::data("1", Value::Null), WorkflowMessage::data("3", Value::Null)]
    );
    assert_eq!(outbox.get(&id("z")), None);
    assert_eq!(outbox.entries()[1].priority, Priority::High);
    assert_eq!(outbox.entries()[1].clone(), outbox.entries()[1]);
    assert!(Outbox::new().is_empty());
}

// ---- errors ---------------------------------------------------------------------

#[test]
fn errors_know_whether_they_can_be_retried() {
    let fatal = PregelError::vertex_error(id("a"), "broken");
    let passing = PregelError::transient(id("a"), "busy");
    let late = PregelError::timeout(id("a"));
    assert_eq!(
        fatal,
        PregelError::VertexError {
            vertex_id: id("a"),
            message: "broken".to_string(),
            retryable: false
        }
    );
    assert_eq!(
        late,
        PregelError::VertexError {
            vertex_id: id("a"),
            message: "compute timed out".to_string(),
            retryable: true
        }
    );
    assert!(fatal.is_vertex_error() && !fatal.is_retryable());
    assert!(passing.is_vertex_error() && passing.is_retryable());
    assert!(late.is_retryable());
    let others = [
        PregelError::RoutingError { source: Source::External, label: "x".to_string() },
        PregelError::StateMergeError { message: "schema".to_string() },
        PregelError::ConvergenceError { supersteps: 3 },
        PregelError::CheckpointError { message: "disk".to_string() },
        PregelError::CheckpointIncompatible { found_version: 9 },
    ];
    for error in others {
        assert!(!error.is_vertex_error());
        assert!(!error.is_retryable());
        assert_eq!(error.clone(), error);
    }
    assert_eq!(fatal.clone(), fatal);
}

// ---- settings -------------------------------------------------------------------

#[test]
fn defaults() {
    let config = PregelConfig::default();
    assert_eq!(config.max_supersteps, 100);
    assert_eq!(config.per_vertex_timeout_ms, None);
    assert_eq!(config.checkpoint_cadence, CheckpointCadence::Never);
    assert_eq!(config.checkpoint_backend, CheckpointBackend::Memory);
    assert_eq!(config.parallelism, Parallelism::Unbounded);
    assert!(config.deterministic_ordering);
    assert_eq!(
        config.retry_policy,
        RetryPolicy { max_attempts: 1, backoff: Backoff::Immediate, retry_on: RetryOn::TransientOnly }
    );
    assert_eq!(RetryPolicy::default(), config.retry_policy);
}

#[test]
fn backoff_delays() {
    let policy = |backoff| RetryPolicy { max_attempts: 9, backoff, retry_on: RetryOn::All };
    assert_eq!(policy(Backoff::Immediate).delay(3), 0);
    assert_eq!(policy(Backoff::Fixed(250)).delay(1), 250);
    assert_eq!(policy(Backoff::Fixed(250)).delay(7), 250);
    let doubling = policy(Backoff::Exponential(100, 2));
    assert_eq!(doubling.delay(0), 100);
    assert_eq!(doubling.delay(1), 100);
    assert_eq!(doubling.delay(2), 200);
    assert_eq!(doubling.delay(3), 400);
    assert_eq!(doubling.delay(5), 1600);
    assert_eq!(doubling.delay(70), u64::MAX);
    assert_eq!(policy(Backoff::Exponential(3, 10)).delay(4), 3000);
    assert_eq!(policy(Backoff::Exponential(7, 1)).delay(1000), 7);
    assert_eq!(policy(Backoff::Exponential(7, 0)).delay(1), 7);
    assert_eq!(policy(Backoff::Exponential(7, 0)).delay(2), 0);
    assert_eq!(policy(Backoff::Exponential(0, 5)).delay(40), 0);
    assert_eq!(
        policy(Backoff::Exponential(u64::MAX, 2)).delay(2),
        u64::MAX
    );
    assert_eq!(
        policy(Backoff::Exponential(1 << 62, 2)).delay(2),
        1 << 63
    );
    assert_eq!(
        policy(Backoff::Exponential(1 << 62, 2)).delay(3),
        u64::MAX
    );
}

#[test]
fn retry_decisions() {
    let fatal = PregelError::vertex_error(id("a"), "broken");
    let passing = PregelError::transient(id("a"), "busy");
    let routing = PregelError::RoutingError { source: Source::External, label: "x".to_string() };
    let careful = RetryPolicy {
        max_attempts: 3,
        backoff: Backoff::Fixed(10),
        retry_on: RetryOn::TransientOnly,
    };
    assert_eq!(careful.decide(&passing, 1), RetryDecision::Retry { delay_ms: 10 });
    assert_eq!(careful.decide(&passing, 2), RetryDecision::Retry { delay_ms: 10 });
    assert_eq!(careful.decide(&passing, 3), RetryDecision::GiveUp);
    assert_eq!(careful.decide(&fatal, 1), RetryDecision::GiveUp);
    assert_eq!(careful.decide(&routing, 1), RetryDecision::GiveUp);
    let eager = RetryPolicy { retry_on: RetryOn::All, ..careful };
    assert_eq!(eager.decide(&fatal, 1), RetryDecision::Retry { delay_ms: 10 });
    assert_eq!(eager.decide(&routing, 1), RetryDecision::GiveUp);
    assert_eq!(RetryPolicy::default().decide(&passing, 1), RetryDecision::GiveUp);
    let growing = RetryPolicy {
        max_attempts: 5,
        backoff: Backoff::Exponential(5, 3),
        retry_on: RetryOn::All,
    };
    assert_eq!(growing.decide(&passing, 1), RetryDecision::Retry { delay_ms: 5 });
    assert_eq!(growing.decide(&passing, 4), RetryDecision::Retry { delay_ms: 135 });
}

#[test]
fn checkpoint_cadences() {
    assert!(!CheckpointCadence::Never.is_due(4, true));
    assert!(CheckpointCadence::EveryStep.is_due(1, false));
    assert!(CheckpointCadence::EveryN(3).is_due(3, false));
    assert!(CheckpointCadence::EveryN(3).is_due(6, false));
    assert!(!CheckpointCadence::EveryN(3).is_due(4, true));
    assert!(!CheckpointCadence::EveryN(0).is_due(0, true));
    assert!(CheckpointCadence::OnHalt.is_due(5, true));
    assert!(!CheckpointCadence::OnHalt.is_due(5, false));
}

// ---- graphs ---------------------------------------------------------------------

#[test]
fn graph_keeps_its_vertices_in_order() {
    let mut graph: Graph<KeyIs> = Graph::new("g");
    assert_eq!(graph.id(), "g");
    for name in ["m", "b", "z", "a", "n"] {
        assert!(graph.add_vertex(id(name)));
    }
    assert!(!graph.add_vertex(id("b")));
    assert_eq!(graph.len(), 5);
    assert_eq!(graph.vertices(), &vec![id("a"), id("b"), id("m"), id("n"), id("z")]);
    assert_eq!(graph.vertex(2), &id("m"));
    assert_eq!(graph.index_of(&id("n")), Some(3));
    assert_eq!(graph.index_of(&id("x")), None);
    assert!(graph.contains(&id("z")));
    assert!(!graph.contains(&id("")));
}

#[test]
fn graph_takes_only_edges_between_its_vertices() {
    let mut graph: Graph<KeyIs> = Graph::new("g");
    graph.add_vertex(id("a"));
    assert!(graph.add_edge(Edge::direct(Source::External, "in", Target::Vertex(id("a")))).is_ok());
    assert!(graph.add_edge(Edge::direct(Source::Vertex(id("a")), "out", Target::Output)).is_ok());
    assert_eq!(
        graph.add_edge(Edge::direct(Source::Vertex(id("a")), "on", Target::Vertex(id("b")))),
        Err(PregelError::RoutingError {
            source: Source::Vertex(id("a")),
            label: "on".to_string()
        })
    );
    assert!(graph
        .add_edge(Edge::direct(Source::Vertex(id("b")), "on", Target::Vertex(id("a"))))
        .is_err());
    assert_eq!(graph.edges().len(), 2);
    assert_eq!(graph.edges()[0].label, "in");
    assert!(graph.edges()[0].guard.is_none());
    assert!(Target::Output.is_same(&Target::Output));
    assert!(Target::Vertex(id("a")).is_same(&Target::Vertex(id("a"))));
    assert!(!Target::Vertex(id("a")).is_same(&Target::Output));
    assert_eq!(Target::Vertex(id("a")).clone(), Target::Vertex(id("a")));
}

#[test]
fn key_guard() {
    let guard = KeyIs { key: "wanted".to_string() };
    let wanted = Envelope::external(WorkflowMessage::data("wanted", Value::Null));
    let other = Envelope::external(WorkflowMessage::data("Wanted", Value::Null));
    assert!(guard.test(&wanted, &UnitState));
    assert!(!guard.test(&other, &UnitState));
    assert!(guard.test(&wanted, &TallyState { total: 3 }));
}

// ---- checkpoints ----------------------------------------------------------------

#[test]
fn store_keeps_one_checkpoint_for_each_superstep() {
    let mut store = MemoryCheckpointer::new();
    assert!(store.latest("g").is_none());
    assert!(store.list("g").is_empty());

    store.put(record("g", 4, 40));
    store.put(record("g", 2, 20));
    store.put(record("h", 3, 30));
    store.put(record("g", 6, 60));
    assert_eq!(store.list("g"), vec![2, 4, 6]);
    assert_eq!(store.list("h"), vec![3]);
    assert_eq!(store.latest("g").unwrap().state_snapshot.total, 60);
    assert_eq!(store.latest("h").unwrap().superstep, 3);

    // The last write wins, and writing the same again changes nothing.
    store.put(record("g", 4, 41));
    assert_eq!(store.list("g"), vec![2, 4, 6]);
    store.put(record("g", 6, 61));
    store.put(record("g", 6, 61));
    assert_eq!(store.list("g"), vec![2, 4, 6]);
    assert_eq!(store.latest("g").unwrap().state_snapshot.total, 61);
    assert_eq!(store.list("h"), vec![3]);
}

#[test]
fn prune_keeps_the_newest() {
    let mut store = MemoryCheckpointer::new();
    for step in [5, 1, 3, 2, 4] {
        store.put(record("g", step, step * 10));
    }
    store.put(record("h", 9, 90));
    store.prune("g", 7);
    assert_eq!(store.list("g"), vec![1, 2, 3, 4, 5]);
    store.prune("g", 2);
    assert_eq!(store.list("g"), vec![4, 5]);
    assert_eq!(store.latest("g").unwrap().state_snapshot.total, 50);
    assert_eq!(store.list("h"), vec![9]);
    store.prune("unknown", 0);
    store.prune("g", 0);
    assert!(store.list("g").is_empty());
    assert!(store.latest("g").is_none());
    assert_eq!(store.list("h"), vec![9]);
}

#[test]
fn steps_are_ordered_and_pruned() {
    assert_eq!(order_steps(&vec![5, 1, 9, 1, 3, 9, 0]), vec![0, 1, 3, 5, 9]);
    assert_eq!(order_steps(&vec![]), Vec::<u64>::new());
    assert_eq!(order_steps(&vec![u64::MAX, 0]), vec![0, u64::MAX]);
    let steps = vec![1, 2, 3, 4, 5];
    assert_eq!(steps_to_prune(&steps, 2), vec![1, 2, 3]);
    assert_eq!(steps_to_prune(&steps, 5), Vec::<u64>::new());
    assert_eq!(steps_to_prune(&steps, 9), Vec::<u64>::new());
    assert_eq!(steps_to_prune(&steps, 0), steps);
}

#[test]
fn duplicate_copies_a_checkpoint() {
    let mut original = record("g", 3, 30);
    original.pending_mailboxes.push(PendingMailbox {
        vertex: id("a"),
        messages: vec![Envelope::external(WorkflowMessage::data("k", Value::from(1)))],
    });
    original.active_set.push(id("a"));
    original.outputs.push(Envelope::external(WorkflowMessage::data("o", Value::Null)));
    original.done = true;
    let copy = original.duplicate();
    assert_eq!(copy.graph_id, original.graph_id);
    assert_eq!(copy.superstep, 3);
    assert_eq!(copy.state_snapshot, original.state_snapshot);
    assert_eq!(copy.pending_mailboxes[0].vertex, id("a"));
    assert_eq!(copy.pending_mailboxes[0].messages, original.pending_mailboxes[0].messages);
    assert_eq!(copy.active_set, original.active_set);
    assert_eq!(copy.outputs, original.outputs);
    assert!(copy.done);
}

#[test]
fn header_check() {
    let hash = vec![1u8, 2, 3];
    let good = CheckpointHeader { version: CHECKPOINT_VERSION, schema_hash: hash.clone() };
    assert_eq!(good.check(&hash), Ok(()));
    let newer = CheckpointHeader { version: CHECKPOINT_VERSION + 1, schema_hash: hash.clone() };
    assert_eq!(
        newer.check(&hash),
        Err(PregelError::CheckpointIncompatible { found_version: CHECKPOINT_VERSION + 1 })
    );
    let incompatible = Err(PregelError::CheckpointIncompatible { found_version: CHECKPOINT_VERSION });
    assert_eq!(good.check(&vec![1, 2, 4]), incompatible);
    assert_eq!(good.check(&vec![1, 2]), incompatible);
    assert_eq!(good.check(&vec![1, 2, 3, 4]), incompatible);
}

#[test]
fn file_names() {
    assert_eq!(checkpoint_file_name("research", 5), "research-0000000005.ckpt");
    assert_eq!(checkpoint_file_name("research", 0), "research-0000000000.ckpt");
    assert_eq!(checkpoint_file_name("g", 1234567890), "g-1234567890.ckpt");
    assert_eq!(checkpoint_file_name("g", 9999999999), "g-9999999999.ckpt");
    assert_eq!(checkpoint_file_name("g", 10000000000), "g-10000000000.ckpt");
    assert_eq!(checkpoint_file_name("", u64::MAX), "-18446744073709551615.ckpt");
    assert_eq!(checkpoint_file_name("a-b", 42), format!("a-b-{:010}.ckpt", 42));
    for step in [0u64, 7, 10, 99, 100, 4294967296, u64::MAX - 1] {
        assert_eq!(checkpoint_file_name("g", step), format!("g-{:010}.ckpt", step));
    }
}

#[test]
fn file_names_read_back() {
    for step in [0u64, 5, 10, 999, 9999999999, 10000000000, u64::MAX] {
        for graph in ["g", "a-b", "", "日本"] {
            let name = checkpoint_file_name(graph, step);
            assert_eq!(superstep_of_file_name(&name, graph), Some(step));
        }
    }
    assert_eq!(superstep_of_file_name("g-0000000005.ckpt", "h"), None);
    assert_eq!(superstep_of_file_name("g-0000000005.ckpt", "g-"), None);
    assert_eq!(superstep_of_file_name("g-0000000005.tmp", "g"), None);
    assert_eq!(superstep_of_file_name("g-000000005.ckpt", "g"), None);
    assert_eq!(superstep_of_file_name("g-00000000005.ckpt", "g"), None);
    assert_eq!(superstep_of_file_name("g-00000x0005.ckpt", "g"), None);
    assert_eq!(superstep_of_file_name("g_0000000005.ckpt", "g"), None);
    assert_eq!(superstep_of_file_name("g-18446744073709551616.ckpt", "g"), None);
    assert_eq!(superstep_of_file_name("g-99999999999999999999999.ckpt", "g"), None);
    assert_eq!(superstep_of_file_name("", "g"), None);
    assert_eq!(superstep_of_file_name(".ckpt", ""), None);
}

#[test]
fn outbound_entries() {
    let entry = Outbound {
        target: id("x"),
        message: WorkflowMessage::data("k", Value::Bool(true)),
        priority: Priority::Low,
    };
    assert_eq!(entry.clone(), entry);
}
