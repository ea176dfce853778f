//! Checkpoints: records from which a run can be resumed, and a store that
//! keeps them in memory.

use vstd::prelude::*;
use crate::pregel::error::PregelError;
use crate::pregel::graph::names;
use crate::pregel::message::{clone_envelopes, Envelope};
use crate::pregel::runtime::Progress;
use crate::pregel::state::WorkflowState;
use crate::pregel::superstep::{scheduled_upto, vacant};
use crate::pregel::vertex::VertexId;
use crate::text::str_eq;

verus! {

/// The mailbox of one vertex, as a checkpoint holds it.
#[derive(Debug)]
pub struct PendingMailbox {
    pub vertex: VertexId,
    pub messages: Vec<Envelope>,
}

/// The state of a run after a barrier: enough to run every later superstep.
///
/// Besides the superstep count, the state, the mailboxes and the active set,
/// the record holds what has left the workflow so far and whether the result
/// was handed in, so that a resumed run ends as the first one would have.
#[derive(Debug)]
pub struct Checkpoint<S> {
    pub graph_id: String,
    pub superstep: u64,
    pub state_snapshot: S,
    /// One mailbox for each vertex, in ascending order of the vertices.
    pub pending_mailboxes: Vec<PendingMailbox>,
    /// The active vertices, in ascending order.
    pub active_set: Vec<VertexId>,
    pub outputs: Vec<Envelope>,
    pub done: bool,
}

/// A copy of a row of identifiers.
pub fn clone_ids(ids: &Vec<VertexId>) -> (copy: Vec<VertexId>)
    ensures
        copy@ == ids@,
{
    let mut copy: Vec<VertexId> = Vec::new();
    let mut i: usize = 0;
    while i < ids.len()
        invariant
            i <= ids.len(),
            copy@ == ids@.take(i as int),
        decreases ids.len() - i,
    {
        copy.push(ids[i].clone());
        assert(ids@.take(i + 1) =~= ids@.take(i as int).push(ids@[i as int]));
        i += 1;
    }
    assert(ids@.take(i as int) =~= ids@);
    copy
}

impl<S: WorkflowState> Checkpoint<S> {
    /// Whether two checkpoints hold the same record.
    pub open spec fn same(&self, other: Checkpoint<S>) -> bool {
        &&& self.graph_id@ == other.graph_id@
        &&& self.superstep == other.superstep
        &&& self.state_snapshot@ == other.state_snapshot@
        &&& self.pending_mailboxes@.len() == other.pending_mailboxes@.len()
        &&& forall|i: int|
            0 <= i < self.pending_mailboxes@.len() ==> (#[trigger] self.pending_mailboxes@[i]).vertex
                == other.pending_mailboxes@[i].vertex && self.pending_mailboxes@[i].messages@
                == other.pending_mailboxes@[i].messages@
        &&& self.active_set@ == other.active_set@
        &&& self.outputs@ == other.outputs@
        &&& self.done == other.done
    }

    /// Checkpoints that hold the same record suit the same graphs, and a
    /// run resumes from them in the same state.
    pub proof fn lemma_same(&self, other: Checkpoint<S>, graph_id: Seq<char>, ids: Seq<VertexId>)
        requires
            self.same(other),
        ensures
            self.suits(graph_id, ids) == other.suits(graph_id, ids),
            self.suits(graph_id, ids) ==> self.resumed(ids) == other.resumed(ids),
    {
        if self.suits(graph_id, ids) {
            assert forall|i: int| 0 <= i < ids.len() implies (
            #[trigger] other.pending_mailboxes@[i]).vertex@ == ids[i]@ by {
                assert(self.pending_mailboxes@[i].vertex == other.pending_mailboxes@[i].vertex);
            }
            assert(self.resumed(ids).mailboxes =~= other.resumed(ids).mailboxes) by {
                assert forall|i: int| 0 <= i < ids.len() implies self.pending_mailboxes@[i].messages@
                    == other.pending_mailboxes@[i].messages@ by {
                    assert(self.pending_mailboxes@[i].vertex == other.pending_mailboxes@[i].vertex);
                }
            }
            assert(self.resumed(ids) =~= other.resumed(ids));
        }
        if other.suits(graph_id, ids) {
            assert forall|i: int| 0 <= i < ids.len() implies (
            #[trigger] self.pending_mailboxes@[i]).vertex@ == ids[i]@ by {
                assert(self.pending_mailboxes@[i].vertex == other.pending_mailboxes@[i].vertex);
            }
        }
    }

    /// A copy of the checkpoint.
    pub fn duplicate(&self) -> (copy: Self)
        ensures
            copy.same(*self),
    {
        let mut pending: Vec<PendingMailbox> = Vec::new();
        let mut i: usize = 0;
        while i < self.pending_mailboxes.len()
            invariant
                i <= self.pending_mailboxes.len(),
                pending@.len() == i,
                forall|j: int|
                    0 <= j < i ==> (#[trigger] pending@[j]).vertex
                        == self.pending_mailboxes@[j].vertex && pending@[j].messages@
                        == self.pending_mailboxes@[j].messages@,
            decreases self.pending_mailboxes.len() - i,
        {
            pending.push(
                PendingMailbox {
                    vertex: self.pending_mailboxes[i].vertex.clone(),
                    messages: clone_envelopes(&self.pending_mailboxes[i].messages),
                },
            );
            i += 1;
        }
        Checkpoint {
            graph_id: self.graph_id.clone(),
            superstep: self.superstep,
            state_snapshot: self.state_snapshot.snapshot(),
            pending_mailboxes: pending,
            active_set: clone_ids(&self.active_set),
            outputs: clone_envelopes(&self.outputs),
            done: self.done,
        }
    }

    /// Whether the checkpoint is a record of `progress` in a run on the
    /// graph with the given name and vertices.
    pub open spec fn records(
        &self,
        graph_id: Seq<char>,
        ids: Seq<VertexId>,
        progress: Progress<S>,
    ) -> bool {
        &&& self.graph_id@ == graph_id
        &&& self.superstep == progress.superstep
        &&& self.state_snapshot@ == progress.state
        &&& self.pending_mailboxes@.len() == ids.len()
        &&& forall|i: int|
            0 <= i < ids.len() ==> (#[trigger] self.pending_mailboxes@[i]).vertex == ids[i]
                && self.pending_mailboxes@[i].messages@ == progress.mailboxes[i]
        &&& self.active_set@ == scheduled_upto(ids, progress.active, ids.len() as int)
        &&& self.outputs@ == progress.outputs
        &&& self.done == progress.done
    }

    /// Whether a run on the graph with the given name and vertices can be
    /// resumed from the checkpoint: the name is that of the checkpoint, the
    /// mailboxes are those of the vertices, one for one, and the graph has
    /// every vertex of the active set.
    pub open spec fn suits(&self, graph_id: Seq<char>, ids: Seq<VertexId>) -> bool {
        &&& self.graph_id@ == graph_id
        &&& self.pending_mailboxes@.len() == ids.len()
        &&& forall|i: int|
            0 <= i < ids.len() ==> (#[trigger] self.pending_mailboxes@[i]).vertex@ == ids[i]@
        &&& forall|k: int|
            0 <= k < self.active_set@.len() ==> names(ids, (#[trigger] self.active_set@[k])@)
    }

    /// The state in which a run resumes from the checkpoint.
    pub open spec fn resumed(&self, ids: Seq<VertexId>) -> Progress<S> {
        Progress {
            superstep: self.superstep,
            state: self.state_snapshot@,
            mailboxes: Seq::new(ids.len(), |i: int| self.pending_mailboxes@[i].messages@),
            active: Seq::new(ids.len(), |i: int| names(self.active_set@, ids[i]@)),
            updates: vacant(ids.len()),
            reports: vacant(ids.len()),
            outputs: self.outputs@,
            done: self.done,
            cancelled: false,
            last_checkpoint: Some(self.superstep),
        }
    }
}

/// What a stored checkpoint says of itself before anything else is read.
#[derive(Debug, PartialEq)]
pub struct CheckpointHeader {
    pub version: u32,
    pub schema_hash: Vec<u8>,
}

/// The version of the checkpoint format that this runtime writes and reads.
pub const CHECKPOINT_VERSION: u32 = 1;

impl CheckpointHeader {
    /// Whether a stored checkpoint can be read: it has the version of this
    /// runtime and the schema hash that the reader expects.
    pub open spec fn compatible(&self, schema_hash: Seq<u8>) -> bool {
        self.version == CHECKPOINT_VERSION && self.schema_hash@ == schema_hash
    }

    /// Accepts or rejects a stored checkpoint by its header.
    pub fn check(&self, schema_hash: &Vec<u8>) -> (checked: Result<(), PregelError>)
        ensures
            checked is Ok <==> self.compatible(schema_hash@),
            checked matches Err(error) ==> error == (PregelError::CheckpointIncompatible {
                found_version: self.version,
            }),
    {
        if self.version != CHECKPOINT_VERSION || self.schema_hash.len() != schema_hash.len() {
            return Err(PregelError::CheckpointIncompatible { found_version: self.version });
        }
        let mut i: usize = 0;
        while i < schema_hash.len()
            invariant
                i <= schema_hash.len(),
                self.schema_hash@.len() == schema_hash@.len(),
                forall|j: int| 0 <= j < i ==> self.schema_hash@[j] == schema_hash@[j],
            decreases schema_hash.len() - i,
        {
            if self.schema_hash[i] != schema_hash[i] {
                return Err(PregelError::CheckpointIncompatible { found_version: self.version });
            }
            i += 1;
        }
        assert(self.schema_hash@ =~= schema_hash@);
        Ok(())
    }
}

/// Whether the checkpoints stand in strictly ascending order of their
/// superstep counts.
pub open spec fn in_step_order<S>(history: Seq<Checkpoint<S>>) -> bool {
    forall|i: int, j: int|
        0 <= i < j < history.len() ==> (#[trigger] history[i]).superstep < (
        #[trigger] history[j]).superstep
}

/// Puts a checkpoint into a history at its place in step order; one with
/// the same superstep count makes way for it.
fn place<S>(history: &mut Vec<Checkpoint<S>>, record: Checkpoint<S>)
    requires
        in_step_order(old(history)@),
    ensures
        in_step_order(final(history)@),
        forall|entry: Checkpoint<S>|
            #[trigger] final(history)@.contains(entry) <==> entry == record || (old(
                history,
            )@.contains(entry) && entry.superstep != record.superstep),
{
    let ghost past = history@;
    let mut p: usize = 0;
    while p < history.len() && history[p].superstep < record.superstep
        invariant
            history@ == past,
            p <= past.len(),
            forall|k: int| 0 <= k < p ==> (#[trigger] past[k]).superstep < record.superstep,
        decreases past.len() - p,
    {
        p += 1;
    }
    let replace = p < history.len() && history[p].superstep == record.superstep;
    if replace {
        history[p] = record;
    } else {
        history.insert(p, record);
    }
    proof {
        let next = history@;
        assert(next == if replace {
            past.update(p as int, record)
        } else {
            past.insert(p as int, record)
        });
        assert forall|i: int, j: int| 0 <= i < j < next.len() implies (
        #[trigger] next[i]).superstep < (#[trigger] next[j]).superstep by {
            if replace {
                if i != p && j != p {
                    assert(next[i] == past[i] && next[j] == past[j]);
                } else if i == p {
                    assert(next[j] == past[j]);
                    assert(past[p as int].superstep < past[j].superstep);
                } else {
                    assert(next[i] == past[i]);
                }
            } else {
                let a = if i < p {
                    i
                } else {
                    i - 1
                };
                let b = if j < p {
                    j
                } else {
                    j - 1
                };
                if i == p {
                    assert(next[j] == past[b]);
                    if b > p {
                        assert(past[p as int].superstep < past[b].superstep);
                    }
                } else if j == p {
                    assert(next[i] == past[a]);
                } else {
                    assert(next[i] == past[a] && next[j] == past[b]);
                    assert(past[a].superstep < past[b].superstep);
                }
            }
        }
        assert forall|entry: Checkpoint<S>|
            #[trigger] next.contains(entry) <==> entry == record || (past.contains(entry)
                && entry.superstep != record.superstep) by {
            if next.contains(entry) {
                let k = choose|k: int| 0 <= k < next.len() && next[k] == entry;
                if replace {
                    if k != p {
                        assert(past[k] == entry);
                        if k > p {
                            assert(past[p as int].superstep < past[k].superstep);
                        }
                    }
                } else {
                    if k < p {
                        assert(past[k] == entry);
                    } else if k > p {
                        assert(past[k - 1] == entry);
                        if k - 1 > p {
                            assert(past[p as int].superstep < past[k - 1].superstep);
                        }
                    }
                }
            }
            if entry == record {
                assert(next[p as int] == entry);
            }
            if past.contains(entry) && entry.superstep != record.superstep {
                let k = choose|k: int| 0 <= k < past.len() && past[k] == entry;
                if replace {
                    assert(next[k] == entry);
                } else {
                    if k < p {
                        assert(next[k] == entry);
                    } else {
                        assert(next[k + 1] == entry);
                    }
                }
            }
        }
    }
}

/// The checkpoints of one graph, oldest first.
pub struct GraphHistory<S> {
    pub graph_id: String,
    pub checkpoints: Vec<Checkpoint<S>>,
}

/// The history that a row of histories holds for a graph; empty where it
/// holds none.
pub open spec fn history_in<S>(graphs: Seq<GraphHistory<S>>, graph_id: Seq<char>) -> Seq<
    Checkpoint<S>,
>
    decreases graphs.len(),
{
    if graphs.len() == 0 {
        Seq::empty()
    } else if graphs.last().graph_id@ == graph_id {
        graphs.last().checkpoints@
    } else {
        history_in(graphs.drop_last(), graph_id)
    }
}

/// Whether no graph has two histories in the row.
pub open spec fn one_each<S>(graphs: Seq<GraphHistory<S>>) -> bool {
    forall|i: int, j: int|
        0 <= i < graphs.len() && 0 <= j < graphs.len() && i != j ==> (
        #[trigger] graphs[i]).graph_id@ != (#[trigger] graphs[j]).graph_id@
}

proof fn lemma_history_at<S>(graphs: Seq<GraphHistory<S>>, at: int)
    requires
        one_each(graphs),
        0 <= at < graphs.len(),
    ensures
        history_in(graphs, graphs[at].graph_id@) == graphs[at].checkpoints@,
    decreases graphs.len(),
{
    if at < graphs.len() - 1 {
        assert(graphs.last().graph_id@ != graphs[at].graph_id@);
        assert(graphs.drop_last()[at] == graphs[at]);
        lemma_history_at(graphs.drop_last(), at);
    }
}

proof fn lemma_history_absent<S>(graphs: Seq<GraphHistory<S>>, graph_id: Seq<char>)
    requires
        forall|i: int| 0 <= i < graphs.len() ==> (#[trigger] graphs[i]).graph_id@ != graph_id,
    ensures
        history_in(graphs, graph_id).len() == 0,
    decreases graphs.len(),
{
    if graphs.len() > 0 {
        assert(graphs.drop_last().len() == graphs.len() - 1);
        assert forall|i: int| 0 <= i < graphs.drop_last().len() implies (
        #[trigger] graphs.drop_last()[i]).graph_id@ != graph_id by {
            assert(graphs.drop_last()[i] == graphs[i]);
        }
        lemma_history_absent(graphs.drop_last(), graph_id);
    }
}

proof fn lemma_history_elsewhere<S>(
    before: Seq<GraphHistory<S>>,
    after: Seq<GraphHistory<S>>,
    at: int,
    graph_id: Seq<char>,
)
    requires
        0 <= at < before.len(),
        after.len() == before.len(),
        forall|i: int| 0 <= i < before.len() && i != at ==> #[trigger] after[i] == before[i],
        after[at].graph_id@ == before[at].graph_id@,
        graph_id != before[at].graph_id@,
    ensures
        history_in(after, graph_id) == history_in(before, graph_id),
    decreases before.len(),
{
    let last = before.len() - 1;
    if at == last {
        assert(after.drop_last() =~= before.drop_last());
    } else {
        assert(after[last] == before[last]);
        if before.last().graph_id@ != graph_id {
            assert forall|i: int|
                0 <= i < before.drop_last().len() && i != at implies #[trigger] after.drop_last()[i]
                == before.drop_last()[i] by {
                assert(after[i] == before[i]);
            }
            lemma_history_elsewhere(before.drop_last(), after.drop_last(), at, graph_id);
        }
    }
}

/// A checkpoint store that lives in this process: for each graph the
/// checkpoints of its runs, at most one for each superstep count, oldest
/// first. Writing a checkpoint for a superstep count that the store already
/// has replaces the one it had.
pub struct MemoryCheckpointer<S> {
    graphs: Vec<GraphHistory<S>>,
}

impl<S> MemoryCheckpointer<S> {
    /// The checkpoints of a graph, oldest first; none for a graph that the
    /// store has never seen.
    pub closed spec fn history(&self, graph_id: Seq<char>) -> Seq<Checkpoint<S>> {
        history_in(self.graphs@, graph_id)
    }

    /// No graph has two histories, and every history is in step order.
    pub closed spec fn wf(&self) -> bool {
        &&& one_each(self.graphs@)
        &&& forall|i: int|
            0 <= i < self.graphs@.len() ==> in_step_order((#[trigger] self.graphs@[i]).checkpoints@)
    }

    /// Every history of a well-formed store is in step order.
    pub proof fn lemma_history(&self, graph_id: Seq<char>)
        requires
            self.wf(),
        ensures
            in_step_order(self.history(graph_id)),
    {
        lemma_in_order(self.graphs@, graph_id);
    }

    /// An empty store.
    pub fn new() -> (store: Self)
        ensures
            store.wf(),
            forall|graph_id: Seq<char>| (#[trigger] store.history(graph_id)).len() == 0,
    {
        MemoryCheckpointer { graphs: Vec::new() }
    }

    fn find(&self, graph_id: &str) -> (found: Option<usize>)
        requires
            self.wf(),
        ensures
            found matches Some(i) ==> i < self.graphs@.len() && self.graphs@[i as int].graph_id@
                == graph_id@ && self.graphs@[i as int].checkpoints@ == self.history(graph_id@),
            found is None ==> self.history(graph_id@).len() == 0 && forall|i: int|
                0 <= i < self.graphs@.len() ==> (#[trigger] self.graphs@[i]).graph_id@ != graph_id@,
    {
        let mut i: usize = 0;
        while i < self.graphs.len()
            invariant
                i <= self.graphs.len(),
                self.wf(),
                forall|j: int| 0 <= j < i ==> (#[trigger] self.graphs@[j]).graph_id@ != graph_id@,
            decreases self.graphs.len() - i,
        {
            if str_eq(self.graphs[i].graph_id.as_str(), graph_id) {
                proof {
                    lemma_history_at(self.graphs@, i as int);
                }
                return Some(i);
            }
            i += 1;
        }
        proof {
            lemma_history_absent(self.graphs@, graph_id@);
        }
        None
    }

    /// Whether the store is `before` with `record` written to it: the
    /// history of the record's graph holds the record, and of what it held
    /// before all but a checkpoint of the same superstep count; the other
    /// histories are as they were.
    pub open spec fn follows_put(&self, before: Self, record: Checkpoint<S>) -> bool {
        &&& forall|other: Seq<char>|
            other != record.graph_id@ ==> #[trigger] self.history(other) == before.history(other)
        &&& forall|entry: Checkpoint<S>|
            #[trigger] self.history(record.graph_id@).contains(entry) <==> entry == record || (
            before.history(record.graph_id@).contains(entry) && entry.superstep
                != record.superstep)
    }

    /// Stores a checkpoint. Where the store has one for the same graph and
    /// superstep count, the new one takes its place.
    pub fn put(&mut self, record: Checkpoint<S>)
        requires
            old(self).wf(),
        ensures
            final(self).wf(),
            final(self).follows_put(*old(self), record),
    {
        let ghost name = record.graph_id@;
        let ghost before = self.graphs@;
        let at = match self.find(record.graph_id.as_str()) {
            Some(at) => at,
            None => {
                self.graphs.push(
                    GraphHistory { graph_id: record.graph_id.clone(), checkpoints: Vec::new() },
                );
                assert(self.graphs@.drop_last() =~= before);
                self.graphs.len() - 1
            },
        };
        let ghost middle = self.graphs@;
        assert(one_each(middle));
        assert(middle[at as int].checkpoints@ =~= old(self).history(name));
        assert forall|other: Seq<char>| other != name implies history_in(middle, other)
            == history_in(before, other) by {
            if middle.len() != before.len() {
                assert(middle.drop_last() =~= before);
            }
        }
        place(&mut self.graphs[at].checkpoints, record);
        proof {
            let now = self.graphs@;
            assert(now.len() == middle.len());
            assert(now[at as int].graph_id == middle[at as int].graph_id);
            assert forall|i: int| 0 <= i < now.len() && i != at implies #[trigger] now[i]
                == middle[i] by {}
            assert(one_each(now)) by {
                assert forall|i: int, j: int|
                    0 <= i < now.len() && 0 <= j < now.len() && i != j implies (
                #[trigger] now[i]).graph_id@ != (#[trigger] now[j]).graph_id@ by {
                    assert(now[i].graph_id == middle[i].graph_id);
                    assert(now[j].graph_id == middle[j].graph_id);
                }
            }
            lemma_history_at(now, at as int);
            assert forall|other: Seq<char>| other != name implies #[trigger] self.history(other)
                == old(self).history(other) by {
                lemma_history_elsewhere(middle, now, at as int, other);
            }
        }
    }

    /// The newest checkpoint of a graph, if the store has one.
    pub fn latest(&self, graph_id: &str) -> (found: Option<&Checkpoint<S>>)
        requires
            self.wf(),
        ensures
            found is Some <==> self.history(graph_id@).len() > 0,
            found matches Some(record) ==> *record == self.history(graph_id@).last(),
    {
        match self.find(graph_id) {
            Some(at) => {
                let count = self.graphs[at].checkpoints.len();
                if count > 0 {
                    Some(&self.graphs[at].checkpoints[count - 1])
                } else {
                    None
                }
            },
            None => None,
        }
    }

    /// The superstep counts of the checkpoints of a graph, ascending.
    pub fn list(&self, graph_id: &str) -> (steps: Vec<u64>)
        requires
            self.wf(),
        ensures
            steps@.len() == self.history(graph_id@).len(),
            forall|k: int|
                0 <= k < steps@.len() ==> #[trigger] steps@[k] == self.history(
                    graph_id@,
                )[k].superstep,
            forall|i: int, j: int| 0 <= i < j < steps@.len() ==> steps@[i] < steps@[j],
    {
        let mut steps: Vec<u64> = Vec::new();
        match self.find(graph_id) {
            Some(at) => {
                let history = &self.graphs[at].checkpoints;
                let mut k: usize = 0;
                while k < history.len()
                    invariant
                        k <= history.len(),
                        steps@.len() == k,
                        forall|j: int| 0 <= j < k ==> #[trigger] steps@[j] == history@[j].superstep,
                    decreases history.len() - k,
                {
                    steps.push(history[k].superstep);
                    k += 1;
                }
                assert(in_step_order(history@));
            },
            None => {},
        }
        steps
    }

    /// Keeps the newest `keep_last` checkpoints of a graph and drops the
    /// older ones.
    pub fn prune(&mut self, graph_id: &str, keep_last: usize)
        requires
            old(self).wf(),
        ensures
            final(self).wf(),
            forall|other: Seq<char>|
                other != graph_id@ ==> #[trigger] final(self).history(other) == old(self).history(
                    other,
                ),
            final(self).history(graph_id@) == old(self).history(graph_id@).skip(
                if old(self).history(graph_id@).len() > keep_last {
                    old(self).history(graph_id@).len() - keep_last
                } else {
                    0
                },
            ),
    {
        let ghost before = self.graphs@;
        let ghost past = self.history(graph_id@);
        match self.find(graph_id) {
            Some(at) => {
                let count = self.graphs[at].checkpoints.len();
                let surplus = if count > keep_last {
                    count - keep_last
                } else {
                    0
                };
                let mut dropped: usize = 0;
                while dropped < surplus
                    invariant
                        dropped <= surplus,
                        surplus <= past.len(),
                        at < self.graphs@.len(),
                        self.graphs@.len() == before.len(),
                        forall|i: int|
                            0 <= i < before.len() && i != at ==> #[trigger] self.graphs@[i]
                                == before[i],
                        self.graphs@[at as int].graph_id == before[at as int].graph_id,
                        self.graphs@[at as int].checkpoints@ == past.skip(dropped as int),
                    decreases surplus - dropped,
                {
                    self.graphs[at].checkpoints.remove(0);
                    assert(past.skip(dropped as int).remove(0) =~= past.skip(dropped + 1));
                    dropped += 1;
                }
                proof {
                    let now = self.graphs@;
                    assert(one_each(now)) by {
                        assert forall|i: int, j: int|
                            0 <= i < now.len() && 0 <= j < now.len() && i != j implies (
                        #[trigger] now[i]).graph_id@ != (#[trigger] now[j]).graph_id@ by {
                            assert(now[i].graph_id == before[i].graph_id);
                            assert(now[j].graph_id == before[j].graph_id);
                        }
                    }
                    let kept = past.skip(surplus as int);
                    assert(in_step_order(kept)) by {
                        assert forall|i: int, j: int| 0 <= i < j < kept.len() implies (
                        #[trigger] kept[i]).superstep < (#[trigger] kept[j]).superstep by {
                            assert(kept[i] == past[i + surplus]);
                            assert(kept[j] == past[j + surplus]);
                        }
                    }
                    lemma_history_at(now, at as int);
                    assert forall|other: Seq<char>| other != graph_id@ implies #[trigger] self.history(
                        other,
                    ) == old(self).history(other) by {
                        lemma_history_elsewhere(before, now, at as int, other);
                    }
                }
            },
            None => {
                assert(past.skip(0) =~= past);
            },
        }
    }
}

proof fn lemma_in_order<S>(graphs: Seq<GraphHistory<S>>, graph_id: Seq<char>)
    requires
        forall|i: int| 0 <= i < graphs.len() ==> in_step_order((#[trigger] graphs[i]).checkpoints@),
    ensures
        in_step_order(history_in(graphs, graph_id)),
    decreases graphs.len(),
{
    if graphs.len() > 0 {
        if graphs.last().graph_id@ == graph_id {
            assert(in_step_order(graphs[graphs.len() - 1].checkpoints@));
        } else {
            assert forall|i: int| 0 <= i < graphs.drop_last().len() implies in_step_order(
                (#[trigger] graphs.drop_last()[i]).checkpoints@,
            ) by {
                assert(graphs.drop_last()[i] == graphs[i]);
            }
            lemma_in_order(graphs.drop_last(), graph_id);
        }
    }
}

/// Two histories in step order that hold the same checkpoints are the same
/// history.
pub proof fn lemma_step_order_unique<S>(first: Seq<Checkpoint<S>>, second: Seq<Checkpoint<S>>)
    requires
        in_step_order(first),
        in_step_order(second),
        forall|entry: Checkpoint<S>| first.contains(entry) <==> second.contains(entry),
    ensures
        first == second,
    decreases first.len(),
{
    if first.len() == 0 {
        if second.len() > 0 {
            assert(second.contains(second[0]));
        }
        assert(first =~= second);
    } else {
        let top = first.last();
        assert(first.contains(first[first.len() - 1]));
        assert(second.contains(top));
        let at = choose|at: int| 0 <= at < second.len() && second[at] == top;
        assert(second.contains(second[second.len() - 1]));
        let back = choose|back: int| 0 <= back < first.len() && first[back] == second.last();
        if at < second.len() - 1 {
            assert(second[at].superstep < second[second.len() - 1].superstep);
            if back < first.len() - 1 {
                assert(first[back].superstep < first[first.len() - 1].superstep);
            }
        }
        assert(at == second.len() - 1);
        let shorter = first.drop_last();
        let other = second.drop_last();
        assert forall|entry: Checkpoint<S>| shorter.contains(entry) <==> other.contains(entry) by {
            if shorter.contains(entry) {
                let i = choose|i: int| 0 <= i < shorter.len() && shorter[i] == entry;
                assert(first[i] == entry);
                assert(first.contains(entry));
                let j = choose|j: int| 0 <= j < second.len() && second[j] == entry;
                assert(first[i].superstep < first[first.len() - 1].superstep);
                assert(other[j] == entry);
            }
            if other.contains(entry) {
                let j = choose|j: int| 0 <= j < other.len() && other[j] == entry;
                assert(second[j] == entry);
                assert(second.contains(entry));
                let i = choose|i: int| 0 <= i < first.len() && first[i] == entry;
                assert(second[j].superstep < second[second.len() - 1].superstep);
                assert(shorter[i] == entry);
            }
        }
        lemma_step_order_unique(shorter, other);
        assert(first =~= shorter.push(top));
        assert(second =~= other.push(top));
    }
}

/// Writing a checkpoint is idempotent: a store that holds a checkpoint is
/// left as it is by writing the same checkpoint again.
pub proof fn lemma_put_idempotent<S>(
    before: MemoryCheckpointer<S>,
    once: MemoryCheckpointer<S>,
    twice: MemoryCheckpointer<S>,
    record: Checkpoint<S>,
    graph_id: Seq<char>,
)
    requires
        once.wf(),
        twice.wf(),
        once.follows_put(before, record),
        twice.follows_put(once, record),
    ensures
        twice.history(graph_id) == once.history(graph_id),
{
    if graph_id == record.graph_id@ {
        once.lemma_history(graph_id);
        twice.lemma_history(graph_id);
        assert forall|entry: Checkpoint<S>|
            twice.history(graph_id).contains(entry) <==> once.history(graph_id).contains(
                entry,
            ) by {}
        lemma_step_order_unique(twice.history(graph_id), once.history(graph_id));
    }
}

/// Whether the numbers stand in strictly ascending order.
pub open spec fn strictly_ascending(steps: Seq<u64>) -> bool {
    forall|i: int, j: int| 0 <= i < j < steps.len() ==> steps[i] < steps[j]
}

/// Puts superstep counts in ascending order, each of them once. A store
/// that finds its checkpoints in no particular order lists them with this.
pub fn order_steps(steps: &Vec<u64>) -> (ordered: Vec<u64>)
    ensures
        strictly_ascending(ordered@),
        forall|step: u64| ordered@.contains(step) <==> steps@.contains(step),
{
    let mut ordered: Vec<u64> = Vec::new();
    let mut k: usize = 0;
    while k < steps.len()
        invariant
            k <= steps.len(),
            strictly_ascending(ordered@),
            forall|step: u64| ordered@.contains(step) <==> steps@.take(k as int).contains(step),
        decreases steps.len() - k,
    {
        let step = steps[k];
        let ghost before = ordered@;
        let ghost seen = steps@.take(k as int);
        let ghost next = steps@.take(k + 1);
        assert(next =~= seen.push(step));
        let mut at: usize = 0;
        while at < ordered.len() && ordered[at] < step
            invariant
                at <= ordered.len(),
                ordered@ == before,
                forall|i: int| 0 <= i < at ==> before[i] < step,
            decreases ordered.len() - at,
        {
            at += 1;
        }
        if at < ordered.len() && ordered[at] == step {
            proof {
                assert forall|other: u64| before.contains(other) <==> next.contains(other) by {
                    if next.contains(other) {
                        let i = choose|i: int| 0 <= i < next.len() && next[i] == other;
                        if i < seen.len() {
                            assert(seen[i] == other);
                            assert(seen.contains(other));
                        } else {
                            assert(before[at as int] == other);
                        }
                    }
                    if before.contains(other) {
                        assert(seen.contains(other));
                        let i = choose|i: int| 0 <= i < seen.len() && seen[i] == other;
                        assert(next[i] == other);
                    }
                }
            }
        } else {
            ordered.insert(at, step);
            proof {
                let after = ordered@;
                assert(after == before.insert(at as int, step));
                assert forall|i: int, j: int| 0 <= i < j < after.len() implies after[i]
                    < after[j] by {
                    let a = if i < at {
                        i
                    } else {
                        i - 1
                    };
                    let b = if j < at {
                        j
                    } else {
                        j - 1
                    };
                    if i == at {
                        assert(after[j] == before[b]);
                        if b > at {
                            assert(before[at as int] < before[b]);
                        }
                    } else if j == at {
                        assert(after[i] == before[a]);
                    } else {
                        assert(after[i] == before[a] && after[j] == before[b]);
                        assert(before[a] < before[b]);
                    }
                }
                assert forall|other: u64| after.contains(other) <==> next.contains(other) by {
                    if after.contains(other) {
                        let i = choose|i: int| 0 <= i < after.len() && after[i] == other;
                        if i == at {
                            assert(next[k as int] == other);
                        } else {
                            let a = if i < at {
                                i
                            } else {
                                i - 1
                            };
                            assert(before[a] == other);
                            assert(before.contains(other));
                            let m = choose|m: int| 0 <= m < seen.len() && seen[m] == other;
                            assert(next[m] == other);
                        }
                    }
                    if next.contains(other) {
                        let m = choose|m: int| 0 <= m < next.len() && next[m] == other;
                        if m < seen.len() {
                            assert(seen[m] == other);
                            assert(seen.contains(other));
                            assert(before.contains(other));
                            let a = choose|a: int| 0 <= a < before.len() && before[a] == other;
                            let i = if a < at {
                                a
                            } else {
                                a + 1
                            };
                            assert(after[i] == other);
                        } else {
                            assert(after[at as int] == other);
                        }
                    }
                }
            }
        }
        k += 1;
    }
    assert(steps@.take(k as int) =~= steps@);
    ordered
}

/// The superstep counts whose checkpoints go when only the newest
/// `keep_last` are kept: of the counts in ascending order, all but the last
/// `keep_last`.
pub fn steps_to_prune(ordered: &Vec<u64>, keep_last: usize) -> (surplus: Vec<u64>)
    ensures
        surplus@ == ordered@.take(
            if ordered@.len() > keep_last {
                ordered@.len() - keep_last
            } else {
                0
            },
        ),
{
    let count = if ordered.len() > keep_last {
        ordered.len() - keep_last
    } else {
        0
    };
    let mut surplus: Vec<u64> = Vec::new();
    let mut k: usize = 0;
    while k < count
        invariant
            k <= count,
            count <= ordered@.len(),
            surplus@ == ordered@.take(k as int),
        decreases count - k,
    {
        surplus.push(ordered[k]);
        assert(ordered@.take(k + 1) =~= ordered@.take(k as int).push(ordered@[k as int]));
        k += 1;
    }
    surplus
}

} // verus!
