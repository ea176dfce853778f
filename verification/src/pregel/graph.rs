//! The static structure of a workflow: its vertices and the edges that say
//! where a message sent under a label goes.

use vstd::prelude::*;
use crate::pregel::error::PregelError;
use crate::pregel::message::{Envelope, Source};
use crate::pregel::state::WorkflowState;
use crate::pregel::vertex::VertexId;
use crate::text::{lemma_text_order, str_eq, text_before};

verus! {

/// The label under which a vertex hands in the result of the workflow. It
/// needs no edge.
pub open spec fn done_label() -> Seq<char> {
    "__done__"@
}

/// The condition of a conditional edge: a predicate over the message and the
/// workflow state as it stands after the superstep's merge.
pub trait EdgePredicate<S: WorkflowState> {
    spec fn admits(&self, envelope: Envelope, state: S::V) -> bool;

    fn test(&self, envelope: &Envelope, state: &S) -> (pass: bool)
        ensures
            pass == self.admits(*envelope, state@),
    ;
}

/// The condition that a message has a given key.
#[derive(Debug, PartialEq)]
pub struct KeyIs {
    pub key: String,
}

impl<S: WorkflowState> EdgePredicate<S> for KeyIs {
    open spec fn admits(&self, envelope: Envelope, state: S::V) -> bool {
        envelope.message.key_text() == self.key@
    }

    fn test(&self, envelope: &Envelope, state: &S) -> (pass: bool) {
        let wanted = self.key.as_str();
        let key = envelope.message.key();
        str_eq(key, wanted)
    }
}

/// Where an edge leads.
#[derive(Debug, PartialEq)]
pub enum Target {
    /// To the mailbox of a vertex.
    Vertex(VertexId),
    /// Out of the workflow, into its output log.
    Output,
}

impl Target {
    /// Whether two targets are the same place.
    pub open spec fn same(&self, other: Target) -> bool {
        match (*self, other) {
            (Target::Output, Target::Output) => true,
            (Target::Vertex(a), Target::Vertex(b)) => a@ == b@,
            _ => false,
        }
    }

    pub fn is_same(&self, other: &Target) -> (answer: bool)
        ensures
            answer == self.same(*other),
    {
        match (self, other) {
            (Target::Output, Target::Output) => true,
            (Target::Vertex(a), Target::Vertex(b)) => *a == *b,
            _ => false,
        }
    }
}

impl Clone for Target {
    fn clone(&self) -> (copy: Self)
        ensures
            copy == *self,
    {
        match self {
            Target::Output => Target::Output,
            Target::Vertex(id) => Target::Vertex(id.clone()),
        }
    }
}

/// A routing rule: messages that `source` sends under `label` go to
/// `target`. With a guard the edge is conditional: a message that the guard
/// does not admit is dropped.
#[derive(Debug)]
pub struct Edge<P> {
    pub source: Source,
    pub label: String,
    pub target: Target,
    pub guard: Option<P>,
}

impl<P> Edge<P> {
    /// An edge without a condition.
    pub fn direct(source: Source, label: &str, target: Target) -> (edge: Self)
        ensures
            edge.source == source,
            edge.label@ == label@,
            edge.target == target,
            edge.guard is None,
    {
        Edge { source, label: label.to_owned(), target, guard: None }
    }

    /// An edge with a condition.
    pub fn conditional(source: Source, label: &str, target: Target, guard: P) -> (edge: Self)
        ensures
            edge.source == source,
            edge.label@ == label@,
            edge.target == target,
            edge.guard == Some(guard),
    {
        Edge { source, label: label.to_owned(), target, guard: Some(guard) }
    }

    /// Whether the edge is the rule for what `sender` sends under `label`.
    pub open spec fn carries(&self, sender: Source, label: Seq<char>) -> bool {
        self.source.same(sender) && self.label@ == label
    }

    /// Whether the edge lets a message through.
    pub open spec fn passes<S: WorkflowState>(&self, envelope: Envelope, state: S::V) -> bool where
        P: EdgePredicate<S>,
     {
        match self.guard {
            Some(guard) => guard.admits(envelope, state),
            None => true,
        }
    }
}

/// Whether the identifiers stand in strictly ascending order.
pub open spec fn ascending(ids: Seq<VertexId>) -> bool {
    forall|i: int, j: int| 0 <= i < j < ids.len() ==> text_before(#[trigger] ids[i]@, #[trigger] ids[j]@)
}

/// Whether `name` is one of the identifiers.
pub open spec fn names(ids: Seq<VertexId>, name: Seq<char>) -> bool {
    exists|i: int| 0 <= i < ids.len() && (#[trigger] ids[i])@ == name
}

/// The position of `name` among the identifiers.
pub open spec fn position(ids: Seq<VertexId>, name: Seq<char>) -> int {
    choose|i: int| 0 <= i < ids.len() && (#[trigger] ids[i])@ == name
}

/// Whether both ends of an edge are the outside or among the identifiers.
pub open spec fn anchored<P>(edge: Edge<P>, ids: Seq<VertexId>) -> bool {
    &&& edge.source matches Source::Vertex(id) ==> names(ids, id@)
    &&& edge.target matches Target::Vertex(id) ==> names(ids, id@)
}

/// The vertices and edges of one workflow.
///
/// The vertices are kept in ascending order of their identifiers, so that a
/// vertex's position is also its rank among the senders of a superstep.
pub struct Graph<P> {
    id: String,
    vertices: Vec<VertexId>,
    edges: Vec<Edge<P>>,
}

impl<P> Graph<P> {
    /// The name of the workflow that the graph describes.
    pub closed spec fn graph_id(&self) -> Seq<char> {
        self.id@
    }

    /// The vertices, in ascending order.
    pub closed spec fn vertex_ids(&self) -> Seq<VertexId> {
        self.vertices@
    }

    /// The edges, in the order in which they were added.
    pub closed spec fn edge_list(&self) -> Seq<Edge<P>> {
        self.edges@
    }

    /// The vertices are in strictly ascending order, and the edges run
    /// between them, the outside and the output.
    pub closed spec fn wf(self) -> bool {
        &&& ascending(self.vertices@)
        &&& forall|k: int|
            0 <= k < self.edges@.len() ==> anchored(#[trigger] self.edges@[k], self.vertices@)
    }

    /// What well-formedness means, for use in proofs.
    pub proof fn lemma_wf(self)
        requires
            self.wf(),
        ensures
            ascending(self.vertex_ids()),
            forall|k: int|
                0 <= k < self.edge_list().len() ==> anchored(
                    #[trigger] self.edge_list()[k],
                    self.vertex_ids(),
                ),
            forall|i: int, j: int|
                0 <= i < self.vertex_ids().len() && 0 <= j < self.vertex_ids().len() && i != j
                    ==> (#[trigger] self.vertex_ids()[i])@ != (#[trigger] self.vertex_ids()[j])@,
    {
        let ids = self.vertex_ids();
        assert forall|i: int, j: int|
            0 <= i < ids.len() && 0 <= j < ids.len() && i != j implies (#[trigger] ids[i])@ != (
        #[trigger] ids[j])@ by {
            lemma_text_order(ids[i]@, ids[j]@, ids[j]@);
            if i < j {
                assert(text_before(ids[i]@, ids[j]@));
            } else {
                assert(text_before(ids[j]@, ids[i]@));
            }
        }
    }

    /// In a well-formed graph the position of the name of a vertex is the
    /// position of the vertex.
    pub proof fn lemma_position(self, at: int)
        requires
            self.wf(),
            0 <= at < self.vertex_ids().len(),
        ensures
            names(self.vertex_ids(), self.vertex_ids()[at]@),
            position(self.vertex_ids(), self.vertex_ids()[at]@) == at,
    {
        self.lemma_wf();
        let ids = self.vertex_ids();
        assert(ids[at]@ == ids[at]@);
    }

    /// A graph without vertices.
    pub fn new(id: &str) -> (graph: Self)
        ensures
            graph.wf(),
            graph.graph_id() == id@,
            graph.vertex_ids().len() == 0,
            graph.edge_list().len() == 0,
    {
        Graph { id: id.to_owned(), vertices: Vec::new(), edges: Vec::new() }
    }

    pub fn id(&self) -> (id: &str)
        ensures
            id@ == self.graph_id(),
    {
        self.id.as_str()
    }

    /// The number of vertices.
    pub fn len(&self) -> (count: usize)
        ensures
            count == self.vertex_ids().len(),
    {
        self.vertices.len()
    }

    /// The vertex at a position.
    pub fn vertex(&self, position: usize) -> (id: &VertexId)
        requires
            position < self.vertex_ids().len(),
        ensures
            *id == self.vertex_ids()[position as int],
    {
        &self.vertices[position]
    }

    pub fn vertices(&self) -> (ids: &Vec<VertexId>)
        ensures
            ids@ == self.vertex_ids(),
    {
        &self.vertices
    }

    pub fn edges(&self) -> (edges: &Vec<Edge<P>>)
        ensures
            edges@ == self.edge_list(),
    {
        &self.edges
    }

    /// The position of a vertex, or `None` where the graph has no vertex of
    /// that name.
    pub fn index_of(&self, id: &VertexId) -> (found: Option<usize>)
        ensures
            found matches Some(position) ==> position < self.vertex_ids().len()
                && self.vertex_ids()[position as int]@ == id@,
            found is None ==> !names(self.vertex_ids(), id@),
            self.wf() ==> (found matches Some(at) ==> at == position(self.vertex_ids(), id@)),
    {
        proof {
            if self.wf() {
                self.lemma_wf();
            }
        }
        let mut i: usize = 0;
        while i < self.vertices.len()
            invariant
                i <= self.vertices.len(),
                forall|k: int| 0 <= k < i ==> (#[trigger] self.vertices@[k])@ != id@,
                self.wf() ==> forall|a: int, b: int|
                    0 <= a < self.vertices@.len() && 0 <= b < self.vertices@.len() && a != b ==> (
                    #[trigger] self.vertices@[a])@ != (#[trigger] self.vertices@[b])@,
            decreases self.vertices.len() - i,
        {
            if self.vertices[i] == *id {
                assert(self.vertices@[i as int]@ == id@);
                return Some(i);
            }
            i += 1;
        }
        None
    }

    pub fn contains(&self, id: &VertexId) -> (found: bool)
        ensures
            found == names(self.vertex_ids(), id@),
    {
        self.index_of(id).is_some()
    }

    /// Adds a vertex, at its place in the order. A name that the graph
    /// already has is not added again; the answer says whether the vertex is
    /// new.
    pub fn add_vertex(&mut self, id: VertexId) -> (added: bool)
        requires
            old(self).wf(),
        ensures
            final(self).wf(),
            final(self).graph_id() == old(self).graph_id(),
            final(self).edge_list() == old(self).edge_list(),
            added == !names(old(self).vertex_ids(), id@),
            !added ==> final(self).vertex_ids() == old(self).vertex_ids(),
            added ==> exists|at: int|
                0 <= at <= old(self).vertex_ids().len() && final(self).vertex_ids()
                    == #[trigger] old(self).vertex_ids().insert(at, id),
            forall|name: Seq<char>|
                #[trigger] names(final(self).vertex_ids(), name) <==> names(
                    old(self).vertex_ids(),
                    name,
                ) || name == id@,
    {
        let ghost ids = self.vertices@;
        let mut at: usize = 0;
        while at < self.vertices.len() && self.vertices[at].before(&id)
            invariant
                at <= self.vertices.len(),
                self.vertices@ == ids,
                forall|k: int| 0 <= k < at ==> text_before(#[trigger] ids[k]@, id@),
            decreases self.vertices.len() - at,
        {
            at += 1;
        }
        if at < self.vertices.len() && self.vertices[at] == id {
            assert(ids[at as int]@ == id@);
            return false;
        }
        proof {
            assert forall|k: int| 0 <= k < ids.len() implies (#[trigger] ids[k])@ != id@ by {
                lemma_text_order(ids[k]@, id@, id@);
                if k >= at {
                    lemma_text_order(ids[at as int]@, id@, ids[k]@);
                    lemma_text_order(id@, ids[at as int]@, ids[k]@);
                    if k > at {
                        assert(text_before(ids[at as int]@, ids[k]@));
                    }
                }
            }
            let after = ids.insert(at as int, id);
            assert forall|i: int, j: int| 0 <= i < j < after.len() implies text_before(
                #[trigger] after[i]@,
                #[trigger] after[j]@,
            ) by {
                if j == at {
                    assert(after[i] == ids[i]);
                } else if i == at {
                    assert(after[j] == ids[j - 1]);
                    lemma_text_order(ids[at as int]@, id@, ids[j - 1]@);
                    lemma_text_order(id@, ids[at as int]@, ids[j - 1]@);
                    if j - 1 > at {
                        assert(text_before(ids[at as int]@, ids[j - 1]@));
                    }
                } else {
                    let a = if i < at {
                        i
                    } else {
                        i - 1
                    };
                    let b = if j < at {
                        j
                    } else {
                        j - 1
                    };
                    assert(after[i] == ids[a] && after[j] == ids[b]);
                    assert(text_before(ids[a]@, ids[b]@));
                }
            }
            assert forall|k: int| 0 <= k < self.edges@.len() implies anchored(
                #[trigger] self.edges@[k],
                after,
            ) by {
                let edge = self.edges@[k];
                assert(anchored(edge, ids));
                assert forall|name: Seq<char>| names(ids, name) implies names(after, name) by {
                    let p = choose|p: int| 0 <= p < ids.len() && (#[trigger] ids[p])@ == name;
                    let q = if p < at {
                        p
                    } else {
                        p + 1
                    };
                    assert(after[q] == ids[p]);
                }
            }
        }
        self.vertices.insert(at, id);
        proof {
            let place = at as int;
            let after = ids.insert(place, id);
            assert(0 <= place <= ids.len() && self.vertex_ids() == after);
            assert(ids == old(self).vertex_ids());
            assert forall|name: Seq<char>| #[trigger] names(after, name) <==> names(ids, name)
                || name == id@ by {
                if names(ids, name) {
                    let p = choose|p: int| 0 <= p < ids.len() && (#[trigger] ids[p])@ == name;
                    let q = if p < place {
                        p
                    } else {
                        p + 1
                    };
                    assert(after[q]@ == name);
                }
                if name == id@ {
                    assert(after[place]@ == name);
                }
                if names(after, name) {
                    let q = choose|q: int| 0 <= q < after.len() && (#[trigger] after[q])@ == name;
                    if q < place {
                        assert(ids[q]@ == name);
                    } else if q > place {
                        assert(ids[q - 1]@ == name);
                    }
                }
            }
        }
        true
    }

    /// Adds an edge. Fails where an end of the edge is a vertex that the
    /// graph does not have, with the routing error that names the source and
    /// the label of the edge.
    pub fn add_edge(&mut self, edge: Edge<P>) -> (added: Result<(), PregelError>)
        requires
            old(self).wf(),
        ensures
            final(self).wf(),
            final(self).graph_id() == old(self).graph_id(),
            final(self).vertex_ids() == old(self).vertex_ids(),
            added is Ok <==> anchored(edge, old(self).vertex_ids()),
            added is Ok ==> final(self).edge_list() == old(self).edge_list().push(edge),
            added matches Err(error) ==> final(self).edge_list() == old(self).edge_list()
                && error == (PregelError::RoutingError { source: edge.source, label: edge.label }),
    {
        let known_source = match &edge.source {
            Source::Vertex(id) => self.contains(id),
            Source::External => true,
        };
        let known_target = match &edge.target {
            Target::Vertex(id) => self.contains(id),
            Target::Output => true,
        };
        if known_source && known_target {
            self.edges.push(edge);
            Ok(())
        } else {
            Err(PregelError::RoutingError { source: edge.source, label: edge.label })
        }
    }
}

} // verus!
