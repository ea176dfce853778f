//! The shared workflow state and the updates that vertices propose to it.

use vstd::prelude::*;

verus! {

/// A delta to the workflow state.
pub trait StateUpdate: Sized {
    /// Whether the update changes nothing.
    spec fn is_neutral(&self) -> bool;

    /// The update that changes nothing.
    fn empty() -> (update: Self)
        ensures
            update.is_neutral(),
    ;

    fn is_empty(&self) -> (answer: bool)
        ensures
            answer == self.is_neutral(),
    ;
}

/// The state that the vertices of one workflow share.
///
/// The scheduler never looks inside it. It merges the updates of one
/// superstep one after the other, in an order of its choosing, so the order
/// must not matter: an implementation proves that any two updates commute.
pub trait WorkflowState: View + Sized {
    type Update: StateUpdate;

    /// What the state becomes when one update is merged into it.
    spec fn merged(model: Self::V, update: Self::Update) -> Self::V;

    fn merge(&mut self, update: Self::Update)
        ensures
            final(self)@ == Self::merged(old(self)@, update),
    ;

    /// A copy of the state, for contexts and checkpoints.
    fn snapshot(&self) -> (copy: Self)
        ensures
            copy@ == self@,
    ;

    /// Merging two updates in either order gives the same state.
    proof fn merge_commutes(model: Self::V, first: Self::Update, second: Self::Update)
        ensures
            Self::merged(Self::merged(model, first), second) == Self::merged(
                Self::merged(model, second),
                first,
            ),
    ;

    /// Merging the empty update changes nothing.
    proof fn merge_neutral(model: Self::V, update: Self::Update)
        requires
            update.is_neutral(),
        ensures
            Self::merged(model, update) == model,
    ;
}

/// The update of a workflow without shared state.
#[derive(Debug, Clone, Copy, PartialEq, Eq, Structural, Default)]
pub struct UnitUpdate;

impl StateUpdate for UnitUpdate {
    open spec fn is_neutral(&self) -> bool {
        true
    }

    fn empty() -> (update: Self) {
        UnitUpdate
    }

    fn is_empty(&self) -> (answer: bool) {
        true
    }
}

/// The state of a workflow that shares nothing.
#[derive(Debug, Clone, Copy, PartialEq, Eq, Structural, Default)]
pub struct UnitState;

impl View for UnitState {
    type V = ();

    open spec fn view(&self) -> () {
        ()
    }
}

impl WorkflowState for UnitState {
    type Update = UnitUpdate;

    open spec fn merged(model: (), update: UnitUpdate) -> () {
        ()
    }

    fn merge(&mut self, update: UnitUpdate) {
    }

    fn snapshot(&self) -> (copy: Self) {
        UnitState
    }

    proof fn merge_commutes(model: (), first: UnitUpdate, second: UnitUpdate) {
    }

    proof fn merge_neutral(model: (), update: UnitUpdate) {
    }
}

/// An update that adds to a tally.
#[derive(Debug, Clone, Copy, PartialEq, Eq, Structural)]
pub struct TallyUpdate {
    pub add: u64,
}

impl StateUpdate for TallyUpdate {
    open spec fn is_neutral(&self) -> bool {
        self.add == 0
    }

    fn empty() -> (update: Self) {
        TallyUpdate { add: 0 }
    }

    fn is_empty(&self) -> (answer: bool) {
        self.add == 0
    }
}

/// A state that sums what the vertices add to it. The sum stops at the
/// largest number that fits, so that the order of the additions never
/// matters.
#[derive(Debug, Clone, Copy, PartialEq, Eq, Structural)]
pub struct TallyState {
    pub total: u64,
}

impl View for TallyState {
    type V = u64;

    open spec fn view(&self) -> u64 {
        self.total
    }
}

/// The sum of two numbers, or the largest number that fits where the sum
/// does not.
pub open spec fn capped_sum(a: u64, b: u64) -> u64 {
    if a + b > u64::MAX {
        u64::MAX
    } else {
        (a + b) as u64
    }
}

impl WorkflowState for TallyState {
    type Update = TallyUpdate;

    open spec fn merged(model: u64, update: TallyUpdate) -> u64 {
        capped_sum(model, update.add)
    }

    fn merge(&mut self, update: TallyUpdate) {
        self.total = if self.total > u64::MAX - update.add {
            u64::MAX
        } else {
            self.total + update.add
        };
    }

    fn snapshot(&self) -> (copy: Self) {
        TallyState { total: self.total }
    }

    proof fn merge_commutes(model: u64, first: TallyUpdate, second: TallyUpdate) {
    }

    proof fn merge_neutral(model: u64, update: TallyUpdate) {
    }
}

/// The state after merging a sequence of updates, first to last.
pub open spec fn merged_all<S: WorkflowState>(model: S::V, updates: Seq<S::Update>) -> S::V
    decreases updates.len(),
{
    if updates.len() == 0 {
        model
    } else {
        S::merged(merged_all::<S>(model, updates.drop_last()), updates.last())
    }
}

/// The single owner of the workflow state. Vertices read it through `view`
/// during compute; it changes only between supersteps, in `apply_all`.
pub struct StateMerger<S: WorkflowState> {
    state: S,
}

impl<S: WorkflowState> StateMerger<S> {
    /// The model of the state held.
    pub closed spec fn model(&self) -> S::V {
        self.state@
    }

    pub fn new(state: S) -> (merger: Self)
        ensures
            merger.model() == state@,
    {
        StateMerger { state }
    }

    /// A read-only handle on the state.
    pub fn view(&self) -> (state: &S)
        ensures
            state@ == self.model(),
    {
        &self.state
    }

    /// A copy of the state.
    pub fn snapshot(&self) -> (copy: S)
        ensures
            copy@ == self.model(),
    {
        self.state.snapshot()
    }

    /// Gives the state up.
    pub fn into_state(self) -> (state: S)
        ensures
            state@ == self.model(),
    {
        self.state
    }

    /// Merges one update.
    pub fn apply(&mut self, update: S::Update)
        ensures
            final(self).model() == S::merged(old(self).model(), update),
    {
        self.state.merge(update);
    }

    /// Merges the updates of one superstep, in the order of the collection.
    pub fn apply_all(&mut self, updates: Vec<S::Update>)
        ensures
            final(self).model() == merged_all::<S>(old(self).model(), updates@),
    {
        let mut updates = updates;
        let ghost all = updates@;
        let ghost start = self.model();
        let mut rest: Vec<S::Update> = Vec::new();
        // Updates are taken from the back, so the collection is turned first.
        while updates.len() > 0
            invariant
                updates@ =~= all.subrange(0, updates@.len() as int),
                rest@ =~= all.subrange(updates@.len() as int, all.len() as int).reverse(),
                updates@.len() <= all.len(),
            decreases updates.len(),
        {
            let update = updates.pop().unwrap();
            rest.push(update);
        }
        assert(rest@ =~= all.reverse());
        let ghost mut done: int = 0;
        while rest.len() > 0
            invariant
                0 <= done <= all.len(),
                rest@.len() == all.len() - done,
                rest@ =~= all.subrange(done, all.len() as int).reverse(),
                self.model() == merged_all::<S>(start, all.subrange(0, done)),
            decreases rest.len(),
        {
            let update = rest.pop().unwrap();
            assert(update == all[done]);
            self.state.merge(update);
            proof {
                let next = all.subrange(0, done + 1);
                assert(next.drop_last() =~= all.subrange(0, done));
                assert(next.last() == all[done]);
                done = done + 1;
            }
        }
        assert(all.subrange(0, all.len() as int) =~= all);
    }
}

/// The state after a superstep does not depend on the order in which two
/// neighbouring updates are merged.
pub proof fn lemma_merge_order_swap<S: WorkflowState>(
    model: S::V,
    before: Seq<S::Update>,
    first: S::Update,
    second: S::Update,
    after: Seq<S::Update>,
)
    ensures
        merged_all::<S>(model, before.push(first).push(second) + after) == merged_all::<S>(
            model,
            before.push(second).push(first) + after,
        ),
    decreases after.len(),
{
    let left = before.push(first).push(second) + after;
    let right = before.push(second).push(first) + after;
    if after.len() == 0 {
        let base = merged_all::<S>(model, before);
        assert(left.drop_last() =~= before.push(first));
        assert(right.drop_last() =~= before.push(second));
        assert(before.push(first).drop_last() =~= before);
        assert(before.push(second).drop_last() =~= before);
        assert(merged_all::<S>(model, before.push(first)) == S::merged(base, first));
        assert(merged_all::<S>(model, before.push(second)) == S::merged(base, second));
        assert(merged_all::<S>(model, left) == S::merged(S::merged(base, first), second));
        assert(merged_all::<S>(model, right) == S::merged(S::merged(base, second), first));
        S::merge_commutes(base, first, second);
    } else {
        lemma_merge_order_swap::<S>(model, before, first, second, after.drop_last());
        assert(left.drop_last() =~= before.push(first).push(second) + after.drop_last());
        assert(right.drop_last() =~= before.push(second).push(first) + after.drop_last());
        assert(left.last() == right.last());
    }
}

/// Moving one update to the end of the merge order changes nothing.
proof fn lemma_merge_last<S: WorkflowState>(model: S::V, updates: Seq<S::Update>, at: int)
    requires
        0 <= at < updates.len(),
    ensures
        merged_all::<S>(model, updates) == S::merged(
            merged_all::<S>(model, updates.remove(at)),
            updates[at],
        ),
    decreases updates.len() - at,
{
    let moved = updates.remove(at).push(updates[at]);
    assert(moved.drop_last() =~= updates.remove(at));
    if at == updates.len() - 1 {
        assert(updates.remove(at) =~= updates.drop_last());
    } else {
        let before = updates.take(at);
        let after = updates.skip(at + 2);
        let swapped = before.push(updates[at + 1]).push(updates[at]) + after;
        assert(updates =~= before.push(updates[at]).push(updates[at + 1]) + after);
        lemma_merge_order_swap::<S>(model, before, updates[at], updates[at + 1], after);
        lemma_merge_last::<S>(model, swapped, at + 1);
        assert(swapped.remove(at + 1) =~= updates.remove(at));
    }
}

/// The state after a superstep depends on which updates are merged, and how
/// often each, but not on their order.
pub proof fn lemma_merge_any_order<S: WorkflowState>(
    model: S::V,
    first: Seq<S::Update>,
    second: Seq<S::Update>,
)
    requires
        first.to_multiset() == second.to_multiset(),
    ensures
        merged_all::<S>(model, first) == merged_all::<S>(model, second),
    decreases first.len(),
{
    vstd::seq_lib::to_multiset_len(first);
    vstd::seq_lib::to_multiset_len(second);
    if first.len() > 0 {
        let last = first.last();
        let at_end = first.len() - 1;
        vstd::seq_lib::to_multiset_contains(first, last);
        vstd::seq_lib::to_multiset_contains(second, last);
        assert(first[at_end] == last);
        assert(first.contains(last));
        let at = choose|at: int| 0 <= at < second.len() && second[at] == last;
        vstd::seq_lib::to_multiset_remove(first, at_end);
        vstd::seq_lib::to_multiset_remove(second, at);
        assert(first.remove(at_end) =~= first.drop_last());
        lemma_merge_any_order::<S>(model, first.drop_last(), second.remove(at));
        lemma_merge_last::<S>(model, second, at);
    }
}

} // verus!
