//! Laws of the table: what holds of every table, whatever was done to it.

use crate::cell::{CellId, Entry};
use crate::conser::HashConser;
use crate::handle::HashConsed;
use std::hash::Hash;
use vstd::prelude::*;
use vstd::std_specs::cmp::PartialEqSpec;

verus! {

/// One step in the life of a table, with what the step returned.
pub enum Step<T: Eq + Hash> {
    /// `make(obj)`, or `find(obj)` with success, returned `handle`.
    Made { obj: T, handle: HashConsed<T> },
    /// `clone_handle(of)` returned `handle`.
    Cloned { of: HashConsed<T>, handle: HashConsed<T> },
    /// `drop_handle(handle)` returned `left`.
    Dropped { handle: HashConsed<T>, left: usize },
    /// `acquire()`.
    Acquired,
    /// `release()`.
    Released,
}

/// True if `step`, taken on the table `pre`, may leave the table `post`.
pub open spec fn takes<T: Eq + Hash>(
    pre: HashConser<T>,
    step: Step<T>,
    post: HashConser<T>,
) -> bool {
    match step {
        Step::Made { obj, handle } => pre.interns(obj, post, handle),
        Step::Cloned { of, handle } => pre.live(of.id()) && pre.shares(of, post, handle),
        Step::Dropped { handle, left } => pre.live(handle.id()) && pre.releases(handle, post, left),
        Step::Acquired => pre.recounts(1, post),
        Step::Released => pre.recounts(-1, post),
    }
}

/// True if `states` are the tables that a well-formed table went through
/// while `steps` were taken on it, one after the other.
pub open spec fn history<T: Eq + Hash>(states: Seq<HashConser<T>>, steps: Seq<Step<T>>) -> bool {
    &&& states.len() == steps.len() + 1
    &&& states[0].wf()
    &&& forall|i: int| 0 <= i < steps.len() ==> takes(states[i], #[trigger] steps[i], states[i + 1])
}

/// True if `step` reclaims the cell `id`.
pub open spec fn reclaims<T: Eq + Hash>(step: Step<T>, id: CellId) -> bool {
    step matches Step::Dropped { handle, left } && left == 0 && handle.id() == id
}

/// The number of handles to the cell `id` that `step` gave out.
pub open spec fn gives<T: Eq + Hash>(step: Step<T>, id: CellId) -> nat {
    match step {
        Step::Made { handle, .. } => if handle.id() == id {
            1
        } else {
            0
        },
        Step::Cloned { handle, .. } => if handle.id() == id {
            1
        } else {
            0
        },
        _ => 0,
    }
}

/// The number of handles to the cell `id` that `step` took back.
pub open spec fn takes_back<T: Eq + Hash>(step: Step<T>, id: CellId) -> nat {
    match step {
        Step::Dropped { handle, .. } => if handle.id() == id {
            1
        } else {
            0
        },
        _ => 0,
    }
}

/// The number of handles to the cell `id` that `steps` gave out.
pub open spec fn given<T: Eq + Hash>(steps: Seq<Step<T>>, id: CellId) -> nat
    decreases steps.len(),
{
    if steps.len() == 0 {
        0
    } else {
        given(steps.drop_last(), id) + gives(steps.last(), id)
    }
}

/// The number of handles to the cell `id` that `steps` took back.
pub open spec fn taken_back<T: Eq + Hash>(steps: Seq<Step<T>>, id: CellId) -> nat
    decreases steps.len(),
{
    if steps.len() == 0 {
        0
    } else {
        taken_back(steps.drop_last(), id) + takes_back(steps.last(), id)
    }
}

/// Every table of a history is well formed.
pub proof fn law_wf_throughout<T: Eq + Hash>(
    states: Seq<HashConser<T>>,
    steps: Seq<Step<T>>,
    at: int,
)
    requires
        history(states, steps),
        0 <= at <= steps.len(),
    ensures
        states[at].wf(),
{
    if at > 0 {
        assert(takes(states[at - 1], steps[at - 1], states[at]));
    }
}

/// A handle that is held at one point of a history is held at every later
/// point up to which no step reclaims its cell, whoever else lets go of the
/// table or of a handle in between; and a table that holds a handle is not
/// torn down.
pub proof fn law_held_until_reclaimed<T: Eq + Hash>(
    states: Seq<HashConser<T>>,
    steps: Seq<Step<T>>,
    from: int,
    to: int,
    held: HashConsed<T>,
)
    requires
        history(states, steps),
        0 <= from <= to <= steps.len(),
        states[from].holds(&held),
        forall|k: int| from <= k < to ==> !reclaims(#[trigger] steps[k], held.id()),
    ensures
        states[to].wf(),
        states[to].holds(&held),
        states[to].table_refs() > 0,
    decreases to - from,
{
    law_wf_throughout(states, steps, to);
    states[to].lemma_cells();
    if from < to {
        law_held_until_reclaimed(states, steps, from, to - 1, held);
        assert(takes(states[to - 1], steps[to - 1], states[to]));
    }
}

/// Canonicalization. While a handle to a value is held, interning a
/// structurally equal value returns a handle to the same cell: the two
/// handles are identity-equal, and read the same value.
pub proof fn law_canonical<T: Eq + Hash>(
    pre: HashConser<T>,
    held: HashConsed<T>,
    obj: T,
    post: HashConser<T>,
    made: HashConsed<T>,
)
    requires
        pre.wf(),
        pre.holds(&held),
        held@ == obj,
        pre.interns(obj, post, made),
    ensures
        made.id() == held.id(),
        made.eq_spec(&held),
        made@ == held@,
        post.holds(&held),
        post.holds(&made),
{
}

/// Canonicalization, of any two calls in the life of a table: when `make`
/// interns structurally equal values at two points, and the cell of the first
/// handle is not reclaimed in between, the two handles are identity-equal.
pub proof fn law_canonical_throughout<T: Eq + Hash>(
    states: Seq<HashConser<T>>,
    steps: Seq<Step<T>>,
    first: int,
    second: int,
)
    requires
        history(states, steps),
        0 <= first < second < steps.len(),
        steps[first] is Made,
        steps[second] is Made,
        steps[first]->obj == steps[second]->obj,
        forall|k: int|
            first < k < second ==> !reclaims(#[trigger] steps[k], steps[first]->Made_handle.id()),
    ensures
        steps[first]->Made_handle.id() == steps[second]->Made_handle.id(),
        steps[first]->Made_handle.eq_spec(&steps[second]->Made_handle),
{
    let h1 = steps[first]->Made_handle;
    assert(takes(states[first], steps[first], states[first + 1]));
    assert(takes(states[second], steps[second], states[second + 1]));
    law_held_until_reclaimed(states, steps, first + 1, second, h1);
}

/// Distinctness. Among the handles that a table holds, identity equality is
/// structural equality of the values: handles to different values are never
/// identity-equal, handles to equal values always are.
pub proof fn law_distinct<T: Eq + Hash>(table: HashConser<T>, a: HashConsed<T>, b: HashConsed<T>)
    requires
        table.wf(),
        table.holds(&a),
        table.holds(&b),
    ensures
        (a.id() == b.id()) == (a@ == b@),
        a.eq_spec(&b) == (a@ == b@),
{
    table.lemma_cells();
}

/// Count conservation, one step: the count of a cell changes by the handles
/// that the step gives out and takes back, and by nothing else.
pub proof fn law_count_step<T: Eq + Hash>(
    pre: HashConser<T>,
    step: Step<T>,
    post: HashConser<T>,
    id: CellId,
)
    requires
        pre.wf(),
        takes(pre, step, post),
    ensures
        post.wf(),
        post.count_at(id) + takes_back(step, id) == pre.count_at(id) + gives(step, id),
{
    pre.lemma_cells();
    post.lemma_cells();
    if pre.live(id) {
        let v = pre.value_at(id);
        assert(pre.has_cell(v, id));
        match step {
            Step::Dropped { handle, left } => {
                if left > 0 || v != pre.value_at(handle.id()) {
                    assert(post.has_cell(v, id));
                }
            },
            _ => {
                assert(post.has_cell(v, id));
            },
        }
    }
}

/// Count conservation. At any point in the life of a table, the count of a
/// cell is what it was at the start, plus the handles to the cell that were
/// given out by `make` and `clone_handle`, minus those that `drop_handle`
/// took back. In a table that started out empty it is the number of handles
/// given out and not yet released.
pub proof fn law_count_conservation<T: Eq + Hash>(
    states: Seq<HashConser<T>>,
    steps: Seq<Step<T>>,
    id: CellId,
)
    requires
        history(states, steps),
    ensures
        states.last().wf(),
        states.last().count_at(id) + taken_back(steps, id) == states[0].count_at(id) + given(
            steps,
            id,
        ),
        states[0]@ == Map::<T, Entry>::empty() ==> states.last().count_at(id) == given(steps, id)
            - taken_back(steps, id),
    decreases steps.len(),
{
    if steps.len() > 0 {
        let n = steps.len() as int;
        law_count_conservation(states.drop_last(), steps.drop_last(), id);
        law_count_step(states[n - 1], steps[n - 1], states[n], id);
    }
}

/// Reclamation. Releasing the last handle to a value leaves the table without
/// an entry for the value, and one entry smaller. Interning the value again
/// creates a new cell: it counts one handle, and its identity is not that of
/// the cell that was reclaimed.
pub proof fn law_reclamation<T: Eq + Hash>(
    pre: HashConser<T>,
    last: HashConsed<T>,
    mid: HashConser<T>,
    post: HashConser<T>,
    again: HashConsed<T>,
)
    requires
        pre.wf(),
        pre.holds(&last),
        pre.releases(last, mid, 0),
        mid.interns(last@, post, again),
    ensures
        !mid@.contains_key(last@),
        mid@.len() + 1 == pre@.len(),
        post@[last@].count == 1,
        again.id() != last.id(),
        !again.eq_spec(&last),
{
    pre.lemma_cells();
}

/// The identity of a reclaimed cell stays spent, one step: whatever is done
/// to the table next, no cell gets the identity.
pub proof fn law_spent_step<T: Eq + Hash>(
    pre: HashConser<T>,
    step: Step<T>,
    post: HashConser<T>,
    id: CellId,
)
    requires
        pre.wf(),
        pre.spent(id),
        takes(pre, step, post),
    ensures
        post.wf(),
        post.spent(id),
        !post.live(id),
{
    post.lemma_cells();
}

/// No double release. Once the last handle to a cell was released, the table
/// has no cell with that identity, and never has one again, whatever is done
/// to the table afterwards: no handle to the cell can be released or cloned
/// any more, and `count` is zero for it.
pub proof fn law_no_double_release<T: Eq + Hash>(
    pre: HashConser<T>,
    last: HashConsed<T>,
    states: Seq<HashConser<T>>,
    steps: Seq<Step<T>>,
)
    requires
        pre.wf(),
        pre.live(last.id()),
        pre.releases(last, states[0], 0),
        history(states, steps),
    ensures
        states.last().wf(),
        states.last().spent(last.id()),
        !states.last().live(last.id()),
        states.last().count_at(last.id()) == 0,
    decreases steps.len(),
{
    if steps.len() == 0 {
        states[0].lemma_cells();
    } else {
        let n = steps.len() as int;
        law_no_double_release(pre, last, states.drop_last(), steps.drop_last());
        law_spent_step(states[n - 1], steps[n - 1], states[n], last.id());
    }
}

/// Deferred teardown. When an owner gives up its reference while a handle is
/// outstanding, the table is not torn down and nothing changes for the
/// handle: it is still held, its cell has the same value and the same count.
pub proof fn law_deferred_teardown<T: Eq + Hash>(
    pre: HashConser<T>,
    post: HashConser<T>,
    outstanding: HashConsed<T>,
)
    requires
        pre.wf(),
        pre.holds(&outstanding),
        pre.recounts(-1, post),
    ensures
        post.table_refs() > 0,
        post.holds(&outstanding),
        post.live(outstanding.id()),
        post.value_at(outstanding.id()) == outstanding@,
        post.count_at(outstanding.id()) == pre.count_at(outstanding.id()),
        post.count_at(outstanding.id()) >= 1,
{
    post.lemma_cells();
}

/// Teardown. The count of references to a table is at least the number of
/// its cells. A table whose count is zero is empty, and a table that no owner
/// refers to any more is torn down by the release of its last handle.
pub proof fn law_teardown<T: Eq + Hash>(
    pre: HashConser<T>,
    last: HashConsed<T>,
    post: HashConser<T>,
    left: usize,
)
    requires
        pre.wf(),
        pre.live(last.id()),
        pre.releases(last, post, left),
    ensures
        pre.table_refs() >= pre@.len(),
        post.table_refs() == 0 ==> post@ == Map::<T, Entry>::empty(),
        pre.table_refs() == pre@.len() && pre@.len() == 1 && left == 0 ==> post.table_refs() == 0,
        post.table_refs() == 0 ==> left == 0 && pre.table_refs() == pre@.len() && pre@.len() == 1,
{
    pre.lemma_cells();
}

} // verus!
