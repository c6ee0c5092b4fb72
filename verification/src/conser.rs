//! The hash-consing table.

mod listing;

use crate::cell::{CellId, Entry, Slot};
use crate::handle::HashConsed;
use crate::trusted::{enroll, forget, lookup, share};
use std::collections::HashMap;
use std::hash::Hash;
use std::rc::Rc;
use vstd::pervasive::unreached;
use vstd::prelude::*;
use vstd::std_specs::hash::obeys_key_model;

verus! {

/// Hash-conser: the factory and cache of hash-consed values.
///
/// The table keeps at most one cell per distinct value. Its view maps every
/// value that has a cell to the identity of that cell and to the number of
/// handles that refer to it.
///
/// The table is itself reference counted: its creator holds one reference,
/// further owners `acquire` their own, and every cell holds one for as long as
/// it exists. The table is torn down when the count reaches zero.
pub struct HashConser<T: Eq + Hash> {
    /// The slot of every value that has a cell.
    index: HashMap<Rc<T>, usize>,
    /// The arena of cells.
    slots: Vec<Slot<T>>,
    /// The vacant slots, last vacated first.
    free: Vec<usize>,
    /// The number of cells.
    cells: usize,
    /// The number of references to the table.
    refs: usize,
}

impl<T: Eq + Hash> View for HashConser<T> {
    type V = Map<T, Entry>;

    closed spec fn view(&self) -> Map<T, Entry> {
        Map::new(
            |v: T| self.index@.contains_key(Rc::new(v)),
            |v: T| self.entry(self.index@[Rc::new(v)] as int),
        )
    }
}

impl<T: Eq + Hash> HashConser<T> {
    /// What the view records for the cell in slot `i`.
    spec fn entry(&self, i: int) -> Entry {
        match self.slots@[i] {
            Slot::Live { count, stamp, .. } => Entry {
                id: CellId { slot: i as usize, stamp },
                count: count as nat,
            },
            _ => Entry { id: CellId { slot: i as usize, stamp: 0 }, count: 0 },
        }
    }

    /// The value stored in slot `i`.
    spec fn stored(&self, i: int) -> T {
        *(self.slots@[i]->value)
    }

    /// The number of references to the table: one for each owner and one for
    /// each cell.
    pub closed spec fn table_refs(&self) -> nat {
        self.refs as nat
    }

    /// True if the table has a cell for `v` and `id` is its identity.
    pub open spec fn has_cell(&self, v: T, id: CellId) -> bool {
        self@.contains_key(v) && self@[v].id == id
    }

    /// True if the table has a cell with this identity.
    pub open spec fn live(&self, id: CellId) -> bool {
        exists|v: T| #[trigger] self.has_cell(v, id)
    }

    /// The value stored in the cell with this identity.
    pub open spec fn value_at(&self, id: CellId) -> T {
        choose|v: T| #[trigger] self.has_cell(v, id)
    }

    /// The number of handles that refer to the cell with this identity, zero
    /// if the table has no such cell.
    pub open spec fn count_at(&self, id: CellId) -> nat {
        if self.live(id) {
            self@[self.value_at(id)].count
        } else {
            0
        }
    }

    /// True of the identities of cells that the table has reclaimed. Such an
    /// identity is never given to another cell.
    pub closed spec fn spent(&self, id: CellId) -> bool {
        id.slot < self.slots@.len() && self.slots@[id.slot as int].outlived(id.stamp)
    }

    /// The identity that the next cell of the table will get.
    pub closed spec fn next_id(&self) -> CellId {
        if self.free@.len() > 0 {
            let slot = self.free@.last();
            CellId { slot, stamp: self.slots@[slot as int]->next }
        } else {
            CellId { slot: self.slots@.len() as usize, stamp: 0 }
        }
    }

    /// True of an identity that no cell of the table has or has had.
    pub open spec fn fresh(&self, id: CellId) -> bool {
        !self.live(id) && !self.spent(id)
    }

    /// True if the handle refers to a cell of this table and to its value.
    pub open spec fn holds(&self, h: &HashConsed<T>) -> bool {
        self.has_cell(h@, h.id())
    }

    /// Every indexed value sits in the slot the index names.
    spec fn index_sound(&self) -> bool {
        forall|k: Rc<T>| #[trigger]
            self.index@.contains_key(k) ==> self.index@[k] < self.slots@.len() && (
            match self.slots@[self.index@[k] as int] {
                Slot::Live { value, .. } => value == k,
                _ => false,
            })
    }

    /// Every cell is indexed under its value.
    spec fn index_complete(&self) -> bool {
        forall|i: int|
            0 <= i < self.slots@.len() ==> (match #[trigger] self.slots@[i] {
                Slot::Live { value, .. } => self.index@.contains_key(value) && self.index@[value]
                    == i,
                _ => true,
            })
    }

    /// The free list names vacant slots, each one once.
    spec fn free_sound(&self) -> bool {
        &&& forall|j: int|
            0 <= j < self.free@.len() ==> #[trigger] self.free@[j] < self.slots@.len()
                && self.slots@[self.free@[j] as int] is Vacant
        &&& forall|j: int, k: int|
            0 <= j < k < self.free@.len() ==> #[trigger] self.free@[j] != #[trigger] self.free@[k]
    }

    /// Every cell but the one in slot `except` has at least one handle.
    spec fn counted_but(&self, except: int) -> bool {
        forall|i: int|
            0 <= i < self.slots@.len() && i != except ==> (match #[trigger] self.slots@[i] {
                Slot::Live { count, .. } => count >= 1,
                _ => true,
            })
    }

    /// The representation invariant, but for the handle counts.
    spec fn structure(&self) -> bool {
        &&& obeys_key_model::<T>()
        &&& self.index_sound()
        &&& self.index_complete()
        &&& self.free_sound()
        &&& self@.dom().finite()
        &&& self.cells == self@.dom().len()
        &&& self.cells <= self.refs
    }

    /// The invariant of the table. Every operation of the table keeps it.
    pub closed spec fn wf(&self) -> bool {
        &&& self.structure()
        &&& self.counted_but(-1)
    }

    /// How the view and the identities read on the arena.
    proof fn lemma_arena(&self)
        requires
            self.index_sound(),
            self.index_complete(),
        ensures
            forall|v: T| #[trigger]
                self@.contains_key(v) ==> {
                    let i = self.index@[Rc::new(v)];
                    &&& self.index@.contains_key(Rc::new(v))
                    &&& i < self.slots@.len()
                    &&& self.slots@[i as int] matches Slot::Live { value, .. } && *value == v
                    &&& self@[v] == self.entry(i as int)
                },
            forall|k: Rc<T>| #[trigger] self.index@.contains_key(k) ==> self@.contains_key(*k),
            forall|id: CellId| #[trigger]
                self.live(id) <==> id.slot < self.slots@.len()
                    && self.slots@[id.slot as int].carries(id.stamp),
            forall|id: CellId| #[trigger]
                self.live(id) ==> (self.slots@[id.slot as int] matches Slot::Live { value, .. }
                    && *value == self.value_at(id)),
            forall|id: CellId| #[trigger] self.live(id) ==> self.has_cell(self.value_at(id), id),
    {
        assert forall|id: CellId|
            id.slot < self.slots@.len() && self.slots@[id.slot as int].carries(id.stamp)
            implies #[trigger] self.live(id) by {
            match self.slots@[id.slot as int] {
                Slot::Live { value, .. } => {
                    assert(self.has_cell(*value, id));
                },
                _ => {},
            }
        }
    }

    /// What the invariant says of the cells: each has at least one handle, an
    /// identity of its own that is not spent, and a reference to the table.
    pub proof fn lemma_cells(&self)
        requires
            self.wf(),
        ensures
            self@.dom().finite(),
            self@.len() <= self.table_refs(),
            forall|v: T| #[trigger]
                self@.contains_key(v) ==> {
                    &&& self@[v].count >= 1
                    &&& self.live(self@[v].id)
                    &&& self.value_at(self@[v].id) == v
                    &&& !self.spent(self@[v].id)
                },
            forall|id: CellId| #[trigger] self.live(id) ==> self.has_cell(self.value_at(id), id),
            forall|id: CellId| #[trigger] self.spent(id) ==> !self.live(id),
    {
        self.lemma_arena();
    }
}

impl<T: Eq + Hash> HashConser<T> {
    /// What `make` does to a table: `post` is the table after interning `obj`
    /// in `self`, and `h` the handle that was returned.
    ///
    /// The value has a cell afterwards, which counts `h`. If it had one
    /// before, that cell is kept and counts one handle more. If not, a cell is
    /// created under an identity that was never in use, and takes a reference
    /// to the table.
    ///
    /// What stands after "Hence" follows from the rest in a well-formed
    /// table. It is stated for the proofs of callers: no handle stops being
    /// held.
    pub open spec fn interns(self, obj: T, post: Self, h: HashConsed<T>) -> bool {
        &&& post.wf()
        &&& h@ == obj
        &&& post@ == self@.insert(
            obj,
            Entry {
                id: h.id(),
                count: if self@.contains_key(obj) {
                    self@[obj].count + 1
                } else {
                    1
                },
            },
        )
        &&& self@.contains_key(obj) ==> h.id() == self@[obj].id && post.table_refs()
            == self.table_refs()
        &&& !self@.contains_key(obj) ==> h.id() == self.next_id() && self.fresh(h.id())
            && post.table_refs() == self.table_refs() + 1
        &&& forall|id: CellId| post.spent(id) == self.spent(id)
        // Hence:
        &&& post.holds(&h)
        &&& forall|g: HashConsed<T>| #[trigger] self.holds(&g) ==> post.holds(&g)
    }

    /// What `clone_handle` does to a table: `post` is the table after `h` was
    /// cloned in `self`, and `r` the handle that was returned.
    ///
    /// The new handle refers to the cell of `h`, which counts one handle more.
    /// No handle stops being held.
    pub open spec fn shares(self, h: HashConsed<T>, post: Self, r: HashConsed<T>) -> bool {
        let v = self.value_at(h.id());
        &&& post.wf()
        &&& r.id() == h.id()
        &&& r@ == v
        &&& post@ == self@.insert(v, Entry { id: h.id(), count: self@[v].count + 1 })
        &&& post.table_refs() == self.table_refs()
        &&& forall|id: CellId| post.spent(id) == self.spent(id)
        // Hence:
        &&& self.holds(&h) ==> v == h@
        &&& post.holds(&r)
        &&& forall|g: HashConsed<T>| #[trigger] self.holds(&g) ==> post.holds(&g)
    }

    /// What `drop_handle` does to a table: `post` is the table after `h` was
    /// released in `self`, and `left` the number of handles that the cell
    /// still counts.
    ///
    /// The cell of `h` counts one handle less. When none is left the cell is
    /// reclaimed: the table has no entry for its value any more, the identity
    /// of the cell is spent, and the cell gives up its reference to the table.
    /// The handles to the cell stop being held then, and no others.
    pub open spec fn releases(self, h: HashConsed<T>, post: Self, left: usize) -> bool {
        let v = self.value_at(h.id());
        &&& post.wf()
        &&& left == self@[v].count - 1
        &&& left > 0 ==> {
            &&& post@ == self@.insert(v, Entry { id: h.id(), count: left as nat })
            &&& post.table_refs() == self.table_refs()
            &&& forall|id: CellId| post.spent(id) == self.spent(id)
        }
        &&& left == 0 ==> {
            &&& post@ == self@.remove(v)
            &&& post.table_refs() == self.table_refs() - 1
            &&& forall|id: CellId| post.spent(id) == (self.spent(id) || id == h.id())
        }
        // Hence:
        &&& self.holds(&h) ==> v == h@
        &&& forall|g: HashConsed<T>| #[trigger]
            self.holds(&g) ==> post.holds(&g) == (left > 0 || g.id() != h.id())
    }

    /// What `acquire` and `release` do to a table: `post` is the table after
    /// the number of references to `self` went up or down by `delta`. The
    /// cells are left alone.
    pub open spec fn recounts(self, delta: int, post: Self) -> bool {
        &&& post.wf()
        &&& post@ == self@
        &&& post.table_refs() == self.table_refs() + delta
        &&& forall|id: CellId| post.spent(id) == self.spent(id)
        // Hence:
        &&& forall|g: HashConsed<T>| #[trigger] self.holds(&g) == post.holds(&g)
    }

    /// Create a hash-conser. It is empty, and its creator holds the one
    /// reference to it.
    ///
    /// `T` must obey the key model of hash tables: its `==` is structural
    /// equality and its hash is deterministic.
    pub fn new() -> (table: Self)
        requires
            obeys_key_model::<T>(),
        ensures
            table.wf(),
            table@ == Map::<T, Entry>::empty(),
            table.table_refs() == 1,
            forall|id: CellId| !table.spent(id),
    {
        let table = HashConser {
            index: HashMap::new(),
            slots: Vec::new(),
            free: Vec::new(),
            cells: 0,
            refs: 1,
        };
        assert(table@ =~= Map::<T, Entry>::empty());
        table
    }

    /// Wrap the cell in slot `i` in a new handle, which the cell then counts.
    fn wrap(&mut self, i: usize) -> (h: HashConsed<T>)
        requires
            old(self).structure(),
            old(self).counted_but(i as int),
            i < old(self).slots@.len(),
            old(self).slots@[i as int] matches Slot::Live { count, .. } && count < usize::MAX,
        ensures
            final(self).wf(),
            final(self).refs == old(self).refs,
            forall|id: CellId| final(self).spent(id) == old(self).spent(id),
            old(self).slots@[i as int] matches Slot::Live { value, count, stamp } && h@ == *value
                && h.id() == (CellId { slot: i, stamp }) && final(self)@ == old(self)@.insert(
                *value,
                Entry { id: h.id(), count: (count + 1) as nat },
            ),
    {
        let h = match &mut self.slots[i] {
            Slot::Live { value, count, stamp } => {
                *count = *count + 1;
                HashConsed::of_cell(share(value), CellId { slot: i, stamp: *stamp })
            },
            _ => unreached(),
        };
        h
    }

    /// Give `value` a cell, which no handle counts yet, and index it. The cell
    /// takes a reference to the table. Returns the slot of the cell.
    fn register(&mut self, value: Rc<T>) -> (i: usize)
        requires
            old(self).wf(),
            !old(self)@.contains_key(*value),
            old(self).refs < usize::MAX,
        ensures
            final(self).structure(),
            final(self).counted_but(i as int),
            i < final(self).slots@.len(),
            final(self).slots@[i as int] matches Slot::Live { value: stored, count, stamp }
                && stored == value && count == 0 && old(self).fresh(CellId { slot: i, stamp })
                && old(self).next_id() == (CellId { slot: i, stamp }),
            final(self)@.remove(*value) == old(self)@,
            final(self).refs == old(self).refs + 1,
            forall|id: CellId| final(self).spent(id) == old(self).spent(id),
    {
        let i: usize;
        match self.free.pop() {
            Some(j) => {
                let stamp: u64 = match &self.slots[j] {
                    Slot::Vacant { next } => *next,
                    _ => unreached(),
                };
                self.slots[j] = Slot::Live { value: share(&value), count: 0, stamp };
                i = j;
            },
            None => {
                i = self.slots.len();
                self.slots.push(Slot::Live { value: share(&value), count: 0, stamp: 0 });
            },
        }
        let ghost v = self.stored(i as int);
        enroll(&mut self.index, value, i);
        proof {
            assert(self@.remove(v) =~= old(self)@);
        }
        self.cells = self.cells + 1;
        self.refs = self.refs + 1;
        i
    }

    /// Make a hash-consed value from an unwrapped value.
    ///
    /// If the table has a cell for a value structurally equal to `obj`, the
    /// handle refers to that cell and `obj` is discarded. If not, the table
    /// creates a cell for `obj`.
    ///
    /// The table must not have been torn down, and the count that goes up,
    /// of the cell or of the table, must have room for one more.
    pub fn make(&mut self, obj: T) -> (h: HashConsed<T>)
        requires
            old(self).wf(),
            old(self).table_refs() > 0,
            old(self)@.contains_key(obj) ==> old(self)@[obj].count < usize::MAX,
            !old(self)@.contains_key(obj) ==> old(self).table_refs() < usize::MAX,
        ensures
            old(self).interns(obj, *final(self), h),
    {
        let i = match lookup(&self.index, &obj) {
            Some(i) => i,
            None => self.register(Rc::new(obj)),
        };
        let h = self.wrap(i);
        proof {
            let added = Entry {
                id: h.id(),
                count: if old(self)@.contains_key(obj) {
                    old(self)@[obj].count + 1
                } else {
                    1
                },
            };
            assert(self@ =~= old(self)@.insert(obj, added));
        }
        h
    }

    /// A handle to the value that is structurally equal to `obj`, if the table
    /// has a cell for one. The table is not changed if it has none.
    ///
    /// `find` followed by `make` on `None` does what `make` does, and leaves
    /// `obj` with the caller when the table had the value already.
    pub fn find(&mut self, obj: &T) -> (found: Option<HashConsed<T>>)
        requires
            old(self).wf(),
            old(self)@.contains_key(*obj) ==> old(self)@[*obj].count < usize::MAX,
        ensures
            match found {
                Some(h) => old(self)@.contains_key(*obj) && old(self).interns(
                    *obj,
                    *final(self),
                    h,
                ),
                None => !old(self)@.contains_key(*obj) && *final(self) == *old(self),
            },
    {
        match lookup(&self.index, obj) {
            Some(i) => Some(self.wrap(i)),
            None => None,
        }
    }

    /// Get a new handle to the value of `h`.
    ///
    /// The table must have the cell of `h`, and the count of the cell must
    /// have room for one more.
    pub fn clone_handle(&mut self, h: &HashConsed<T>) -> (r: HashConsed<T>)
        requires
            old(self).wf(),
            old(self).live(h.id()),
            old(self).count_at(h.id()) < usize::MAX,
        ensures
            old(self).shares(*h, *final(self), r),
    {
        let id = h.identity();
        self.wrap(id.slot)
    }

    /// Take one handle off the count of the cell in slot `i`. Returns the
    /// number of handles that the cell still counts.
    fn dec_refs(&mut self, i: usize) -> (left: usize)
        requires
            old(self).wf(),
            i < old(self).slots@.len(),
            old(self).slots@[i as int] is Live,
        ensures
            final(self).structure(),
            final(self).counted_but(i as int),
            left > 0 ==> final(self).wf(),
            final(self).refs == old(self).refs,
            final(self).slots@.len() == old(self).slots@.len(),
            forall|id: CellId| final(self).spent(id) == old(self).spent(id),
            old(self).slots@[i as int] matches Slot::Live { value, count, stamp }
                && final(self).slots@[i as int] == (Slot::Live { value, count: left, stamp })
                && left == count - 1 && final(self)@ == old(self)@.insert(
                *value,
                Entry { id: CellId { slot: i, stamp }, count: left as nat },
            ),
    {
        let left = match &mut self.slots[i] {
            Slot::Live { count, .. } => {
                *count = *count - 1;
                *count
            },
            _ => unreached(),
        };
        left
    }

    /// Reclaim the cell in slot `i`, which no handle counts any more: take it
    /// out of the index, vacate its slot, and give up its reference to the
    /// table.
    fn remove(&mut self, i: usize)
        requires
            old(self).structure(),
            old(self).counted_but(i as int),
            i < old(self).slots@.len(),
            old(self).slots@[i as int] is Live,
        ensures
            final(self).wf(),
            final(self).refs == old(self).refs - 1,
            final(self)@ == old(self)@.remove(old(self).stored(i as int)),
            old(self).slots@[i as int] matches Slot::Live { stamp, .. } && forall|id: CellId|
                final(self).spent(id) == (old(self).spent(id) || id == (CellId { slot: i, stamp })),
    {
        let stamp: u64 = match &self.slots[i] {
            Slot::Live { value, stamp, .. } => {
                forget(&mut self.index, &**value);
                *stamp
            },
            _ => unreached(),
        };
        if stamp < u64::MAX {
            self.slots[i] = Slot::Vacant { next: stamp + 1 };
            self.free.push(i);
        } else {
            self.slots[i] = Slot::Retired;
        }
        proof {
            let v = old(self).stored(i as int);
            assert(self@.dom() =~= old(self)@.dom().remove(v));
        }
        self.cells = self.cells - 1;
        self.refs = self.refs - 1;
    }

    /// Release the handle `h`.
    ///
    /// Returns the number of handles that still refer to the value. When it is
    /// zero, the cell of the value has been reclaimed.
    ///
    /// The table must have the cell of `h`: a handle is released once, and
    /// releasing one more handle than a cell counts is an error. `count` tells
    /// whether the table has the cell, and `try_drop_handle` tests it first.
    pub fn drop_handle(&mut self, h: &HashConsed<T>) -> (left: usize)
        requires
            old(self).wf(),
            old(self).live(h.id()),
        ensures
            old(self).releases(*h, *final(self), left),
    {
        let id = h.identity();
        let left = self.dec_refs(id.slot);
        if left == 0 {
            let ghost mid = *self;
            self.remove(id.slot);
            proof {
                let v = old(self).value_at(h.id());
                assert(mid@.remove(v) =~= old(self)@.remove(v));
            }
        }
        left
    }

    /// Release the handle `h` if the table has its cell, as `drop_handle`
    /// does. If the table has no such cell, which is the case when the last
    /// handle to the cell was released before, nothing is changed and `None`
    /// is returned.
    pub fn try_drop_handle(&mut self, h: &HashConsed<T>) -> (outcome: Option<usize>)
        requires
            old(self).wf(),
        ensures
            match outcome {
                Some(left) => old(self).live(h.id()) && old(self).releases(
                    *h,
                    *final(self),
                    left,
                ),
                None => !old(self).live(h.id()) && *final(self) == *old(self),
            },
    {
        if self.count(h) > 0 {
            Some(self.drop_handle(h))
        } else {
            None
        }
    }

    /// Take another reference to the table, for a new owner.
    ///
    /// The table must not have been torn down, and the count must have room
    /// for one more.
    pub fn acquire(&mut self)
        requires
            old(self).wf(),
            0 < old(self).table_refs() < usize::MAX,
        ensures
            old(self).recounts(1, *final(self)),
    {
        self.refs = self.refs + 1;
        assert(self@ =~= old(self)@);
    }

    /// Give up a reference to the table that an owner holds.
    ///
    /// Returns true if it was the last reference of all. The table is then
    /// torn down, and it is empty: the cells hold references of their own, so
    /// the count cannot reach zero while a handle is outstanding.
    ///
    /// An owner must hold a reference: the count must exceed the number of
    /// cells. Giving up a reference that a cell holds is an error.
    pub fn release(&mut self) -> (torn_down: bool)
        requires
            old(self).wf(),
            old(self).table_refs() > old(self)@.len(),
        ensures
            old(self).recounts(-1, *final(self)),
            torn_down == (final(self).table_refs() == 0),
    {
        self.refs = self.refs - 1;
        assert(self@ =~= old(self)@);
        self.refs == 0
    }

    /// The number of references to the table.
    pub fn refs(&self) -> (n: usize)
        ensures
            n == self.table_refs(),
    {
        self.refs
    }

    /// The number of values that have a cell.
    pub fn len(&self) -> (n: usize)
        requires
            self.wf(),
        ensures
            n == self@.len(),
    {
        self.cells
    }

    /// The number of handles that refer to the cell of `h`; zero if the table
    /// has no such cell, as is the case once the last of them was released.
    pub fn count(&self, h: &HashConsed<T>) -> (n: usize)
        requires
            self.wf(),
        ensures
            n == self.count_at(h.id()),
            n > 0 <==> self.live(h.id()),
    {
        proof {
            self.lemma_arena();
        }
        let id = h.identity();
        if id.slot < self.slots.len() {
            match &self.slots[id.slot] {
                Slot::Live { count, stamp, .. } => {
                    if *stamp == id.stamp {
                        *count
                    } else {
                        0
                    }
                },
                _ => 0,
            }
        } else {
            0
        }
    }

    /// True if no value has a cell.
    pub fn is_empty(&self) -> (empty: bool)
        requires
            self.wf(),
        ensures
            empty == (self@.len() == 0),
    {
        self.cells == 0
    }

    /// The number of handles that refer to a value structurally equal to
    /// `obj`; zero if the table has no cell for it.
    pub fn count_of(&self, obj: &T) -> (n: usize)
        requires
            self.wf(),
        ensures
            n == (if self@.contains_key(*obj) {
                self@[*obj].count
            } else {
                0
            }),
            n > 0 <==> self@.contains_key(*obj),
    {
        match lookup(&self.index, obj) {
            Some(i) => match &self.slots[i] {
                Slot::Live { count, .. } => *count,
                _ => unreached(),
            },
            None => 0,
        }
    }

    /// The value stored in the cell with identity `id`, if the table has such
    /// a cell.
    pub fn get(&self, id: CellId) -> (found: Option<&T>)
        requires
            self.wf(),
        ensures
            match found {
                Some(value) => self.live(id) && *value == self.value_at(id),
                None => !self.live(id),
            },
    {
        proof {
            self.lemma_arena();
        }
        if id.slot < self.slots.len() {
            match &self.slots[id.slot] {
                Slot::Live { value, stamp, .. } => {
                    if *stamp == id.stamp {
                        Some(&**value)
                    } else {
                        None
                    }
                },
                _ => None,
            }
        } else {
            None
        }
    }
}

} // verus!
