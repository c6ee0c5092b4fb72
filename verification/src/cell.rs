//! Backing cells: the storage behind a canonical value.

use std::rc::Rc;
use vstd::prelude::*;

verus! {

/// The identity of a backing cell: the arena slot that stores it and the
/// generation stamp the slot carried when the cell was created. Two handles
/// denote the same cell exactly when their identities are equal.
#[derive(Clone, Copy, PartialEq, Eq, Structural, Hash, Debug)]
pub struct CellId {
    pub slot: usize,
    pub stamp: u64,
}

/// What a table records about one canonical value: the identity of its cell
/// and the number of handles that currently refer to it.
pub struct Entry {
    pub id: CellId,
    pub count: nat,
}

/// One arena slot.
///
/// A slot starts out `Live`, becomes `Vacant` when its cell is reclaimed and
/// may then be reused under a larger stamp. A slot whose stamps are used up is
/// `Retired` and never holds a cell again.
pub(crate) enum Slot<T> {
    Live { value: Rc<T>, count: usize, stamp: u64 },
    Vacant { next: u64 },
    Retired,
}

impl<T> Slot<T> {
    /// True of every identity this slot has issued and will never issue again.
    pub(crate) open spec fn outlived(self, stamp: u64) -> bool {
        match self {
            Slot::Live { stamp: current, .. } => stamp < current,
            Slot::Vacant { next } => stamp < next,
            Slot::Retired => true,
        }
    }

    /// True if the slot holds a cell that carries `stamp`.
    pub(crate) open spec fn carries(self, stamp: u64) -> bool {
        self matches Slot::Live { stamp: current, .. } && current == stamp
    }
}

} // verus!
