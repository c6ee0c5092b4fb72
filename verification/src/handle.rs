//! Handles: what a consumer holds to a canonical value.

use crate::cell::CellId;
use std::hash::Hash;
use std::hash::Hasher;
use std::ops::Deref;
use std::rc::Rc;
use vstd::prelude::*;
use vstd::std_specs::cmp::PartialEqSpecImpl;

verus! {

/// A handle to a hash-consed value.
///
/// It is made by a [`HashConser`](crate::HashConser) and refers to the single
/// cell that the table keeps for its value. Handles compare and hash by the
/// identity of that cell, in constant time, never by content. Comparing
/// handles that were made by different tables is meaningless.
#[derive(Debug)]
pub struct HashConsed<T: Eq + Hash> {
    value: Rc<T>,
    id: CellId,
}

impl<T: Eq + Hash> View for HashConsed<T> {
    type V = T;

    /// The value the handle refers to.
    closed spec fn view(&self) -> T {
        *self.value
    }
}

impl<T: Eq + Hash> HashConsed<T> {
    /// The identity of the cell the handle refers to.
    pub closed spec fn id(&self) -> CellId {
        self.id
    }

    /// A handle to the cell `id`, whose storage is `value`.
    pub(crate) fn of_cell(value: Rc<T>, id: CellId) -> (h: Self)
        ensures
            h@ == *value,
            h.id() == id,
    {
        HashConsed { value, id }
    }

    /// The identity of the cell the handle refers to.
    pub fn identity(&self) -> (id: CellId)
        ensures
            id == self.id(),
    {
        self.id
    }
}

/// Read access to the value.
impl<T: Eq + Hash> Deref for HashConsed<T> {
    type Target = T;

    fn deref(&self) -> (value: &T)
        ensures
            *value == self@,
    {
        &*self.value
    }
}

/// Fast comparison, by cell identity.
impl<T: Eq + Hash> PartialEq for HashConsed<T> {
    fn eq(&self, other: &Self) -> (same: bool) {
        self.id == other.id
    }
}

impl<T: Eq + Hash> PartialEqSpecImpl for HashConsed<T> {
    open spec fn obeys_eq_spec() -> bool {
        true
    }

    open spec fn eq_spec(&self, other: &Self) -> bool {
        self.id() == other.id()
    }
}

impl<T: Eq + Hash> Eq for HashConsed<T> {

}

/// Fast hash, of the cell identity.
impl<T: Eq + Hash> Hash for HashConsed<T> {
    /// `Hash::hash` of `std` for the pair of slot and stamp; the value is not
    /// read. The call is taken on trust, and nothing is claimed of what it
    /// feeds to the hasher.
    #[verifier::external_body]
    fn hash<H: Hasher>(&self, state: &mut H) {
        (self.id.slot, self.id.stamp).hash(state)
    }
}

} // verus!
