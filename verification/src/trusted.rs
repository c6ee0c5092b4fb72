//! The calls into `std` that the library takes on trust: sharing a canonical
//! value through `Rc`, the hash index keyed by shared values, and the `Debug`
//! text of a value.
//!
//! The index is a `HashMap` whose keys are of type `Rc<T>`. `vstd` says what a
//! `HashMap` does only for key types that it knows to obey its key model, and
//! it knows this of no `Rc<T>`. `Rc<T>` hashes and compares through `T`, and
//! borrows as `T`. So the three wrappers of the index state, for a `T` that
//! obeys the key model, what `HashMap` documents: a map keyed by the value.

use std::collections::HashMap;
use std::fmt::Debug;
use std::hash::Hash;
use std::rc::Rc;
use vstd::prelude::*;
use vstd::std_specs::hash::obeys_key_model;

verus! {

/// `Rc::clone`: another owner of the same allocation, hence of the same value.
#[verifier::external_body]
pub(crate) fn share<T>(value: &Rc<T>) -> (other: Rc<T>)
    ensures
        other == *value,
{
    Rc::clone(value)
}

/// `format!` with `{:?}`: the text that the `Debug` impl of `T` writes for the
/// value. Nothing is claimed of the text.
#[verifier::external_body]
pub(crate) fn debug_text<T: Debug>(value: &T) -> (text: String) {
    format!("{:?}", value)
}

/// `HashMap::get` on an index keyed by shared values: the slot recorded for a
/// value structurally equal to `key`, if there is one.
#[verifier::external_body]
pub(crate) fn lookup<T: Eq + Hash>(index: &HashMap<Rc<T>, usize>, key: &T) -> (found: Option<usize>)
    requires
        obeys_key_model::<T>(),
    ensures
        found == (if index@.contains_key(Rc::new(*key)) {
            Some(index@[Rc::new(*key)])
        } else {
            None::<usize>
        }),
{
    index.get(key).copied()
}

/// `HashMap::insert` on an index keyed by shared values: afterwards the index
/// maps `key` to `slot` and is otherwise unchanged.
#[verifier::external_body]
pub(crate) fn enroll<T: Eq + Hash>(index: &mut HashMap<Rc<T>, usize>, key: Rc<T>, slot: usize)
    requires
        obeys_key_model::<T>(),
    ensures
        final(index)@ == old(index)@.insert(key, slot),
{
    index.insert(key, slot);
}

/// `HashMap::remove` on an index keyed by shared values: afterwards the index
/// has no entry for a value structurally equal to `key` and is otherwise
/// unchanged.
#[verifier::external_body]
pub(crate) fn forget<T: Eq + Hash>(index: &mut HashMap<Rc<T>, usize>, key: &T)
    requires
        obeys_key_model::<T>(),
    ensures
        final(index)@ == old(index)@.remove(Rc::new(*key)),
{
    index.remove(key);
}

} // verus!
