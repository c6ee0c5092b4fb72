use hashcons::{CellId, HashConsed, HashConser};
use std::cell::Cell;
use std::collections::HashSet;
use std::hash::{Hash, Hasher};
use std::rc::Rc;

#[derive(Debug, PartialEq, Eq, Hash)]
struct Pair(u8, u8);

/// A value that counts how many of its kind were dropped.
struct Counted {
    key: u8,
    dropped: Rc<Cell<usize>>,
}

impl PartialEq for Counted {
    fn eq(&self, other: &Self) -> bool {
        self.key == other.key
    }
}

impl Eq for Counted {}

impl Hash for Counted {
    fn hash<H: Hasher>(&self, state: &mut H) {
        self.key.hash(state);
    }
}

impl Drop for Counted {
    fn drop(&mut self) {
        self.dropped.set(self.dropped.get() + 1);
    }
}

#[test]
fn a_duplicate_is_discarded_and_a_reclaimed_value_is_freed() {
    let dropped = Rc::new(Cell::new(0));
    let mut conser = HashConser::new();
    let a = conser.make(Counted { key: 1, dropped: Rc::clone(&dropped) });
    assert_eq!(dropped.get(), 0);
    let b = conser.make(Counted { key: 1, dropped: Rc::clone(&dropped) });
    assert_eq!(dropped.get(), 1);
    assert!(a == b);
    assert_eq!(conser.drop_handle(&a), 1);
    drop(a);
    assert_eq!(dropped.get(), 1);
    assert_eq!(conser.drop_handle(&b), 0);
    assert_eq!(b.key, 1);
    assert_eq!(dropped.get(), 1);
    drop(b);
    assert_eq!(dropped.get(), 2);
    assert!(conser.is_empty());
}

#[test]
fn new_table_is_empty_and_owned_once() {
    let conser: HashConser<Pair> = HashConser::new();
    assert_eq!(conser.len(), 0);
    assert!(conser.is_empty());
    assert_eq!(conser.refs(), 1);
    assert_eq!(conser.count_of(&Pair(0, 1)), 0);
}

#[test]
fn equal_values_share_one_cell() {
    let mut conser = HashConser::new();
    let a = conser.make(Pair(0, 1));
    assert_eq!(conser.count(&a), 1);
    let b = conser.make(Pair(0, 1));
    assert_eq!(a.identity(), b.identity());
    assert!(a == b);
    assert!(std::ptr::eq(&*a, &*b));
    assert_eq!(conser.len(), 1);
    assert_eq!(conser.count(&a), 2);
    assert_eq!(conser.count(&b), 2);
    assert_eq!(conser.count_of(&Pair(0, 1)), 2);
}

#[test]
fn make_keeps_the_first_value() {
    let mut conser = HashConser::new();
    let first = Box::new(7u32);
    let second = Box::new(7u32);
    let first_at = format!("{:p}", &*first);
    let second_at = format!("{:p}", &*second);
    assert_ne!(first_at, second_at);
    let a = conser.make(first);
    let b = conser.make(second);
    assert_eq!(format!("{:p}", &**a), first_at);
    assert_eq!(format!("{:p}", &**b), first_at);
}

#[test]
fn different_values_get_different_cells() {
    let mut conser = HashConser::new();
    let a = conser.make(Pair(0, 1));
    let b = conser.make(Pair(0, 2));
    assert!(a != b);
    assert_ne!(a.identity(), b.identity());
    assert_ne!(*a, *b);
    assert_eq!(*a, Pair(0, 1));
    assert_eq!(*b, Pair(0, 2));
    assert!(!std::ptr::eq(&*a, &*b));
    assert_eq!(conser.len(), 2);
    assert_eq!(conser.count(&a), 1);
    assert_eq!(conser.count(&b), 1);
}

#[test]
fn a_cell_takes_a_reference_to_the_table() {
    let mut conser = HashConser::new();
    assert_eq!(conser.refs(), 1);
    let a = conser.make(Pair(1, 1));
    assert_eq!(conser.refs(), 2);
    let b = conser.make(Pair(1, 1));
    assert_eq!(conser.refs(), 2);
    let c = conser.make(Pair(2, 2));
    assert_eq!(conser.refs(), 3);
    assert_eq!(conser.drop_handle(&a), 1);
    assert_eq!(conser.refs(), 3);
    assert_eq!(conser.drop_handle(&b), 0);
    assert_eq!(conser.refs(), 2);
    assert_eq!(conser.drop_handle(&c), 0);
    assert_eq!(conser.refs(), 1);
}

#[test]
fn clone_handle_counts_one_more() {
    let mut conser = HashConser::new();
    let a = conser.make(Pair(3, 4));
    let b = conser.clone_handle(&a);
    assert!(a == b);
    assert_eq!(a.identity(), b.identity());
    assert!(std::ptr::eq(&*a, &*b));
    assert_eq!(*b, Pair(3, 4));
    assert_eq!(conser.count(&a), 2);
    assert_eq!(conser.len(), 1);
    assert_eq!(conser.refs(), 2);
    let c = conser.clone_handle(&b);
    assert_eq!(conser.count(&c), 3);
}

#[test]
fn count_follows_handles_given_out_and_released() {
    let mut conser = HashConser::new();
    let a = conser.make(Pair(5, 5));
    let b = conser.make(Pair(5, 5));
    let c = conser.clone_handle(&a);
    let d = conser.clone_handle(&c);
    assert_eq!(conser.count(&a), 4);
    assert_eq!(conser.drop_handle(&b), 3);
    assert_eq!(conser.count(&a), 3);
    let e = conser.make(Pair(5, 5));
    assert_eq!(conser.count(&a), 4);
    assert_eq!(conser.drop_handle(&a), 3);
    assert_eq!(conser.drop_handle(&c), 2);
    assert_eq!(conser.drop_handle(&d), 1);
    assert_eq!(conser.count(&e), 1);
    assert_eq!(conser.drop_handle(&e), 0);
    assert_eq!(conser.count(&e), 0);
}

#[test]
fn last_release_reclaims_the_cell() {
    let mut conser = HashConser::new();
    let a = conser.make(Pair(0, 1));
    let b = conser.make(Pair(0, 2));
    assert_eq!(conser.len(), 2);
    assert_eq!(conser.drop_handle(&a), 0);
    assert_eq!(conser.len(), 1);
    assert_eq!(conser.count_of(&Pair(0, 1)), 0);
    assert_eq!(conser.count(&a), 0);
    assert!(conser.get(a.identity()).is_none());
    assert_eq!(conser.count(&b), 1);
    assert_eq!(conser.get(b.identity()), Some(&Pair(0, 2)));
}

#[test]
fn interning_again_after_reclamation_makes_a_new_cell() {
    let mut conser = HashConser::new();
    let old = conser.make(Pair(9, 9));
    assert_eq!(conser.drop_handle(&old), 0);
    let new = conser.make(Pair(9, 9));
    assert_ne!(old.identity(), new.identity());
    assert!(old != new);
    assert_eq!(conser.count(&new), 1);
    assert_eq!(conser.count(&old), 0);
    assert_eq!(conser.len(), 1);
    assert_eq!(*new, Pair(9, 9));
}

#[test]
fn a_vacated_slot_is_reused_under_a_larger_stamp() {
    let mut conser = HashConser::new();
    let a = conser.make(Pair(1, 0));
    let b = conser.make(Pair(2, 0));
    assert_eq!(a.identity(), CellId { slot: 0, stamp: 0 });
    assert_eq!(b.identity(), CellId { slot: 1, stamp: 0 });
    assert_eq!(conser.drop_handle(&a), 0);
    let c = conser.make(Pair(3, 0));
    assert_eq!(c.identity(), CellId { slot: 0, stamp: 1 });
    let d = conser.make(Pair(4, 0));
    assert_eq!(d.identity(), CellId { slot: 2, stamp: 0 });
    assert_eq!(conser.drop_handle(&b), 0);
    assert_eq!(conser.drop_handle(&c), 0);
    let e = conser.make(Pair(5, 0));
    assert_eq!(e.identity(), CellId { slot: 0, stamp: 2 });
    let f = conser.make(Pair(6, 0));
    assert_eq!(f.identity(), CellId { slot: 1, stamp: 1 });
    assert_eq!(conser.count(&a), 0);
    assert_eq!(conser.count(&c), 0);
    assert_eq!(conser.count(&e), 1);
    assert_eq!(conser.len(), 3);
}

#[test]
fn a_released_handle_cannot_be_released_again() {
    let mut conser = HashConser::new();
    let a = conser.make(Pair(0, 1));
    assert_eq!(conser.drop_handle(&a), 0);
    assert_eq!(conser.count(&a), 0);
    let b = conser.make(Pair(7, 7));
    assert_eq!(conser.count(&a), 0);
    assert_eq!(conser.count(&b), 1);
    assert_eq!(conser.drop_handle(&b), 0);
    assert_eq!(conser.count(&a), 0);
    assert_eq!(conser.count(&b), 0);
}

#[test]
fn acquire_and_release_count_the_owners() {
    let mut conser: HashConser<Pair> = HashConser::new();
    conser.acquire();
    assert_eq!(conser.refs(), 2);
    conser.acquire();
    assert_eq!(conser.refs(), 3);
    assert!(!conser.release());
    assert_eq!(conser.refs(), 2);
    assert!(!conser.release());
    assert!(conser.release());
    assert_eq!(conser.refs(), 0);
    assert!(conser.is_empty());
}

#[test]
fn teardown_waits_for_the_last_handle() {
    let mut conser = HashConser::new();
    let a = conser.make(Pair(0, 1));
    let b = conser.make(Pair(0, 1));
    assert!(a == b);
    assert!(std::ptr::eq(&*a, &*b));
    assert!(!conser.release());
    assert_eq!(conser.refs(), 1);
    assert_eq!(conser.refs(), conser.len());
    assert!(a == b);
    assert_eq!(*a, Pair(0, 1));
    assert_eq!(conser.count(&a), 2);
    let c = conser.clone_handle(&a);
    assert_eq!(conser.count(&c), 3);
    assert_eq!(conser.drop_handle(&c), 2);
    assert_eq!(conser.drop_handle(&a), 1);
    assert_eq!(conser.refs(), 1);
    assert_eq!(*b, Pair(0, 1));
    assert_eq!(conser.drop_handle(&b), 0);
    assert_eq!(conser.refs(), 0);
    assert!(conser.is_empty());
    assert_eq!(conser.len(), 0);
}

#[test]
fn handles_outlive_the_table() {
    let mut conser = HashConser::new();
    let a = conser.make(Pair(4, 2));
    let b = conser.clone_handle(&a);
    drop(conser);
    assert_eq!(*a, Pair(4, 2));
    assert_eq!(a.0 + a.1, 6);
    assert!(a == b);
    assert!(std::ptr::eq(&*a, &*b));
}

#[test]
fn get_reads_the_value_of_a_cell() {
    let mut conser = HashConser::new();
    let a = conser.make(Pair(8, 1));
    let found = conser.get(a.identity());
    assert_eq!(found, Some(&Pair(8, 1)));
    assert!(std::ptr::eq(found.unwrap(), &*a));
    assert!(conser.get(CellId { slot: 0, stamp: 1 }).is_none());
    assert!(conser.get(CellId { slot: 1, stamp: 0 }).is_none());
}

#[test]
fn handles_hash_by_identity() {
    let mut conser = HashConser::new();
    let a = conser.make(Pair(0, 1));
    let b = conser.make(Pair(0, 1));
    let c = conser.make(Pair(0, 2));
    let a_id = a.identity();
    let c_id = c.identity();
    let mut seen: HashSet<HashConsed<Pair>> = HashSet::new();
    assert!(seen.insert(a));
    assert!(seen.contains(&b));
    assert!(!seen.contains(&c));
    assert!(!seen.insert(b));
    assert!(seen.insert(c));
    assert_eq!(seen.len(), 2);
    let ids: HashSet<CellId> = seen.iter().map(|h| h.identity()).collect();
    assert_eq!(ids.len(), 2);
    assert!(ids.contains(&a_id));
    assert!(ids.contains(&c_id));
}

#[test]
fn many_values_many_handles() {
    let mut conser = HashConser::new();
    let mut handles: Vec<HashConsed<Pair>> = Vec::new();
    for round in 0..3u8 {
        for x in 0..50u8 {
            handles.push(conser.make(Pair(x, x / 2)));
            assert_eq!(conser.count_of(&Pair(x, x / 2)), usize::from(round) + 1);
        }
    }
    assert_eq!(conser.len(), 50);
    assert_eq!(conser.refs(), 51);
    for (k, h) in handles.iter().enumerate() {
        assert_eq!(h.identity(), handles[k % 50].identity());
    }
    for (k, h) in handles.iter().enumerate() {
        let left = conser.drop_handle(h);
        assert_eq!(left, 2 - k / 50);
    }
    assert!(conser.is_empty());
    assert_eq!(conser.refs(), 1);
    assert!(conser.release());
}

#[test]
fn find_returns_a_handle_only_to_a_known_value() {
    let mut conser = HashConser::new();
    assert!(conser.find(&Pair(0, 1)).is_none());
    assert_eq!(conser.len(), 0);
    assert_eq!(conser.refs(), 1);
    let a = conser.make(Pair(0, 1));
    let b = conser.find(&Pair(0, 1)).unwrap();
    assert!(a == b);
    assert!(std::ptr::eq(&*a, &*b));
    assert_eq!(conser.count(&a), 2);
    assert_eq!(conser.refs(), 2);
    assert!(conser.find(&Pair(0, 2)).is_none());
    assert_eq!(conser.len(), 1);
    assert_eq!(conser.drop_handle(&a), 1);
    assert_eq!(conser.drop_handle(&b), 0);
    assert!(conser.find(&Pair(0, 1)).is_none());
}

#[test]
fn a_second_release_is_refused() {
    let mut conser = HashConser::new();
    let a = conser.make(Pair(0, 1));
    let b = conser.make(Pair(0, 2));
    assert_eq!(conser.try_drop_handle(&a), Some(0));
    assert_eq!(conser.try_drop_handle(&a), None);
    assert_eq!(conser.len(), 1);
    assert_eq!(conser.refs(), 2);
    assert_eq!(conser.count(&b), 1);
    let c = conser.make(Pair(0, 3));
    assert_eq!(a.identity().slot, c.identity().slot);
    assert_eq!(conser.try_drop_handle(&a), None);
    assert_eq!(conser.count(&c), 1);
    assert_eq!(conser.try_drop_handle(&c), Some(0));
    assert_eq!(conser.try_drop_handle(&b), Some(0));
    assert_eq!(conser.try_drop_handle(&b), None);
    assert!(conser.is_empty());
    assert_eq!(conser.refs(), 1);
}
