//! The listing of a table: which values it names, in which order, and the
//! text that renders them.

use super::HashConser;
use crate::cell::Slot;
use crate::render::{entries_of, listing, render_entries};
use crate::trusted::debug_text;
use std::fmt::Debug;
use std::hash::Hash;
use std::rc::Rc;
use vstd::prelude::*;

verus! {

impl<T: Eq + Hash> HashConser<T> {
    /// The values in the first `n` slots, in the order of the slots.
    spec fn roster_upto(&self, n: int) -> Seq<T>
        decreases n,
    {
        if n <= 0 {
            Seq::empty()
        } else if self.slots@[n - 1] is Live {
            self.roster_upto(n - 1).push(self.stored(n - 1))
        } else {
            self.roster_upto(n - 1)
        }
    }

    /// The values that have a cell, in the order in which `render` lists them.
    pub closed spec fn roster(&self) -> Seq<T> {
        self.roster_upto(self.slots@.len() as int)
    }

    /// What `render` lists when `texts` are the texts of the values of the
    /// roster: for each value its text and the number of its handles.
    pub open spec fn described(&self, texts: Seq<Seq<char>>) -> Seq<(Seq<char>, nat)> {
        Seq::new(self.roster().len(), |k: int| (texts[k], self@[self.roster()[k]].count))
    }

    /// The first `n` slots contribute their values to the roster, each once.
    proof fn lemma_roster_upto(&self, n: int)
        requires
            self.index_sound(),
            self.index_complete(),
            0 <= n <= self.slots@.len(),
        ensures
            self.roster_upto(n).no_duplicates(),
            forall|v: T| #[trigger]
                self.roster_upto(n).contains(v) <==> self@.contains_key(v) && self.index@[Rc::new(
                    v,
                )] < n,
        decreases n,
    {
        if n > 0 {
            self.lemma_roster_upto(n - 1);
            let rest = self.roster_upto(n - 1);
            if self.slots@[n - 1] is Live {
                let last = self.stored(n - 1);
                let all = rest.push(last);
                assert(!rest.contains(last));
                assert forall|v: T| #[trigger] all.contains(v) <==> self@.contains_key(v)
                    && self.index@[Rc::new(v)] < n by {
                    if all.contains(v) {
                        let k = choose|k: int| 0 <= k < all.len() && all[k] == v;
                        if k < rest.len() {
                            assert(rest.contains(v));
                        }
                    }
                    if self@.contains_key(v) && self.index@[Rc::new(v)] < n {
                        if self.index@[Rc::new(v)] == n - 1 {
                            assert(all[rest.len() as int] == v);
                        } else {
                            assert(rest.contains(v));
                            let k = choose|k: int| 0 <= k < rest.len() && rest[k] == v;
                            assert(all[k] == v);
                        }
                    }
                }
            }
        }
    }

    /// The roster names every value that has a cell, each once.
    pub proof fn lemma_roster(&self)
        requires
            self.wf(),
        ensures
            self.roster().no_duplicates(),
            self.roster().len() == self@.len(),
            forall|v: T| #[trigger] self.roster().contains(v) <==> self@.contains_key(v),
    {
        self.lemma_roster_upto(self.slots@.len() as int);
        self.roster().unique_seq_to_set();
        assert(self.roster().to_set() =~= self@.dom());
    }

    /// The textual rendering of the table: a brace-delimited, comma-separated
    /// listing of the values that have a cell, each followed by the number of
    /// its handles in round brackets.
    ///
    /// The text of a value is what its `Debug` impl writes.
    pub fn render(&self) -> (text: String) where T: Debug
        requires
            self.wf(),
        ensures
            exists|texts: Seq<Seq<char>>| #[trigger]
                texts.len() == self.roster().len() && text@ == listing(self.described(texts)),
    {
        let mut entries: Vec<(String, usize)> = Vec::new();
        let ghost mut texts: Seq<Seq<char>> = Seq::empty();
        let mut i: usize = 0;
        while i < self.slots.len()
            invariant
                self.index_sound(),
                self.index_complete(),
                i <= self.slots@.len(),
                texts.len() == self.roster_upto(i as int).len(),
                entries_of(entries@) == Seq::new(
                    self.roster_upto(i as int).len(),
                    |k: int| (texts[k], self@[self.roster_upto(i as int)[k]].count),
                ),
            decreases self.slots.len() - i,
        {
            let ghost before = entries@;
            match &self.slots[i] {
                Slot::Live { value, count, .. } => {
                    let described = debug_text(&**value);
                    let ghost known = texts;
                    proof {
                        texts = texts.push(described@);
                    }
                    entries.push((described, *count));
                    proof {
                        let prior = self.roster_upto(i as int);
                        let upto = self.roster_upto(i as int + 1);
                        let listed = Seq::new(
                            upto.len(),
                            |k: int| (texts[k], self@[upto[k]].count),
                        );
                        assert(entries_of(before).len() == before.len());
                        assert forall|k: int| 0 <= k < upto.len() implies entries_of(entries@)[k]
                            == listed[k] by {
                            if k < before.len() {
                                assert(entries_of(before)[k] == (
                                    known[k],
                                    self@[prior[k]].count,
                                ));
                            }
                        }
                    }
                },
                _ => {},
            }
            i = i + 1;
        }
        render_entries(&entries)
    }
}

} // verus!
