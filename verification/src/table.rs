//! A table of values found by name.
//!
//! Each name is given a slot the first time it is seen and keeps it for good,
//! so a value can be changed in place once its slot is known.

use vstd::prelude::*;
use vstd::hash_map::StringHashMap;

verus! {

/// Values of type `V`, each under a name.
pub(crate) struct NameTable<V> {
    pub(crate) index: StringHashMap<usize>,
    pub(crate) slots: Vec<V>,
}

impl<V> NameTable<V> {
    /// Every name leads to a slot of its own.
    pub(crate) open spec fn inv(&self) -> bool {
        &&& forall|n: Seq<char>| #[trigger]
            self.index@.contains_key(n) ==> self.index@[n] < self.slots.len()
        &&& forall|n: Seq<char>, m: Seq<char>|
            #![trigger self.index@[n], self.index@[m]]
            self.index@.contains_key(n) && self.index@.contains_key(m) && self.index@[n]
                == self.index@[m] ==> n == m
    }

    /// Whether `n` has a slot.
    pub(crate) open spec fn has(&self, n: Seq<char>) -> bool {
        self.index@.contains_key(n)
    }

    /// The slot of `n`.
    pub(crate) open spec fn slot(&self, n: Seq<char>) -> int {
        self.index@[n] as int
    }

    /// An empty table.
    pub(crate) fn new() -> (r: Self)
        ensures
            r.inv(),
            r.slots@.len() == 0,
            forall|n: Seq<char>| !r.has(n),
    {
        NameTable { index: StringHashMap::new(), slots: Vec::new() }
    }

    /// The slot of `name`, if it has one.
    pub(crate) fn find(&self, name: &String) -> (r: Option<usize>)
        requires
            self.inv(),
        ensures
            match r {
                Some(k) => self.has(name@) && self.slot(name@) == k && k < self.slots.len(),
                None => !self.has(name@),
            },
    {
        match self.index.get(name.as_str()) {
            Some(k) => Some(*k),
            None => None,
        }
    }

    /// The slot of `name`, which gets a new slot holding `fresh` if it had
    /// none.
    pub(crate) fn find_or_add(&mut self, name: &String, fresh: V) -> (k: usize)
        requires
            old(self).inv(),
        ensures
            final(self).inv(),
            final(self).has(name@),
            final(self).slot(name@) == k,
            k < final(self).slots.len(),
            old(self).has(name@) ==> final(self).index@ == old(self).index@ && final(self).slots@
                == old(self).slots@,
            !old(self).has(name@) ==> final(self).index@ == old(self).index@.insert(
                name@,
                old(self).slots.len(),
            ) && final(self).slots@ == old(self).slots@.push(fresh),
    {
        match self.index.get(name.as_str()) {
            Some(k) => *k,
            None => {
                let k: usize = self.slots.len();
                self.slots.push(fresh);
                self.index.insert(name.clone(), k);
                k
            },
        }
    }
}

} // verus!
