//! What the role registry keeps per role: the accounts that hold it.

use vstd::prelude::*;
use crate::ledger::Identity;
use crate::lists::{add_name, copy_names, position_of_name, remove_name, texts};
use crate::table::NameTable;

verus! {

/// The holders of all roles, by role name.
pub(crate) struct Members {
    pub(crate) table: NameTable<Vec<String>>,
}

impl Members {
    /// No holder of a role is listed twice.
    pub(crate) open spec fn inv(&self) -> bool {
        &&& self.table.inv()
        &&& forall|k: int|
            0 <= k < self.table.slots.len() ==> texts(
                (#[trigger] self.table.slots[k])@,
            ).no_duplicates()
    }

    /// Whether `role` was ever assigned.
    pub(crate) open spec fn known(&self, role: Seq<char>) -> bool {
        self.table.has(role)
    }

    /// The holders of `role` as they are listed.
    pub(crate) open spec fn listed(&self, role: Seq<char>) -> Seq<Identity> {
        if self.table.has(role) {
            texts(self.table.slots[self.table.slot(role)]@)
        } else {
            Seq::empty()
        }
    }

    /// No roles.
    pub(crate) fn new() -> (r: Self)
        ensures
            r.inv(),
            forall|role: Seq<char>| !r.known(role),
    {
        Members { table: NameTable::new() }
    }

    /// Whether `user` is listed under `role`.
    pub(crate) fn contains(&self, role: &String, user: &String) -> (r: bool)
        requires
            self.inv(),
        ensures
            r == self.listed(role@).contains(user@),
    {
        match self.table.find(role) {
            Some(k) => position_of_name(&self.table.slots[k], user).is_some(),
            None => false,
        }
    }

    /// A copy of the holders of `role`.
    pub(crate) fn list(&self, role: &String) -> (r: Vec<String>)
        requires
            self.inv(),
        ensures
            texts(r@) == self.listed(role@),
            texts(r@).no_duplicates(),
    {
        match self.table.find(role) {
            Some(k) => copy_names(&self.table.slots[k]),
            None => {
                let r: Vec<String> = Vec::new();
                assert(texts(r@) =~= Seq::<Identity>::empty());
                r
            },
        }
    }

    /// The holders of all roles but `role` are listed in `self` as they are
    /// in `before`, where only the list of `role` has changed.
    proof fn lemma_others_untouched(&self, before: &Members, role: Seq<char>, k: int)
        requires
            before.inv(),
            before.table.has(role),
            before.table.slot(role) == k,
            self.table.index@ == before.table.index@,
            self.table.slots@.len() == before.table.slots@.len(),
            forall|j: int|
                0 <= j < before.table.slots@.len() && j != k ==> self.table.slots@[j]
                    == before.table.slots@[j],
        ensures
            forall|other: Seq<char>|
                other != role ==> #[trigger] self.listed(other) == before.listed(other),
    {
        assert forall|other: Seq<char>| other != role implies #[trigger] self.listed(other)
            == before.listed(other) by {
            if before.table.has(other) {
                assert(before.table.index@[other] != before.table.index@[role]);
            }
        }
    }

    /// Lists `user` under `role` unless it is listed there; says whether it
    /// was added.
    pub(crate) fn add(&mut self, role: &String, user: &String) -> (added: bool)
        requires
            old(self).inv(),
        ensures
            final(self).inv(),
            added == !old(self).listed(role@).contains(user@),
            final(self).known(role@),
            final(self).listed(role@).to_set() == old(self).listed(role@).to_set().insert(user@),
            forall|other: Seq<char>|
                other != role@ ==> #[trigger] final(self).known(other) == old(self).known(other),
            forall|other: Seq<char>|
                other != role@ ==> #[trigger] final(self).listed(other) == old(self).listed(other),
    {
        let k: usize = self.table.find_or_add(role, Vec::new());
        let ghost mid = *self;
        proof {
            assert(texts(Seq::<String>::empty()) =~= Seq::<Identity>::empty());
            assert(mid.listed(role@) =~= old(self).listed(role@));
            assert forall|other: Seq<char>| other != role@ implies #[trigger] mid.listed(other)
                == old(self).listed(other) by {
            }
        }
        let added = add_name(&mut self.table.slots[k], user);
        proof {
            self.lemma_others_untouched(&mid, role@, k as int);
        }
        added
    }

    /// Strikes `user` from the holders of `role` if it is listed there; says
    /// whether it was struck.
    pub(crate) fn remove(&mut self, role: &String, user: &String) -> (removed: bool)
        requires
            old(self).inv(),
        ensures
            final(self).inv(),
            removed == old(self).listed(role@).contains(user@),
            forall|other: Seq<char>| #[trigger] final(self).known(other) == old(self).known(other),
            final(self).listed(role@).to_set() == old(self).listed(role@).to_set().remove(user@),
            forall|other: Seq<char>|
                other != role@ ==> #[trigger] final(self).listed(other) == old(self).listed(other),
    {
        match self.table.find(role) {
            Some(k) => {
                let removed = remove_name(&mut self.table.slots[k], user);
                proof {
                    self.lemma_others_untouched(old(self), role@, k as int);
                }
                removed
            },
            None => {
                assert(old(self).listed(role@).to_set() =~= old(self).listed(role@).to_set().remove(
                    user@,
                ));
                false
            },
        }
    }
}

} // verus!
