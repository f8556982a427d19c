//! What the token registry keeps per account: the tokens it holds, their
//! count, and the operators it has approved.

use vstd::prelude::*;
use crate::ledger::Identity;
use crate::lists::{
    add_name, copy_tokens, lemma_push_new, position_of_name, remove_name, remove_token, texts,
    without,
};
use crate::table::NameTable;

verus! {

/// The record of one account.
pub(crate) struct Account {
    /// The tokens held, oldest acquisition first.
    pub(crate) tokens: Vec<u64>,
    /// The number of tokens held, kept in step with `tokens`.
    pub(crate) balance: u64,
    /// The operators approved for all tokens of this account.
    pub(crate) operators: Vec<String>,
}

impl Account {
    /// No token and no operator is listed twice, and the balance is the
    /// number of tokens listed.
    pub(crate) open spec fn inv(&self) -> bool {
        &&& self.tokens@.no_duplicates()
        &&& self.balance == self.tokens.len()
        &&& texts(self.operators@).no_duplicates()
    }

    /// The record of an account that holds nothing and has approved nobody.
    pub(crate) fn new() -> (r: Account)
        ensures
            r.inv(),
            r.tokens@ == Seq::<u64>::empty(),
            texts(r.operators@) == Seq::<Identity>::empty(),
    {
        let r = Account { tokens: Vec::new(), balance: 0, operators: Vec::new() };
        assert(texts(r.operators@) =~= Seq::<Identity>::empty());
        r
    }
}

/// The records of all accounts, by identity.
pub(crate) struct Accounts {
    pub(crate) table: NameTable<Account>,
}

impl Accounts {
    /// Every record is consistent.
    pub(crate) open spec fn inv(&self) -> bool {
        &&& self.table.inv()
        &&& forall|k: int| 0 <= k < self.table.slots.len() ==> (#[trigger] self.table.slots[k]).inv()
    }

    /// The tokens held by `who`, oldest acquisition first.
    pub(crate) open spec fn held(&self, who: Identity) -> Seq<u64> {
        if self.table.has(who) {
            self.table.slots[self.table.slot(who)].tokens@
        } else {
            Seq::empty()
        }
    }

    /// The operators approved by `who`.
    pub(crate) open spec fn operators_of(&self, who: Identity) -> Seq<Identity> {
        if self.table.has(who) {
            texts(self.table.slots[self.table.slot(who)].operators@)
        } else {
            Seq::empty()
        }
    }

    /// No accounts.
    pub(crate) fn new() -> (r: Self)
        ensures
            r.inv(),
            forall|who: Identity| #[trigger] r.held(who) == Seq::<u64>::empty(),
            forall|who: Identity| #[trigger] r.operators_of(who) == Seq::<Identity>::empty(),
    {
        Accounts { table: NameTable::new() }
    }

    /// The number of tokens held by `who`.
    pub(crate) fn balance(&self, who: &String) -> (r: u64)
        requires
            self.inv(),
        ensures
            r == self.held(who@).len(),
    {
        match self.table.find(who) {
            Some(k) => self.table.slots[k].balance,
            None => 0,
        }
    }

    /// A copy of the tokens held by `who`.
    pub(crate) fn tokens(&self, who: &String) -> (r: Vec<u64>)
        requires
            self.inv(),
        ensures
            r@ == self.held(who@),
    {
        match self.table.find(who) {
            Some(k) => copy_tokens(&self.table.slots[k].tokens),
            None => Vec::new(),
        }
    }

    /// Whether `owner` has approved `operator`.
    pub(crate) fn is_operator(&self, owner: &String, operator: &String) -> (r: bool)
        requires
            self.inv(),
        ensures
            r == self.operators_of(owner@).contains(operator@),
    {
        match self.table.find(owner) {
            Some(k) => position_of_name(&self.table.slots[k].operators, operator).is_some(),
            None => false,
        }
    }

    /// The slot of the record of `who`, which is made if there is none. What
    /// the accounts hold and whom they have approved stays as it is.
    fn record_of(&mut self, who: &String) -> (k: usize)
        requires
            old(self).inv(),
        ensures
            final(self).inv(),
            final(self).table.has(who@),
            final(self).table.slot(who@) == k,
            k < final(self).table.slots.len(),
            forall|other: Identity| #[trigger] final(self).held(other) == old(self).held(other),
            forall|other: Identity| #[trigger]
                final(self).operators_of(other) == old(self).operators_of(other),
    {
        let k: usize = self.table.find_or_add(who, Account::new());
        assert forall|other: Identity| #[trigger] self.held(other) == old(self).held(other) by {
            if self.table.has(other) && !old(self).table.has(other) {
                assert(other == who@);
            }
        }
        assert forall|other: Identity| #[trigger]
            self.operators_of(other) == old(self).operators_of(other) by {
            if self.table.has(other) && !old(self).table.has(other) {
                assert(other == who@);
            }
        }
        k
    }

    /// The record in slot `k` has changed, and no other: then the records of
    /// all accounts but `who` read as before.
    proof fn lemma_others_untouched(&self, before: &Accounts, who: Identity, k: int)
        requires
            before.inv(),
            before.table.has(who),
            before.table.slot(who) == k,
            self.table.index@ == before.table.index@,
            self.table.slots@.len() == before.table.slots@.len(),
            forall|j: int|
                0 <= j < before.table.slots@.len() && j != k ==> self.table.slots@[j]
                    == before.table.slots@[j],
        ensures
            forall|other: Identity|
                other != who ==> #[trigger] self.held(other) == before.held(other),
            forall|other: Identity|
                other != who ==> #[trigger] self.operators_of(other) == before.operators_of(other),
    {
        assert forall|other: Identity| other != who implies #[trigger] self.held(other)
            == before.held(other) by {
            if before.table.has(other) {
                assert(before.table.index@[other] != before.table.index@[who]);
            }
        }
        assert forall|other: Identity| other != who implies #[trigger] self.operators_of(other)
            == before.operators_of(other) by {
            if before.table.has(other) {
                assert(before.table.index@[other] != before.table.index@[who]);
            }
        }
    }

    /// Adds `token_id` at the end of the tokens of `who` and counts it.
    pub(crate) fn credit(&mut self, who: &String, token_id: u64)
        requires
            old(self).inv(),
            !old(self).held(who@).contains(token_id),
        ensures
            final(self).inv(),
            final(self).held(who@) == old(self).held(who@).push(token_id),
            forall|other: Identity|
                other != who@ ==> #[trigger] final(self).held(other) == old(self).held(other),
            forall|other: Identity| #[trigger]
                final(self).operators_of(other) == old(self).operators_of(other),
    {
        let k: usize = self.record_of(who);
        let ghost mid = *self;
        proof {
            lemma_push_new(mid.held(who@), token_id);
        }
        self.table.slots[k].tokens.push(token_id);
        assert(self.table.slots[k as int].balance < self.table.slots[k as int].tokens.len()
            <= usize::MAX);
        let b: u64 = self.table.slots[k].balance;
        self.table.slots[k].balance = b + 1;
        proof {
            self.lemma_others_untouched(&mid, who@, k as int);
            assert forall|other: Identity| other != who@ implies #[trigger] self.held(other)
                == old(self).held(other) by {
                assert(mid.held(other) == old(self).held(other));
            }
            assert forall|other: Identity| #[trigger]
                self.operators_of(other) == old(self).operators_of(other) by {
                assert(mid.operators_of(other) == old(self).operators_of(other));
            }
        }
    }

    /// Takes `token_id` out of the tokens of `who`, if it stands there, and
    /// counts one less, never below zero.
    pub(crate) fn debit(&mut self, who: &String, token_id: u64)
        requires
            old(self).inv(),
        ensures
            final(self).inv(),
            final(self).held(who@) == without(old(self).held(who@), token_id),
            forall|other: Identity|
                other != who@ ==> #[trigger] final(self).held(other) == old(self).held(other),
            forall|other: Identity| #[trigger]
                final(self).operators_of(other) == old(self).operators_of(other),
    {
        match self.table.find(who) {
            Some(k) => {
                if remove_token(&mut self.table.slots[k].tokens, token_id) {
                    let b: u64 = self.table.slots[k].balance;
                    self.table.slots[k].balance = b.saturating_sub(1);
                }
                proof {
                    self.lemma_others_untouched(old(self), who@, k as int);
                }
            },
            None => {},
        }
    }

    /// Lists `operator` among the operators of `owner`, unless it is listed.
    pub(crate) fn grant(&mut self, owner: &String, operator: &String)
        requires
            old(self).inv(),
        ensures
            final(self).inv(),
            forall|p: Identity| #[trigger]
                final(self).operators_of(owner@).contains(p) <==> (old(self).operators_of(
                    owner@,
                ).contains(p) || p == operator@),
            forall|other: Identity|
                other != owner@ ==> #[trigger] final(self).operators_of(other) == old(
                    self,
                ).operators_of(other),
            forall|other: Identity| #[trigger] final(self).held(other) == old(self).held(other),
    {
        let k: usize = self.record_of(owner);
        let ghost mid = *self;
        let added = add_name(&mut self.table.slots[k].operators, operator);
        proof {
            if added {
                lemma_push_new(mid.operators_of(owner@), operator@);
            }
            self.lemma_others_untouched(&mid, owner@, k as int);
            assert(mid.operators_of(owner@) == old(self).operators_of(owner@));
            assert forall|other: Identity| other != owner@ implies #[trigger] self.operators_of(
                other,
            ) == old(self).operators_of(other) by {
                assert(mid.operators_of(other) == old(self).operators_of(other));
            }
            assert forall|other: Identity| #[trigger] self.held(other) == old(self).held(other) by {
                assert(mid.held(other) == old(self).held(other));
            }
        }
    }

    /// Strikes `operator` from the operators of `owner`, if it is listed.
    pub(crate) fn revoke(&mut self, owner: &String, operator: &String)
        requires
            old(self).inv(),
        ensures
            final(self).inv(),
            forall|p: Identity| #[trigger]
                final(self).operators_of(owner@).contains(p) <==> (old(self).operators_of(
                    owner@,
                ).contains(p) && p != operator@),
            forall|other: Identity|
                other != owner@ ==> #[trigger] final(self).operators_of(other) == old(
                    self,
                ).operators_of(other),
            forall|other: Identity| #[trigger] final(self).held(other) == old(self).held(other),
    {
        match self.table.find(owner) {
            Some(k) => {
                remove_name(&mut self.table.slots[k].operators, operator);
                proof {
                    self.lemma_others_untouched(old(self), owner@, k as int);
                }
            },
            None => {},
        }
    }
}

} // verus!
