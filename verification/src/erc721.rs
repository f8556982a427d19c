//! The token registry.
//!
//! An [`ERC721`] records which account owns which token, which single
//! delegate an owner has named for a token, and which operators an owner has
//! approved for all of its tokens. Its state, seen through `@`, is a
//! [`Ledger`]; every operation is specified as the step that the ledger
//! takes.

use std::collections::HashMap;
use vstd::prelude::*;
use crate::accounts::Accounts;
use crate::errors::{ApproveError, BurnError, MintError, OwnershipError, TransferError};
use crate::events::{announced, Event, EventView};
use crate::invariants::{
    lemma_approve_wf, lemma_balance_is_holding_count, lemma_burn_wf, lemma_init_wf, lemma_mint_wf,
    lemma_set_approval_for_all_wf, lemma_transfer_ownership_wf, lemma_transfer_wf,
};
use crate::ledger::{Identity, Ledger};
use crate::lists::lemma_without;

verus! {

/// The characters of an optional string.
pub open spec fn text_of(o: Option<String>) -> Option<Seq<char>> {
    match o {
        Some(s) => Some(s@),
        None => None,
    }
}

/// The tables of a token registry.
struct State {
    owner: String,
    token_owner: HashMap<u64, String>,
    approvals: HashMap<u64, String>,
    token_uri: HashMap<u64, String>,
    accounts: Accounts,
}

impl State {
    /// The ledger that the tables stand for.
    spec fn ledger(&self) -> Ledger {
        Ledger {
            contract_owner: self.owner@,
            owners: self.token_owner@.map_values(|s: String| s@),
            delegates: self.approvals@.map_values(|s: String| s@),
            uris: self.token_uri@.map_values(|s: String| s@),
            operators: Set::new(
                |p: (Identity, Identity)| self.accounts.operators_of(p.0).contains(p.1),
            ),
            holdings: Map::total(|who: Identity| self.accounts.held(who)),
        }
    }

    /// The tables agree with each other.
    spec fn ok(&self) -> bool {
        &&& self.accounts.inv()
        &&& self.ledger().wf()
    }

    /// Tables without tokens and without a contract owner. They stand in for
    /// the tables of a registry while an operation works on those.
    fn empty() -> (r: State)
        ensures
            r.ok(),
    {
        let r = State {
            owner: String::new(),
            token_owner: HashMap::new(),
            approvals: HashMap::new(),
            token_uri: HashMap::new(),
            accounts: Accounts::new(),
        };
        proof {
            lemma_init_wf(r.owner@);
            assert(r.ledger() =~= Ledger::init(r.owner@));
        }
        r
    }
}

/// A registry of non-fungible tokens.
pub struct ERC721 {
    state: State,
}

impl View for ERC721 {
    type V = Ledger;

    closed spec fn view(&self) -> Ledger {
        self.state.ledger()
    }
}

impl ERC721 {
    /// What holds of every token registry: its tables agree with each other,
    /// and so its ledger is consistent.
    #[verifier::type_invariant]
    closed spec fn wf(&self) -> bool {
        self.state.ok()
    }

    /// A registry without tokens whose contract owner is `owner`.
    pub fn new(owner: String) -> (r: ERC721)
        ensures
            r@ == Ledger::init(owner@),
            r@.wf(),
    {
        let state = State {
            owner,
            token_owner: HashMap::new(),
            approvals: HashMap::new(),
            token_uri: HashMap::new(),
            accounts: Accounts::new(),
        };
        proof {
            lemma_init_wf(owner@);
            assert(state.ledger() =~= Ledger::init(owner@));
        }
        ERC721 { state }
    }

    /// The contract owner.
    pub fn contract_owner(&self) -> (r: String)
        ensures
            r@ == self@.contract_owner,
    {
        self.state.owner.clone()
    }

    /// The owner of `token_id`; `None` where the token does not exist.
    pub fn owner_of(&self, token_id: u64) -> (r: Option<String>)
        ensures
            text_of(r) == self@.owner_of(token_id),
    {
        match self.state.token_owner.get(&token_id) {
            Some(s) => Some(s.clone()),
            None => None,
        }
    }

    /// The delegate approved for `token_id`; `None` where there is none.
    pub fn get_approved(&self, token_id: u64) -> (r: Option<String>)
        ensures
            text_of(r) == self@.approved(token_id),
    {
        match self.state.approvals.get(&token_id) {
            Some(s) => Some(s.clone()),
            None => None,
        }
    }

    /// The metadata URI stored with `token_id`; `None` where there is none.
    pub fn token_uri(&self, token_id: u64) -> (r: Option<String>)
        ensures
            text_of(r) == self@.uri(token_id),
    {
        match self.state.token_uri.get(&token_id) {
            Some(s) => Some(s.clone()),
            None => None,
        }
    }

    /// The number of tokens that `owner` owns; zero for an account that the
    /// registry has never seen.
    pub fn balance_of(&self, owner: String) -> (r: u64)
        ensures
            self@.wf(),
            r == self@.balance(owner@),
            r == self@.tokens_of(owner@).len(),
    {
        proof {
            use_type_invariant(self);
            lemma_balance_is_holding_count(self@, owner@);
        }
        self.state.accounts.balance(&owner)
    }

    /// The tokens that `owner` owns, in the order in which it acquired them.
    pub fn tokens_of_owner(&self, owner: String) -> (r: Vec<u64>)
        ensures
            self@.wf(),
            r@ == self@.tokens_of(owner@),
    {
        proof {
            use_type_invariant(self);
        }
        self.state.accounts.tokens(&owner)
    }

    /// Whether `owner` has approved `operator` for all of its tokens.
    pub fn is_approved_for_all(&self, owner: String, operator: String) -> (r: bool)
        ensures
            self@.wf(),
            r == self@.approved_for_all(owner@, operator@),
    {
        proof {
            use_type_invariant(self);
        }
        self.state.accounts.is_operator(&owner, &operator)
    }

    /// Whether `user` may transfer `token_id`: the token exists and `user` is
    /// its owner, its delegate, or an operator of its owner.
    pub fn is_approved_or_owner(&self, user: String, token_id: u64) -> (r: bool)
        ensures
            self@.wf(),
            r == self@.may_transfer(user@, token_id),
    {
        proof {
            use_type_invariant(self);
        }
        match self.state.token_owner.get(&token_id) {
            Some(owner) => {
                if *owner == user {
                    return true;
                }
                let is_delegate = match self.state.approvals.get(&token_id) {
                    Some(d) => *d == user,
                    None => false,
                };
                is_delegate || self.state.accounts.is_operator(owner, &user)
            },
            None => false,
        }
    }

    /// Creates `token_id` for `recipient`, with the metadata URI given.
    ///
    /// Only the contract owner may mint. The id must not be zero and must not
    /// belong to an existing token; the id of a burned token may be minted
    /// again. On failure the registry is unchanged.
    pub fn mint(
        &mut self,
        caller: String,
        recipient: String,
        token_id: u64,
        metadata_uri: Option<String>,
    ) -> (r: Result<Event, MintError>)
        ensures
            final(self)@.wf(),
            caller@ != old(self)@.contract_owner ==> r == Err::<Event, MintError>(
                MintError::Unauthorized,
            ),
            match old(self)@.mint(caller@, recipient@, token_id, text_of(metadata_uri)) {
                Ok(next) => final(self)@ == next && announced(r) == Some(
                    EventView::Mint { recipient: recipient@, token_id },
                ),
                Err(e) => final(self)@ == old(self)@ && r == Err::<Event, MintError>(e),
            },
    {
        proof {
            use_type_invariant(&*self);
        }
        if caller != self.state.owner {
            return Err(MintError::Unauthorized);
        }
        if token_id == 0 {
            return Err(MintError::InvalidTokenId);
        }
        if self.state.token_owner.contains_key(&token_id) {
            return Err(MintError::AlreadyExists);
        }
        let ghost before = self@;
        let ghost next = before.mint(caller@, recipient@, token_id, text_of(metadata_uri))->Ok_0;
        proof {
            lemma_mint_wf(before, caller@, recipient@, token_id, text_of(metadata_uri));
            assert(!before.holds(recipient@, token_id));
        }
        let mut state = State::empty();
        std::mem::swap(&mut state, &mut self.state);
        state.accounts.credit(&recipient, token_id);
        state.token_owner.insert(token_id, recipient.clone());
        match metadata_uri {
            Some(uri) => {
                state.token_uri.insert(token_id, uri);
            },
            None => {},
        }
        proof {
            assert(state.ledger().owners =~= next.owners);
            assert(state.ledger().uris =~= next.uris);
            assert(state.ledger().operators =~= next.operators);
            assert(state.ledger().holdings =~= next.holdings);
            assert(state.ledger() =~= next);
        }
        self.state = state;
        Ok(Event::Mint { recipient, token_id })
    }

    /// Moves `token_id` from `from` to `to` on behalf of `caller`.
    ///
    /// The caller must be the owner of the token, its delegate, or an operator
    /// of its owner; and `from` must be the recorded owner. The first check
    /// that fails decides the error. A transfer clears the token's delegate.
    /// On failure the registry is unchanged.
    pub fn transfer(&mut self, caller: String, from: String, to: String, token_id: u64) -> (r:
        Result<Event, TransferError>)
        ensures
            final(self)@.wf(),
            old(self)@.owner_of(token_id) is Some && !old(self)@.may_transfer(caller@, token_id)
                ==> r == Err::<Event, TransferError>(TransferError::Unauthorized),
            r is Ok ==> final(self)@.approved(token_id) is None,
            match old(self)@.transfer(caller@, from@, to@, token_id) {
                Ok(next) => final(self)@ == next && announced(r) == Some(
                    EventView::Transfer { from: from@, to: to@, token_id },
                ),
                Err(e) => final(self)@ == old(self)@ && r == Err::<Event, TransferError>(e),
            },
    {
        proof {
            use_type_invariant(&*self);
        }
        let allowed = match self.state.token_owner.get(&token_id) {
            Some(owner) => {
                let is_delegate = match self.state.approvals.get(&token_id) {
                    Some(d) => *d == caller,
                    None => false,
                };
                if *owner == caller || is_delegate || self.state.accounts.is_operator(
                    owner,
                    &caller,
                ) {
                    if *owner == from {
                        Ok(())
                    } else {
                        Err(TransferError::OwnerMismatch)
                    }
                } else {
                    Err(TransferError::Unauthorized)
                }
            },
            None => Err(TransferError::TokenNotFound),
        };
        match allowed {
            Err(e) => Err(e),
            Ok(()) => {
                let ghost before = self@;
                let ghost next = before.transfer(caller@, from@, to@, token_id)->Ok_0;
                proof {
                    lemma_transfer_wf(before, caller@, from@, to@, token_id);
                    lemma_without(before.holdings[from@], token_id);
                    assert(before.holdings[from@].no_duplicates());
                    assert(before.holds(to@, token_id) <==> from@ == to@);
                }
                let mut state = State::empty();
                std::mem::swap(&mut state, &mut self.state);
                state.accounts.debit(&from, token_id);
                state.accounts.credit(&to, token_id);
                state.token_owner.insert(token_id, to.clone());
                state.approvals.remove(&token_id);
                proof {
                    assert(state.ledger().owners =~= next.owners);
                    assert(state.ledger().delegates =~= next.delegates);
                    assert(state.ledger().operators =~= next.operators);
                    assert(state.ledger().holdings =~= next.holdings);
                    assert(state.ledger() =~= next);
                }
                self.state = state;
                Ok(Event::Transfer { from, to, token_id })
            },
        }
    }

    /// Names `delegate` as the one account besides the owner and its
    /// operators that may transfer `token_id`, replacing any earlier delegate.
    ///
    /// Only the owner of the token may approve. On failure the registry is
    /// unchanged.
    pub fn approve(&mut self, caller: String, delegate: String, token_id: u64) -> (r: Result<
        Event,
        ApproveError,
    >)
        ensures
            final(self)@.wf(),
            old(self)@.owner_of(token_id) is Some && old(self)@.owner_of(token_id) != Some(caller@)
                ==> r == Err::<Event, ApproveError>(ApproveError::Unauthorized),
            match old(self)@.approve(caller@, delegate@, token_id) {
                Ok(next) => final(self)@ == next && announced(r) == Some(
                    EventView::Approval { owner: caller@, delegate: delegate@, token_id },
                ),
                Err(e) => final(self)@ == old(self)@ && r == Err::<Event, ApproveError>(e),
            },
    {
        proof {
            use_type_invariant(&*self);
        }
        let allowed = match self.state.token_owner.get(&token_id) {
            Some(owner) => {
                if *owner == caller {
                    Ok(())
                } else {
                    Err(ApproveError::Unauthorized)
                }
            },
            None => Err(ApproveError::TokenNotFound),
        };
        match allowed {
            Err(e) => Err(e),
            Ok(()) => {
                let ghost before = self@;
                let ghost next = before.approve(caller@, delegate@, token_id)->Ok_0;
                proof {
                    lemma_approve_wf(before, caller@, delegate@, token_id);
                }
                let mut state = State::empty();
                std::mem::swap(&mut state, &mut self.state);
                state.approvals.insert(token_id, delegate.clone());
                proof {
                    assert(state.ledger().delegates =~= next.delegates);
                    assert(state.ledger() =~= next);
                }
                self.state = state;
                Ok(Event::Approval { owner: caller, delegate, token_id })
            },
        }
    }

    /// Grants (`approved`) or withdraws (`!approved`) the right of `operator`
    /// to act on every token of `owner`, present or future.
    ///
    /// The call is the owner's own and is not checked further. Setting the
    /// value that is already set changes nothing.
    pub fn set_approval_for_all(&mut self, owner: String, operator: String, approved: bool) -> (r:
        Event)
        ensures
            final(self)@.wf(),
            final(self)@ == old(self)@.set_approval_for_all(owner@, operator@, approved),
            final(self)@.approved_for_all(owner@, operator@) == approved,
            r@ == if approved {
                EventView::ApprovalForAll { owner: owner@, operator: operator@ }
            } else {
                EventView::RevokeOperator { owner: owner@, operator: operator@ }
            },
    {
        proof {
            use_type_invariant(&*self);
        }
        let ghost before = self@;
        let ghost next = before.set_approval_for_all(owner@, operator@, approved);
        proof {
            lemma_set_approval_for_all_wf(before, owner@, operator@, approved);
        }
        let mut state = State::empty();
        std::mem::swap(&mut state, &mut self.state);
        let ghost taken = state;
        if approved {
            state.accounts.grant(&owner, &operator);
        } else {
            state.accounts.revoke(&owner, &operator);
        }
        proof {
            assert(state.ledger().holdings =~= next.holdings);
            assert forall|p: (Identity, Identity)|
                state.ledger().operators.contains(p) <==> next.operators.contains(p) by {
                if p.0 != owner@ {
                    assert(state.accounts.operators_of(p.0) == taken.accounts.operators_of(p.0));
                }
            }
            assert(state.ledger().operators =~= next.operators);
            assert(state.ledger() =~= next);
        }
        self.state = state;
        if approved {
            Event::ApprovalForAll { owner, operator }
        } else {
            Event::RevokeOperator { owner, operator }
        }
    }

    /// Destroys `token_id` together with its delegate and its metadata.
    ///
    /// The caller must be the owner of the token or an operator of its owner;
    /// the delegate of the token may not burn it. On failure the registry is
    /// unchanged.
    pub fn burn(&mut self, caller: String, token_id: u64) -> (r: Result<Event, BurnError>)
        ensures
            final(self)@.wf(),
            r is Ok ==> final(self)@.owner_of(token_id) is None,
            match old(self)@.burn(caller@, token_id) {
                Ok(next) => final(self)@ == next && announced(r) == Some(
                    EventView::Burn { owner: old(self)@.owners[token_id], token_id },
                ),
                Err(e) => final(self)@ == old(self)@ && r == Err::<Event, BurnError>(e),
            },
    {
        proof {
            use_type_invariant(&*self);
        }
        let found = match self.state.token_owner.get(&token_id) {
            Some(owner) => {
                if *owner == caller || self.state.accounts.is_operator(owner, &caller) {
                    Ok(owner.clone())
                } else {
                    Err(BurnError::Unauthorized)
                }
            },
            None => Err(BurnError::TokenNotFound),
        };
        match found {
            Err(e) => Err(e),
            Ok(owner) => {
                let ghost before = self@;
                let ghost next = before.burn(caller@, token_id)->Ok_0;
                proof {
                    lemma_burn_wf(before, caller@, token_id);
                }
                let mut state = State::empty();
                std::mem::swap(&mut state, &mut self.state);
                state.accounts.debit(&owner, token_id);
                state.token_owner.remove(&token_id);
                state.approvals.remove(&token_id);
                state.token_uri.remove(&token_id);
                proof {
                    assert(state.ledger().owners =~= next.owners);
                    assert(state.ledger().delegates =~= next.delegates);
                    assert(state.ledger().uris =~= next.uris);
                    assert(state.ledger().operators =~= next.operators);
                    assert(state.ledger().holdings =~= next.holdings);
                    assert(state.ledger() =~= next);
                }
                self.state = state;
                Ok(Event::Burn { owner, token_id })
            },
        }
    }

    /// Makes `new_owner` the contract owner. Only the contract owner may do
    /// so; on failure the registry is unchanged.
    pub fn transfer_ownership(&mut self, caller: String, new_owner: String) -> (r: Result<
        Event,
        OwnershipError,
    >)
        ensures
            final(self)@.wf(),
            match old(self)@.transfer_ownership(caller@, new_owner@) {
                Ok(next) => final(self)@ == next && announced(r) == Some(
                    EventView::OwnershipTransferred {
                        previous: old(self)@.contract_owner,
                        new_owner: new_owner@,
                    },
                ),
                Err(e) => final(self)@ == old(self)@ && r == Err::<Event, OwnershipError>(e),
            },
    {
        proof {
            use_type_invariant(&*self);
        }
        if caller != self.state.owner {
            return Err(OwnershipError::Unauthorized);
        }
        let ghost before = self@;
        let ghost next = before.transfer_ownership(caller@, new_owner@)->Ok_0;
        proof {
            lemma_transfer_ownership_wf(before, caller@, new_owner@);
        }
        let mut state = State::empty();
        std::mem::swap(&mut state, &mut self.state);
        state.owner = new_owner.clone();
        proof {
            assert(state.ledger() =~= next);
        }
        self.state = state;
        Ok(Event::OwnershipTransferred { previous: caller, new_owner })
    }
}

} // verus!
