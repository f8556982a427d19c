//! The mathematical model of the token registry.
//!
//! A [`Ledger`] is what a token registry *is*, stripped of every choice of
//! data structure: who owns which token, who may move it, and in which order
//! each account acquired what it holds. Every operation of the registry is
//! defined here as a function from one ledger to the next, and the executable
//! registry is proved to follow these functions step by step.

use vstd::prelude::*;
use crate::errors::{ApproveError, BurnError, MintError, OwnershipError, TransferError};
use crate::lists::without;

verus! {

/// An account: an opaque string, compared character by character.
pub type Identity = Seq<char>;

/// The state of a token registry.
#[verifier::ext_equal]
pub struct Ledger {
    /// The one account that may mint and that may hand this privilege on.
    pub contract_owner: Identity,
    /// The owner of each existing token. A token exists exactly when it has an
    /// entry here.
    pub owners: Map<u64, Identity>,
    /// The delegate approved for a single token, where there is one.
    pub delegates: Map<u64, Identity>,
    /// The metadata URI stored with a token, where there is one.
    pub uris: Map<u64, Seq<char>>,
    /// The pairs `(owner, operator)` such that `operator` may act on every
    /// token of `owner`.
    pub operators: Set<(Identity, Identity)>,
    /// For every account, the tokens it holds, in the order in which it
    /// acquired them. Defined on every identity; empty for most.
    pub holdings: Map<Identity, Seq<u64>>,
}

impl Ledger {
    /// The ledger of a fresh registry: no tokens, no approvals.
    pub open spec fn init(contract_owner: Identity) -> Ledger {
        Ledger {
            contract_owner,
            owners: Map::empty(),
            delegates: Map::empty(),
            uris: Map::empty(),
            operators: Set::empty(),
            holdings: Map::total(|who: Identity| Seq::<u64>::empty()),
        }
    }

    /// The owner of `token_id`, if the token exists.
    pub open spec fn owner_of(self, token_id: u64) -> Option<Identity> {
        if self.owners.contains_key(token_id) {
            Some(self.owners[token_id])
        } else {
            None
        }
    }

    /// The delegate approved for `token_id`, if there is one.
    pub open spec fn approved(self, token_id: u64) -> Option<Identity> {
        if self.delegates.contains_key(token_id) {
            Some(self.delegates[token_id])
        } else {
            None
        }
    }

    /// The metadata URI of `token_id`, if one is stored.
    pub open spec fn uri(self, token_id: u64) -> Option<Seq<char>> {
        if self.uris.contains_key(token_id) {
            Some(self.uris[token_id])
        } else {
            None
        }
    }

    /// Whether `operator` may act on every token of `owner`.
    pub open spec fn approved_for_all(self, owner: Identity, operator: Identity) -> bool {
        self.operators.contains((owner, operator))
    }

    /// The tokens that `who` holds, oldest acquisition first.
    pub open spec fn tokens_of(self, who: Identity) -> Seq<u64> {
        self.holdings[who]
    }

    /// Whether `token_id` stands among the tokens that `who` holds.
    pub open spec fn holds(self, who: Identity, token_id: u64) -> bool {
        self.holdings[who].contains(token_id)
    }

    /// The set of tokens whose owner is `who`.
    pub open spec fn owned_by(self, who: Identity) -> Set<u64> {
        Set::new(|t: u64| self.owners.contains_key(t) && self.owners[t] == who)
    }

    /// The number of tokens whose owner is `who`.
    pub open spec fn balance(self, who: Identity) -> nat {
        self.owned_by(who).len()
    }

    /// The number of existing tokens.
    pub open spec fn supply(self) -> nat {
        self.owners.dom().len()
    }

    /// The accounts that own at least one token.
    pub open spec fn holders(self) -> Set<Identity> {
        self.owners.values()
    }

    /// The sum of the balances of the accounts in `ids`.
    pub open spec fn sum_balances(self, ids: Set<Identity>) -> nat
        decreases ids.len(),
    {
        if ids.finite() && ids.len() > 0 {
            let who = ids.choose();
            self.balance(who) + self.sum_balances(ids.remove(who))
        } else {
            0
        }
    }

    /// Whether `caller` may transfer `token_id`: the token exists, and the
    /// caller is its owner, its delegate, or an operator of its owner.
    pub open spec fn may_transfer(self, caller: Identity, token_id: u64) -> bool {
        &&& self.owners.contains_key(token_id)
        &&& {
            ||| self.owners[token_id] == caller
            ||| self.approved(token_id) == Some(caller)
            ||| self.approved_for_all(self.owners[token_id], caller)
        }
    }

    /// Whether `caller` may burn `token_id`: the token exists, and the caller
    /// is its owner or an operator of its owner. A delegate may not burn.
    pub open spec fn may_burn(self, caller: Identity, token_id: u64) -> bool {
        &&& self.owners.contains_key(token_id)
        &&& {
            ||| self.owners[token_id] == caller
            ||| self.approved_for_all(self.owners[token_id], caller)
        }
    }

    /// Minting: the contract owner creates `token_id` for `recipient`.
    ///
    /// The caller is checked first, then the id, then whether it is free. An
    /// id that was burned is free again.
    pub open spec fn mint(
        self,
        caller: Identity,
        recipient: Identity,
        token_id: u64,
        uri: Option<Seq<char>>,
    ) -> Result<Ledger, MintError> {
        if caller != self.contract_owner {
            Err(MintError::Unauthorized)
        } else if token_id == 0 {
            Err(MintError::InvalidTokenId)
        } else if self.owners.contains_key(token_id) {
            Err(MintError::AlreadyExists)
        } else {
            Ok(
                Ledger {
                    owners: self.owners.insert(token_id, recipient),
                    uris: match uri {
                        Some(u) => self.uris.insert(token_id, u),
                        None => self.uris,
                    },
                    holdings: self.holdings.insert(
                        recipient,
                        self.holdings[recipient].push(token_id),
                    ),
                    ..self
                },
            )
        }
    }

    /// Transfer: `caller` moves `token_id` from `from` to `to`.
    ///
    /// Two checks are made, in this order: the caller must be allowed to move
    /// the token, and `from` must be its recorded owner. The delegate of the
    /// token is cleared whoever made the transfer.
    pub open spec fn transfer(
        self,
        caller: Identity,
        from: Identity,
        to: Identity,
        token_id: u64,
    ) -> Result<Ledger, TransferError> {
        if !self.owners.contains_key(token_id) {
            Err(TransferError::TokenNotFound)
        } else if !self.may_transfer(caller, token_id) {
            Err(TransferError::Unauthorized)
        } else if self.owners[token_id] != from {
            Err(TransferError::OwnerMismatch)
        } else {
            let given = self.holdings.insert(from, without(self.holdings[from], token_id));
            Ok(
                Ledger {
                    owners: self.owners.insert(token_id, to),
                    delegates: self.delegates.remove(token_id),
                    holdings: given.insert(to, given[to].push(token_id)),
                    ..self
                },
            )
        }
    }

    /// Approval: the owner of `token_id` names its one delegate, replacing
    /// any earlier one.
    pub open spec fn approve(self, caller: Identity, delegate: Identity, token_id: u64) -> Result<
        Ledger,
        ApproveError,
    > {
        if !self.owners.contains_key(token_id) {
            Err(ApproveError::TokenNotFound)
        } else if self.owners[token_id] != caller {
            Err(ApproveError::Unauthorized)
        } else {
            Ok(Ledger { delegates: self.delegates.insert(token_id, delegate), ..self })
        }
    }

    /// `owner` grants (`approved`) or withdraws (`!approved`) the right of
    /// `operator` to act on all of its tokens.
    pub open spec fn set_approval_for_all(
        self,
        owner: Identity,
        operator: Identity,
        approved: bool,
    ) -> Ledger {
        Ledger {
            operators: if approved {
                self.operators.insert((owner, operator))
            } else {
                self.operators.remove((owner, operator))
            },
            ..self
        }
    }

    /// Burn: the owner of `token_id`, or an operator of the owner, destroys
    /// the token together with its delegate and its metadata.
    pub open spec fn burn(self, caller: Identity, token_id: u64) -> Result<Ledger, BurnError> {
        if !self.owners.contains_key(token_id) {
            Err(BurnError::TokenNotFound)
        } else if !self.may_burn(caller, token_id) {
            Err(BurnError::Unauthorized)
        } else {
            let owner = self.owners[token_id];
            Ok(
                Ledger {
                    owners: self.owners.remove(token_id),
                    delegates: self.delegates.remove(token_id),
                    uris: self.uris.remove(token_id),
                    holdings: self.holdings.insert(owner, without(self.holdings[owner], token_id)),
                    ..self
                },
            )
        }
    }

    /// The contract owner hands its privilege to `new_owner`.
    pub open spec fn transfer_ownership(self, caller: Identity, new_owner: Identity) -> Result<
        Ledger,
        OwnershipError,
    > {
        if caller != self.contract_owner {
            Err(OwnershipError::Unauthorized)
        } else {
            Ok(Ledger { contract_owner: new_owner, ..self })
        }
    }

    /// The consistency that every ledger of a registry has.
    ///
    /// - There are finitely many tokens, and none has the id zero.
    /// - Only existing tokens have a delegate or metadata.
    /// - The holdings agree with the owner map: an account holds a token
    ///   exactly when it is the token's owner, and holds it once.
    pub open spec fn wf(self) -> bool {
        &&& self.owners.dom().finite()
        &&& !self.owners.contains_key(0)
        &&& self.delegates.dom().subset_of(self.owners.dom())
        &&& self.uris.dom().subset_of(self.owners.dom())
        &&& forall|who: Identity| #[trigger] self.holdings.contains_key(who)
        &&& forall|who: Identity| (#[trigger] self.holdings[who]).no_duplicates()
        &&& forall|who: Identity, t: u64| #[trigger]
            self.holds(who, t) <==> (self.owners.contains_key(t) && self.owners[t] == who)
    }
}

} // verus!
