//! What holds of every ledger that a registry can reach.
//!
//! The first group of lemmas shows that a fresh ledger is consistent and that
//! every operation keeps it so. The second group derives from consistency the
//! facts that users of a registry rely on.

use vstd::prelude::*;
use vstd::map_lib::lemma_values_finite;
use vstd::set_lib::{lemma_len_subset, lemma_set_disjoint_lens};
use crate::ledger::{Identity, Ledger};
use crate::lists::{lemma_push_new, lemma_without, without};

verus! {

/// A fresh ledger is consistent.
pub proof fn lemma_init_wf(contract_owner: Identity)
    ensures
        Ledger::init(contract_owner).wf(),
{
    let l = Ledger::init(contract_owner);
    assert forall|who: Identity, t: u64| #[trigger] l.holds(who, t) <==> (l.owners.contains_key(t)
        && l.owners[t] == who) by {
        assert(l.holdings[who] =~= Seq::<u64>::empty());
    }
}

/// A successful mint keeps the ledger consistent.
pub proof fn lemma_mint_wf(
    l: Ledger,
    caller: Identity,
    recipient: Identity,
    token_id: u64,
    uri: Option<Seq<char>>,
)
    requires
        l.wf(),
    ensures
        l.mint(caller, recipient, token_id, uri) matches Ok(next) ==> next.wf(),
{
    if let Ok(next) = l.mint(caller, recipient, token_id, uri) {
        let held = l.holdings[recipient];
        assert(!l.holds(recipient, token_id));
        assert(held.no_duplicates());
        lemma_push_new(held, token_id);
        assert forall|who: Identity| (#[trigger] next.holdings[who]).no_duplicates() by {
            assert(l.holdings[who].no_duplicates());
        }
        assert forall|who: Identity, t: u64| #[trigger] next.holds(who, t) <==> (
        next.owners.contains_key(t) && next.owners[t] == who) by {
            assert(l.holds(who, t) <==> (l.owners.contains_key(t) && l.owners[t] == who));
        }
    }
}

/// A successful transfer keeps the ledger consistent.
pub proof fn lemma_transfer_wf(
    l: Ledger,
    caller: Identity,
    from: Identity,
    to: Identity,
    token_id: u64,
)
    requires
        l.wf(),
    ensures
        l.transfer(caller, from, to, token_id) matches Ok(next) ==> next.wf(),
{
    if let Ok(next) = l.transfer(caller, from, to, token_id) {
        let given = l.holdings.insert(from, without(l.holdings[from], token_id));
        lemma_without(l.holdings[from], token_id);
        assert(l.holdings[from].no_duplicates());
        assert forall|who: Identity| !(#[trigger] given[who]).contains(token_id) by {
            if who != from {
                assert(!l.holds(who, token_id));
            }
        }
        assert(given[to].no_duplicates()) by {
            assert(l.holdings[to].no_duplicates());
        }
        lemma_push_new(given[to], token_id);
        assert forall|who: Identity| (#[trigger] next.holdings[who]).no_duplicates() by {
            assert(l.holdings[who].no_duplicates());
        }
        assert forall|who: Identity, t: u64| #[trigger] next.holds(who, t) <==> (
        next.owners.contains_key(t) && next.owners[t] == who) by {
            assert(l.holds(who, t) <==> (l.owners.contains_key(t) && l.owners[t] == who));
            assert(l.holds(from, t) <==> (l.owners.contains_key(t) && l.owners[t] == from));
            assert(l.holds(to, t) <==> (l.owners.contains_key(t) && l.owners[t] == to));
        }
    }
}

/// A successful approval keeps the ledger consistent.
pub proof fn lemma_approve_wf(l: Ledger, caller: Identity, delegate: Identity, token_id: u64)
    requires
        l.wf(),
    ensures
        l.approve(caller, delegate, token_id) matches Ok(next) ==> next.wf(),
{
    if let Ok(next) = l.approve(caller, delegate, token_id) {
        assert forall|who: Identity, t: u64| #[trigger] next.holds(who, t) <==> (
        next.owners.contains_key(t) && next.owners[t] == who) by {
            assert(l.holds(who, t) <==> (l.owners.contains_key(t) && l.owners[t] == who));
        }
    }
}

/// Granting or withdrawing an operator keeps the ledger consistent.
pub proof fn lemma_set_approval_for_all_wf(
    l: Ledger,
    owner: Identity,
    operator: Identity,
    approved: bool,
)
    requires
        l.wf(),
    ensures
        l.set_approval_for_all(owner, operator, approved).wf(),
{
    let next = l.set_approval_for_all(owner, operator, approved);
    assert forall|who: Identity, t: u64| #[trigger] next.holds(who, t) <==> (
    next.owners.contains_key(t) && next.owners[t] == who) by {
        assert(l.holds(who, t) <==> (l.owners.contains_key(t) && l.owners[t] == who));
    }
}

/// A successful burn keeps the ledger consistent.
pub proof fn lemma_burn_wf(l: Ledger, caller: Identity, token_id: u64)
    requires
        l.wf(),
    ensures
        l.burn(caller, token_id) matches Ok(next) ==> next.wf(),
{
    if let Ok(next) = l.burn(caller, token_id) {
        let owner = l.owners[token_id];
        lemma_without(l.holdings[owner], token_id);
        assert(l.holdings[owner].no_duplicates());
        assert forall|who: Identity| (#[trigger] next.holdings[who]).no_duplicates() by {
            assert(l.holdings[who].no_duplicates());
        }
        assert forall|who: Identity, t: u64| #[trigger] next.holds(who, t) <==> (
        next.owners.contains_key(t) && next.owners[t] == who) by {
            assert(l.holds(who, t) <==> (l.owners.contains_key(t) && l.owners[t] == who));
        }
    }
}

/// A successful change of the contract owner keeps the ledger consistent.
pub proof fn lemma_transfer_ownership_wf(l: Ledger, caller: Identity, new_owner: Identity)
    requires
        l.wf(),
    ensures
        l.transfer_ownership(caller, new_owner) matches Ok(next) ==> next.wf(),
{
    if let Ok(next) = l.transfer_ownership(caller, new_owner) {
        assert forall|who: Identity, t: u64| #[trigger] next.holds(who, t) <==> (
        next.owners.contains_key(t) && next.owners[t] == who) by {
            assert(l.holds(who, t) <==> (l.owners.contains_key(t) && l.owners[t] == who));
        }
    }
}

/// Single ownership: in a consistent ledger a token is held by at most one
/// account, which is its recorded owner, and that account holds it once.
pub proof fn lemma_single_owner(l: Ledger, a: Identity, b: Identity, token_id: u64)
    requires
        l.wf(),
        l.tokens_of(a).contains(token_id),
    ensures
        l.owner_of(token_id) == Some(a),
        l.tokens_of(b).contains(token_id) ==> a == b,
        l.tokens_of(a).no_duplicates(),
{
    assert(l.holds(a, token_id));
    if l.tokens_of(b).contains(token_id) {
        assert(l.holds(b, token_id));
    }
}

/// A token that does not exist has nothing: no delegate, no metadata, and no
/// account holds it. This is so of a token that was never minted and of one
/// that was burned.
pub proof fn lemma_missing_token_has_nothing(l: Ledger, token_id: u64)
    requires
        l.wf(),
        l.owner_of(token_id) is None,
    ensures
        l.approved(token_id) is None,
        l.uri(token_id) is None,
        forall|who: Identity| !#[trigger] l.holds(who, token_id),
{
}

/// The balance of an account, defined as the number of tokens that name it as
/// owner, is the length of its holdings.
pub proof fn lemma_balance_is_holding_count(l: Ledger, who: Identity)
    requires
        l.wf(),
    ensures
        l.owned_by(who).finite(),
        l.balance(who) == l.tokens_of(who).len(),
        l.tokens_of(who).to_set() == l.owned_by(who),
{
    let held = l.holdings[who];
    assert(held.no_duplicates());
    assert forall|t: u64| held.to_set().contains(t) <==> l.owned_by(who).contains(t) by {
        assert(l.holds(who, t) <==> (l.owners.contains_key(t) && l.owners[t] == who));
    }
    assert(held.to_set() =~= l.owned_by(who));
    held.unique_seq_to_set();
    lemma_len_subset(l.owned_by(who), l.owners.dom());
}

/// The tokens whose owner is one of `ids`.
pub open spec fn owned_within(l: Ledger, ids: Set<Identity>) -> Set<u64> {
    Set::new(|t: u64| l.owners.contains_key(t) && ids.contains(l.owners[t]))
}

/// The balances of the accounts in `ids` add up to the number of tokens that
/// those accounts own.
pub proof fn lemma_sum_balances_counts(l: Ledger, ids: Set<Identity>)
    requires
        l.owners.dom().finite(),
        ids.finite(),
    ensures
        owned_within(l, ids).finite(),
        l.sum_balances(ids) == owned_within(l, ids).len(),
    decreases ids.len(),
{
    lemma_len_subset(owned_within(l, ids), l.owners.dom());
    if ids.len() > 0 {
        let who = ids.choose();
        let rest = ids.remove(who);
        lemma_sum_balances_counts(l, rest);
        lemma_len_subset(l.owned_by(who), l.owners.dom());
        assert(l.owned_by(who).disjoint(owned_within(l, rest)));
        assert(l.owned_by(who) + owned_within(l, rest) =~= owned_within(l, ids));
        lemma_set_disjoint_lens(l.owned_by(who), owned_within(l, rest));
    } else {
        assert(owned_within(l, ids) =~= Set::<u64>::empty());
    }
}

/// Balance consistency: over any finite set of accounts that includes every
/// holder, the balances add up to the number of existing tokens.
pub proof fn lemma_balances_sum_over(l: Ledger, ids: Set<Identity>)
    requires
        l.wf(),
        ids.finite(),
        l.holders().subset_of(ids),
    ensures
        l.sum_balances(ids) == l.supply(),
{
    lemma_sum_balances_counts(l, ids);
    assert forall|t: u64| l.owners.contains_key(t) implies owned_within(l, ids).contains(t) by {
        assert(l.holders().contains(l.owners[t]));
    }
    assert(owned_within(l, ids) =~= l.owners.dom());
}

/// Balance consistency: the balances of all holders add up to the number of
/// existing tokens. An account that is no holder has balance zero.
pub proof fn lemma_balances_sum_to_supply(l: Ledger)
    requires
        l.wf(),
    ensures
        l.holders().finite(),
        l.sum_balances(l.holders()) == l.supply(),
        forall|who: Identity| !l.holders().contains(who) ==> #[trigger] l.balance(who) == 0,
{
    lemma_values_finite(l.owners);
    lemma_balances_sum_over(l, l.holders());
    assert forall|who: Identity| !l.holders().contains(who) implies #[trigger] l.balance(who)
        == 0 by {
        assert forall|t: u64| !l.owned_by(who).contains(t) by {
            if l.owners.contains_key(t) && l.owners[t] == who {
                assert(l.holders().contains(who));
            }
        }
        assert(l.owned_by(who) =~= Set::<u64>::empty());
    }
}

/// Approval invalidation: after a successful transfer the token has no
/// delegate.
pub proof fn lemma_transfer_clears_delegate(
    l: Ledger,
    caller: Identity,
    from: Identity,
    to: Identity,
    token_id: u64,
)
    ensures
        l.transfer(caller, from, to, token_id) matches Ok(next) ==> next.approved(token_id)
            is None,
{
}

} // verus!
