//! The mathematical model of the role registry.
//!
//! A [`Roster`] is an owner and, for every role that was ever assigned, the
//! set of accounts that hold the role. The owner alone changes it, and passes every check of
//! a role without holding any.

use vstd::prelude::*;
use crate::errors::Unauthorized;
use crate::ledger::Identity;

verus! {

/// The state of a role registry.
#[verifier::ext_equal]
pub struct Roster {
    /// The one account that may assign and remove roles and that may hand
    /// this privilege on.
    pub owner: Identity,
    /// For every role that was ever assigned, the accounts that hold it.
    pub members: Map<Seq<char>, Set<Identity>>,
}

impl Roster {
    /// The roster of a fresh registry: nobody holds any role.
    pub open spec fn init(owner: Identity) -> Roster {
        Roster { owner, members: Map::empty() }
    }

    /// The accounts that hold `role`; none for a role that was never
    /// assigned.
    pub open spec fn holders(self, role: Seq<char>) -> Set<Identity> {
        if self.members.contains_key(role) {
            self.members[role]
        } else {
            Set::empty()
        }
    }

    /// Whether `user` holds `role`.
    pub open spec fn has_role(self, role: Seq<char>, user: Identity) -> bool {
        self.holders(role).contains(user)
    }

    /// Whether `user` is the owner.
    pub open spec fn is_owner(self, user: Identity) -> bool {
        user == self.owner
    }

    /// Whether `user` passes a check of `role`: it is the owner, or it holds
    /// the role.
    pub open spec fn role_based_access(self, user: Identity, role: Seq<char>) -> bool {
        self.is_owner(user) || self.has_role(role, user)
    }

    /// The owner gives `role` to `user`. Where `user` holds the role already,
    /// the roster stays as it is.
    pub open spec fn assign_role(self, caller: Identity, role: Seq<char>, user: Identity) -> Result<
        Roster,
        Unauthorized,
    > {
        if caller != self.owner {
            Err(Unauthorized)
        } else {
            Ok(Roster { members: self.members.insert(role, self.holders(role).insert(user)), ..self })
        }
    }

    /// The owner takes `role` from `user`. Where `user` does not hold the
    /// role, the roster stays as it is.
    pub open spec fn remove_role(self, caller: Identity, role: Seq<char>, user: Identity) -> Result<
        Roster,
        Unauthorized,
    > {
        if caller != self.owner {
            Err(Unauthorized)
        } else if self.members.contains_key(role) {
            Ok(Roster { members: self.members.insert(role, self.members[role].remove(user)), ..self })
        } else {
            Ok(self)
        }
    }

    /// The owner hands its privilege to `new_owner`.
    pub open spec fn transfer_ownership(self, caller: Identity, new_owner: Identity) -> Result<
        Roster,
        Unauthorized,
    > {
        if caller != self.owner {
            Err(Unauthorized)
        } else {
            Ok(Roster { owner: new_owner, ..self })
        }
    }
}

/// Assigning is idempotent: after one successful assignment the user holds
/// the role, and assigning the same role to the same user again succeeds and
/// changes nothing.
pub proof fn lemma_assign_role_idempotent(
    r: Roster,
    caller: Identity,
    role: Seq<char>,
    user: Identity,
)
    requires
        r.assign_role(caller, role, user) is Ok,
    ensures
        ({
            let once = r.assign_role(caller, role, user)->Ok_0;
            &&& once.has_role(role, user)
            &&& once.assign_role(caller, role, user) == Ok::<Roster, Unauthorized>(once)
        }),
{
    let once = r.assign_role(caller, role, user)->Ok_0;
    let twice = once.assign_role(caller, role, user)->Ok_0;
    assert(once.holders(role).insert(user) =~= once.holders(role));
    assert(twice.members =~= once.members);
    assert(twice =~= once);
}

/// Assigning a role that the user holds, and removing one that it does not
/// hold, succeed for the owner and leave the roster as it is.
pub proof fn lemma_role_noop(r: Roster, role: Seq<char>, user: Identity)
    ensures
        r.has_role(role, user) ==> r.assign_role(r.owner, role, user) == Ok::<Roster, Unauthorized>(r),
        !r.has_role(role, user) ==> r.remove_role(r.owner, role, user) == Ok::<Roster, Unauthorized>(
            r,
        ),
{
    if r.has_role(role, user) {
        let next = r.assign_role(r.owner, role, user)->Ok_0;
        assert(r.members[role].insert(user) =~= r.members[role]);
        assert(next.members =~= r.members);
        assert(next =~= r);
    } else {
        let next = r.remove_role(r.owner, role, user)->Ok_0;
        if r.members.contains_key(role) {
            assert(r.members[role].remove(user) =~= r.members[role]);
        }
        assert(next.members =~= r.members);
        assert(next =~= r);
    }
}

/// The owner passes the check of every role, whether or not it holds it.
pub proof fn lemma_owner_has_access(r: Roster, role: Seq<char>)
    ensures
        r.role_based_access(r.owner, role),
{
}

} // verus!
