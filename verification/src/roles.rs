//! The role registry.
//!
//! A [`RoleManager`] has one owner and any number of named roles, each held
//! by a set of accounts. Its state, seen through `@`, is a [`Roster`].

use vstd::prelude::*;
use crate::errors::Unauthorized;
use crate::events::{announced, Event, EventView};
use crate::lists::texts;
use crate::members::Members;
use crate::roster::Roster;

verus! {

/// A registry of roles and of the accounts that hold them.
pub struct RoleManager {
    owner: String,
    roles: Members,
}

impl View for RoleManager {
    type V = Roster;

    closed spec fn view(&self) -> Roster {
        Roster {
            owner: self.owner@,
            members: Map::new(
                |role: Seq<char>| self.roles.known(role),
                |role: Seq<char>| self.roles.listed(role).to_set(),
            ),
        }
    }
}

impl RoleManager {
    /// What holds of every role registry: no holder of a role is listed
    /// twice.
    #[verifier::type_invariant]
    closed spec fn wf(&self) -> bool {
        self.roles.inv()
    }

    /// A registry without roles whose owner is `owner`.
    pub fn new(owner: String) -> (r: RoleManager)
        ensures
            r@ == Roster::init(owner@),
    {
        let r = RoleManager { owner, roles: Members::new() };
        proof {
            assert(r@.members =~= Roster::init(owner@).members);
            assert(r@ =~= Roster::init(owner@));
        }
        r
    }

    /// The owner.
    pub fn get_owner(&self) -> (r: String)
        ensures
            r@ == self@.owner,
    {
        self.owner.clone()
    }

    /// Whether `user` is the owner.
    pub fn is_owner(&self, user: String) -> (r: bool)
        ensures
            r == self@.is_owner(user@),
    {
        self.owner == user
    }

    /// Whether `user` holds `role`; false for a role that nobody was ever
    /// given.
    pub fn has_role(&self, role: String, user: String) -> (r: bool)
        ensures
            r == self@.has_role(role@, user@),
    {
        proof {
            use_type_invariant(self);
        }
        self.roles.contains(&role, &user)
    }

    /// Whether `user` passes a check of `role`: it is the owner, or it holds
    /// the role.
    pub fn role_based_access(&self, user: String, role: String) -> (r: bool)
        ensures
            r == self@.role_based_access(user@, role@),
    {
        if self.owner == user {
            true
        } else {
            self.has_role(role, user)
        }
    }

    /// The accounts that hold `role`, each once, in no particular order;
    /// empty for a role that nobody was ever given.
    pub fn list_role_users(&self, role: String) -> (r: Vec<String>)
        ensures
            texts(r@).no_duplicates(),
            texts(r@).to_set() == self@.holders(role@),
    {
        proof {
            use_type_invariant(self);
        }
        self.roles.list(&role)
    }

    /// Makes `new_owner` the owner. Only the owner may do so; on failure the
    /// registry is unchanged.
    pub fn transfer_ownership(&mut self, current_owner: String, new_owner: String) -> (r: Result<
        Event,
        Unauthorized,
    >)
        ensures
            match old(self)@.transfer_ownership(current_owner@, new_owner@) {
                Ok(next) => final(self)@ == next && announced(r) == Some(
                    EventView::OwnershipTransferred {
                        previous: old(self)@.owner,
                        new_owner: new_owner@,
                    },
                ),
                Err(e) => final(self)@ == old(self)@ && r == Err::<Event, Unauthorized>(e),
            },
    {
        proof {
            use_type_invariant(&*self);
        }
        if current_owner != self.owner {
            return Err(Unauthorized);
        }
        let ghost next = self@.transfer_ownership(current_owner@, new_owner@)->Ok_0;
        self.owner = new_owner.clone();
        proof {
            assert(self@.members =~= next.members);
            assert(self@ =~= next);
        }
        Ok(Event::OwnershipTransferred { previous: current_owner, new_owner })
    }

    /// Gives `role` to `user`. Only the owner may do so; on failure the
    /// registry is unchanged.
    ///
    /// Where `user` holds the role already the call succeeds and changes
    /// nothing; the event says so in `changed`.
    pub fn assign_role(&mut self, owner: String, role: String, user: String) -> (r: Result<
        Event,
        Unauthorized,
    >)
        ensures
            r is Ok ==> final(self)@.has_role(role@, user@),
            match old(self)@.assign_role(owner@, role@, user@) {
                Ok(next) => final(self)@ == next && announced(r) == Some(
                    EventView::RoleAssigned {
                        role: role@,
                        user: user@,
                        changed: !old(self)@.has_role(role@, user@),
                    },
                ),
                Err(e) => final(self)@ == old(self)@ && r == Err::<Event, Unauthorized>(e),
            },
    {
        proof {
            use_type_invariant(&*self);
        }
        if owner != self.owner {
            return Err(Unauthorized);
        }
        let ghost next = self@.assign_role(owner@, role@, user@)->Ok_0;
        let mut roles = Members::new();
        std::mem::swap(&mut roles, &mut self.roles);
        let ghost taken = roles;
        let changed = roles.add(&role, &user);
        self.roles = roles;
        proof {
            assert(taken.listed(role@).to_set() =~= old(self)@.holders(role@));
            assert(self@.members =~= next.members);
            assert(self@ =~= next);
        }
        Ok(Event::RoleAssigned { role, user, changed })
    }

    /// Takes `role` from `user`. Only the owner may do so; on failure the
    /// registry is unchanged.
    ///
    /// Where `user` does not hold the role the call succeeds and changes
    /// nothing; the event says so in `changed`.
    pub fn remove_role(&mut self, owner: String, role: String, user: String) -> (r: Result<
        Event,
        Unauthorized,
    >)
        ensures
            r is Ok ==> !final(self)@.has_role(role@, user@),
            match old(self)@.remove_role(owner@, role@, user@) {
                Ok(next) => final(self)@ == next && announced(r) == Some(
                    EventView::RoleRemoved {
                        role: role@,
                        user: user@,
                        changed: old(self)@.has_role(role@, user@),
                    },
                ),
                Err(e) => final(self)@ == old(self)@ && r == Err::<Event, Unauthorized>(e),
            },
    {
        proof {
            use_type_invariant(&*self);
        }
        if owner != self.owner {
            return Err(Unauthorized);
        }
        let ghost next = self@.remove_role(owner@, role@, user@)->Ok_0;
        let mut roles = Members::new();
        std::mem::swap(&mut roles, &mut self.roles);
        let changed = roles.remove(&role, &user);
        self.roles = roles;
        proof {
            assert(self@.members =~= next.members);
            assert(self@ =~= next);
        }
        Ok(Event::RoleRemoved { role, user, changed })
    }
}

} // verus!
