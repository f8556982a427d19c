//! The notifications that the registries hand to their caller.
//!
//! A registry never talks to the outside itself. Every operation that
//! succeeds returns one [`Event`]; the caller passes it on to whatever sink it
//! has, as a name and a line of details.

use vstd::prelude::*;
use crate::ledger::Identity;

verus! {

/// What a successful operation did.
#[derive(Clone, Debug, PartialEq, Eq)]
pub enum Event {
    /// A token was created for `recipient`.
    Mint { recipient: String, token_id: u64 },
    /// A token moved from `from` to `to`.
    Transfer { from: String, to: String, token_id: u64 },
    /// `owner` named `delegate` for one token.
    Approval { owner: String, delegate: String, token_id: u64 },
    /// `owner` approved `operator` for all of its tokens.
    ApprovalForAll { owner: String, operator: String },
    /// `owner` withdrew the approval of `operator`.
    RevokeOperator { owner: String, operator: String },
    /// A token of `owner` was destroyed.
    Burn { owner: String, token_id: u64 },
    /// The contract owner changed from `previous` to `new_owner`.
    OwnershipTransferred { previous: String, new_owner: String },
    /// `user` was given `role`; `changed` is false where it had the role
    /// already.
    RoleAssigned { role: String, user: String, changed: bool },
    /// `role` was taken from `user`; `changed` is false where it did not have
    /// the role.
    RoleRemoved { role: String, user: String, changed: bool },
}

/// An [`Event`] as a mathematical value.
pub enum EventView {
    Mint { recipient: Identity, token_id: u64 },
    Transfer { from: Identity, to: Identity, token_id: u64 },
    Approval { owner: Identity, delegate: Identity, token_id: u64 },
    ApprovalForAll { owner: Identity, operator: Identity },
    RevokeOperator { owner: Identity, operator: Identity },
    Burn { owner: Identity, token_id: u64 },
    OwnershipTransferred { previous: Identity, new_owner: Identity },
    RoleAssigned { role: Seq<char>, user: Identity, changed: bool },
    RoleRemoved { role: Seq<char>, user: Identity, changed: bool },
}

impl View for Event {
    type V = EventView;

    open spec fn view(&self) -> EventView {
        match *self {
            Event::Mint { recipient, token_id } => EventView::Mint {
                recipient: recipient@,
                token_id,
            },
            Event::Transfer { from, to, token_id } => EventView::Transfer {
                from: from@,
                to: to@,
                token_id,
            },
            Event::Approval { owner, delegate, token_id } => EventView::Approval {
                owner: owner@,
                delegate: delegate@,
                token_id,
            },
            Event::ApprovalForAll { owner, operator } => EventView::ApprovalForAll {
                owner: owner@,
                operator: operator@,
            },
            Event::RevokeOperator { owner, operator } => EventView::RevokeOperator {
                owner: owner@,
                operator: operator@,
            },
            Event::Burn { owner, token_id } => EventView::Burn { owner: owner@, token_id },
            Event::OwnershipTransferred { previous, new_owner } => EventView::OwnershipTransferred {
                previous: previous@,
                new_owner: new_owner@,
            },
            Event::RoleAssigned { role, user, changed } => EventView::RoleAssigned {
                role: role@,
                user: user@,
                changed,
            },
            Event::RoleRemoved { role, user, changed } => EventView::RoleRemoved {
                role: role@,
                user: user@,
                changed,
            },
        }
    }
}

/// The character that stands for the digit `d`.
pub open spec fn digit(d: nat) -> char {
    if d == 0 {
        '0'
    } else if d == 1 {
        '1'
    } else if d == 2 {
        '2'
    } else if d == 3 {
        '3'
    } else if d == 4 {
        '4'
    } else if d == 5 {
        '5'
    } else if d == 6 {
        '6'
    } else if d == 7 {
        '7'
    } else if d == 8 {
        '8'
    } else {
        '9'
    }
}

/// `n` written in base ten, without leading zeros.
pub open spec fn decimal(n: nat) -> Seq<char>
    decreases n,
{
    if n < 10 {
        seq![digit(n)]
    } else {
        decimal(n / 10).push(digit(n % 10))
    }
}

/// The event that a result carries, if it is a success.
pub open spec fn announced<E>(r: Result<Event, E>) -> Option<EventView> {
    match r {
        Ok(ev) => Some(ev@),
        Err(_) => None,
    }
}

impl EventView {
    /// The name under which the event is announced.
    pub open spec fn name(self) -> Seq<char> {
        match self {
            EventView::Mint { .. } => "Mint"@,
            EventView::Transfer { .. } => "Transfer"@,
            EventView::Approval { .. } => "Approval"@,
            EventView::ApprovalForAll { .. } => "ApprovalForAll"@,
            EventView::RevokeOperator { .. } => "RevokeOperator"@,
            EventView::Burn { .. } => "Burn"@,
            EventView::OwnershipTransferred { .. } => "OwnershipTransferred"@,
            EventView::RoleAssigned { .. } => "RoleAssigned"@,
            EventView::RoleRemoved { .. } => "RoleRemoved"@,
        }
    }

    /// A line for a human reader that holds every identifier of the event.
    pub open spec fn details(self) -> Seq<char> {
        match self {
            EventView::Mint { recipient, token_id } => "Token ID: "@ + decimal(token_id as nat)
                + ", Owner: "@ + recipient,
            EventView::Transfer { from, to, token_id } => "Token ID: "@ + decimal(token_id as nat)
                + ", From: "@ + from + ", To: "@ + to,
            EventView::Approval { owner, delegate, token_id } => "Token ID: "@ + decimal(
                token_id as nat,
            ) + ", Owner: "@ + owner + ", Approved for: "@ + delegate,
            EventView::ApprovalForAll { owner, operator } => "Owner: "@ + owner + ", Operator: "@
                + operator,
            EventView::RevokeOperator { owner, operator } => "Owner: "@ + owner + ", Operator: "@
                + operator,
            EventView::Burn { owner, token_id } => "Token ID: "@ + decimal(token_id as nat)
                + ", Owner: "@ + owner,
            EventView::OwnershipTransferred { previous, new_owner } => "Previous Owner: "@
                + previous + ", New Owner: "@ + new_owner,
            EventView::RoleAssigned { role, user, changed } => if changed {
                "Role: "@ + role + ", User: "@ + user
            } else {
                "User: "@ + user + " already has the role: "@ + role
            },
            EventView::RoleRemoved { role, user, changed } => if changed {
                "Role: "@ + role + ", User: "@ + user
            } else {
                "User: "@ + user + " does not have the role: "@ + role
            },
        }
    }
}

/// The one-character string of the digit `d`.
fn digit_str(d: u64) -> (r: &'static str)
    requires
        d < 10,
    ensures
        r@ == seq![digit(d as nat)],
{
    proof {
        reveal_strlit("0");
        reveal_strlit("1");
        reveal_strlit("2");
        reveal_strlit("3");
        reveal_strlit("4");
        reveal_strlit("5");
        reveal_strlit("6");
        reveal_strlit("7");
        reveal_strlit("8");
        reveal_strlit("9");
    }
    let r = if d == 0 {
        "0"
    } else if d == 1 {
        "1"
    } else if d == 2 {
        "2"
    } else if d == 3 {
        "3"
    } else if d == 4 {
        "4"
    } else if d == 5 {
        "5"
    } else if d == 6 {
        "6"
    } else if d == 7 {
        "7"
    } else if d == 8 {
        "8"
    } else {
        "9"
    };
    assert(r@ =~= seq![digit(d as nat)]);
    r
}

/// Appends `n`, written in base ten, to `out`.
pub fn push_decimal(out: &mut String, n: u64)
    ensures
        final(out)@ == old(out)@ + decimal(n as nat),
    decreases n,
{
    if n >= 10 {
        push_decimal(out, n / 10);
    }
    out.append(digit_str(n % 10));
    proof {
        if n >= 10 {
            assert(old(out)@ + decimal((n / 10) as nat) + seq![digit((n % 10) as nat)] =~= old(
                out,
            )@ + decimal(n as nat));
        }
    }
}

impl Event {
    /// The name under which the event is announced.
    pub fn name(&self) -> (r: String)
        ensures
            r@ == self@.name(),
    {
        match self {
            Event::Mint { .. } => "Mint".to_owned(),
            Event::Transfer { .. } => "Transfer".to_owned(),
            Event::Approval { .. } => "Approval".to_owned(),
            Event::ApprovalForAll { .. } => "ApprovalForAll".to_owned(),
            Event::RevokeOperator { .. } => "RevokeOperator".to_owned(),
            Event::Burn { .. } => "Burn".to_owned(),
            Event::OwnershipTransferred { .. } => "OwnershipTransferred".to_owned(),
            Event::RoleAssigned { .. } => "RoleAssigned".to_owned(),
            Event::RoleRemoved { .. } => "RoleRemoved".to_owned(),
        }
    }

    /// A line for a human reader that holds every identifier of the event.
    pub fn details(&self) -> (r: String)
        ensures
            r@ == self@.details(),
    {
        match self {
            Event::Mint { recipient, token_id } => {
                let mut s = "Token ID: ".to_owned();
                push_decimal(&mut s, *token_id);
                s.append(", Owner: ");
                s.append(recipient.as_str());
                s
            },
            Event::Transfer { from, to, token_id } => {
                let mut s = "Token ID: ".to_owned();
                push_decimal(&mut s, *token_id);
                s.append(", From: ");
                s.append(from.as_str());
                s.append(", To: ");
                s.append(to.as_str());
                s
            },
            Event::Approval { owner, delegate, token_id } => {
                let mut s = "Token ID: ".to_owned();
                push_decimal(&mut s, *token_id);
                s.append(", Owner: ");
                s.append(owner.as_str());
                s.append(", Approved for: ");
                s.append(delegate.as_str());
                s
            },
            Event::ApprovalForAll { owner, operator } => {
                let mut s = "Owner: ".to_owned();
                s.append(owner.as_str());
                s.append(", Operator: ");
                s.append(operator.as_str());
                s
            },
            Event::RevokeOperator { owner, operator } => {
                let mut s = "Owner: ".to_owned();
                s.append(owner.as_str());
                s.append(", Operator: ");
                s.append(operator.as_str());
                s
            },
            Event::Burn { owner, token_id } => {
                let mut s = "Token ID: ".to_owned();
                push_decimal(&mut s, *token_id);
                s.append(", Owner: ");
                s.append(owner.as_str());
                s
            },
            Event::OwnershipTransferred { previous, new_owner } => {
                let mut s = "Previous Owner: ".to_owned();
                s.append(previous.as_str());
                s.append(", New Owner: ");
                s.append(new_owner.as_str());
                s
            },
            Event::RoleAssigned { role, user, changed } => {
                if *changed {
                    let mut s = "Role: ".to_owned();
                    s.append(role.as_str());
                    s.append(", User: ");
                    s.append(user.as_str());
                    s
                } else {
                    let mut s = "User: ".to_owned();
                    s.append(user.as_str());
                    s.append(" already has the role: ");
                    s.append(role.as_str());
                    s
                }
            },
            Event::RoleRemoved { role, user, changed } => {
                if *changed {
                    let mut s = "Role: ".to_owned();
                    s.append(role.as_str());
                    s.append(", User: ");
                    s.append(user.as_str());
                    s
                } else {
                    let mut s = "User: ".to_owned();
                    s.append(user.as_str());
                    s.append(" does not have the role: ");
                    s.append(role.as_str());
                    s
                }
            },
        }
    }
}

} // verus!
