//! Error values returned by the registries.
//!
//! Every operation has its own error type, so that a caller can match on
//! exactly the failures that the operation can produce. [`ErrorKind`] groups
//! them into the five categories shared by the whole crate.

use vstd::prelude::*;

verus! {

/// The category of a failure, independent of the operation that reported it.
#[derive(Clone, Copy, Debug, PartialEq, Eq, Structural)]
pub enum ErrorKind {
    /// The caller lacks the privilege that the operation demands.
    Unauthorized,
    /// The token does not exist: it was never minted, or it was burned.
    NotFound,
    /// The token id is already in use by a live token.
    AlreadyExists,
    /// An argument is structurally invalid (a token id of zero).
    InvalidArgument,
    /// The `from` account named by the caller is not the recorded owner.
    OwnerMismatch,
}

/// Why a mint was rejected.
#[derive(Clone, Copy, Debug, PartialEq, Eq, Structural)]
pub enum MintError {
    /// The caller is not the contract owner.
    Unauthorized,
    /// The token id is zero.
    InvalidTokenId,
    /// The token id already has an owner.
    AlreadyExists,
}

/// Why a transfer was rejected.
#[derive(Clone, Copy, Debug, PartialEq, Eq, Structural)]
pub enum TransferError {
    /// The token has no owner.
    TokenNotFound,
    /// The caller is neither the owner, nor the token's delegate, nor an
    /// operator of the owner.
    Unauthorized,
    /// The `from` account is not the recorded owner of the token.
    OwnerMismatch,
}

/// Why an approval was rejected.
#[derive(Clone, Copy, Debug, PartialEq, Eq, Structural)]
pub enum ApproveError {
    /// The token has no owner.
    TokenNotFound,
    /// The caller is not the owner of the token.
    Unauthorized,
}

/// Why a burn was rejected.
#[derive(Clone, Copy, Debug, PartialEq, Eq, Structural)]
pub enum BurnError {
    /// The token has no owner.
    TokenNotFound,
    /// The caller is neither the owner nor an operator of the owner.
    Unauthorized,
}

/// Why a change of the token registry's contract owner was rejected.
#[derive(Clone, Copy, Debug, PartialEq, Eq, Structural)]
pub enum OwnershipError {
    /// The caller is not the contract owner.
    Unauthorized,
}

/// Returned by the role registry when the caller is not its owner.
#[derive(Clone, Copy, Debug, PartialEq, Eq, Structural)]
pub struct Unauthorized;

impl MintError {
    /// The category of this error.
    pub open spec fn kind_spec(self) -> ErrorKind {
        match self {
            MintError::Unauthorized => ErrorKind::Unauthorized,
            MintError::InvalidTokenId => ErrorKind::InvalidArgument,
            MintError::AlreadyExists => ErrorKind::AlreadyExists,
        }
    }

    /// The text of [`MintError::message`].
    pub open spec fn text(self) -> Seq<char> {
        match self {
            MintError::Unauthorized => "Only the contract owner can mint new tokens"@,
            MintError::InvalidTokenId => "Token ID must not be zero"@,
            MintError::AlreadyExists => "Token ID already exists"@,
        }
    }

    /// The category of this error.
    pub fn kind(&self) -> (k: ErrorKind)
        ensures
            k == self.kind_spec(),
    {
        match self {
            MintError::Unauthorized => ErrorKind::Unauthorized,
            MintError::InvalidTokenId => ErrorKind::InvalidArgument,
            MintError::AlreadyExists => ErrorKind::AlreadyExists,
        }
    }

    /// A sentence that describes the failure.
    pub fn message(&self) -> (m: String)
        ensures
            m@ == self.text(),
    {
        match self {
            MintError::Unauthorized => "Only the contract owner can mint new tokens".to_owned(),
            MintError::InvalidTokenId => "Token ID must not be zero".to_owned(),
            MintError::AlreadyExists => "Token ID already exists".to_owned(),
        }
    }
}

impl TransferError {
    /// The category of this error.
    pub open spec fn kind_spec(self) -> ErrorKind {
        match self {
            TransferError::TokenNotFound => ErrorKind::NotFound,
            TransferError::Unauthorized => ErrorKind::Unauthorized,
            TransferError::OwnerMismatch => ErrorKind::OwnerMismatch,
        }
    }

    /// The text of [`TransferError::message`].
    pub open spec fn text(self) -> Seq<char> {
        match self {
            TransferError::TokenNotFound => "Token does not exist"@,
            TransferError::Unauthorized => "Unauthorized transfer attempt"@,
            TransferError::OwnerMismatch => "Token is not owned by the sender"@,
        }
    }

    /// The category of this error.
    pub fn kind(&self) -> (k: ErrorKind)
        ensures
            k == self.kind_spec(),
    {
        match self {
            TransferError::TokenNotFound => ErrorKind::NotFound,
            TransferError::Unauthorized => ErrorKind::Unauthorized,
            TransferError::OwnerMismatch => ErrorKind::OwnerMismatch,
        }
    }

    /// A sentence that describes the failure.
    pub fn message(&self) -> (m: String)
        ensures
            m@ == self.text(),
    {
        match self {
            TransferError::TokenNotFound => "Token does not exist".to_owned(),
            TransferError::Unauthorized => "Unauthorized transfer attempt".to_owned(),
            TransferError::OwnerMismatch => "Token is not owned by the sender".to_owned(),
        }
    }
}

impl ApproveError {
    /// The category of this error.
    pub open spec fn kind_spec(self) -> ErrorKind {
        match self {
            ApproveError::TokenNotFound => ErrorKind::NotFound,
            ApproveError::Unauthorized => ErrorKind::Unauthorized,
        }
    }

    /// The text of [`ApproveError::message`].
    pub open spec fn text(self) -> Seq<char> {
        match self {
            ApproveError::TokenNotFound => "Token does not exist"@,
            ApproveError::Unauthorized => "Only the owner can approve"@,
        }
    }

    /// The category of this error.
    pub fn kind(&self) -> (k: ErrorKind)
        ensures
            k == self.kind_spec(),
    {
        match self {
            ApproveError::TokenNotFound => ErrorKind::NotFound,
            ApproveError::Unauthorized => ErrorKind::Unauthorized,
        }
    }

    /// A sentence that describes the failure.
    pub fn message(&self) -> (m: String)
        ensures
            m@ == self.text(),
    {
        match self {
            ApproveError::TokenNotFound => "Token does not exist".to_owned(),
            ApproveError::Unauthorized => "Only the owner can approve".to_owned(),
        }
    }
}

impl BurnError {
    /// The category of this error.
    pub open spec fn kind_spec(self) -> ErrorKind {
        match self {
            BurnError::TokenNotFound => ErrorKind::NotFound,
            BurnError::Unauthorized => ErrorKind::Unauthorized,
        }
    }

    /// The text of [`BurnError::message`].
    pub open spec fn text(self) -> Seq<char> {
        match self {
            BurnError::TokenNotFound => "Token does not exist"@,
            BurnError::Unauthorized => "Only the owner or an operator can burn"@,
        }
    }

    /// The category of this error.
    pub fn kind(&self) -> (k: ErrorKind)
        ensures
            k == self.kind_spec(),
    {
        match self {
            BurnError::TokenNotFound => ErrorKind::NotFound,
            BurnError::Unauthorized => ErrorKind::Unauthorized,
        }
    }

    /// A sentence that describes the failure.
    pub fn message(&self) -> (m: String)
        ensures
            m@ == self.text(),
    {
        match self {
            BurnError::TokenNotFound => "Token does not exist".to_owned(),
            BurnError::Unauthorized => "Only the owner or an operator can burn".to_owned(),
        }
    }
}

impl OwnershipError {
    /// The category of this error.
    pub open spec fn kind_spec(self) -> ErrorKind {
        ErrorKind::Unauthorized
    }

    /// The text of [`OwnershipError::message`].
    pub open spec fn text(self) -> Seq<char> {
        "Only the current owner can transfer ownership"@
    }

    /// The category of this error.
    pub fn kind(&self) -> (k: ErrorKind)
        ensures
            k == self.kind_spec(),
    {
        ErrorKind::Unauthorized
    }

    /// A sentence that describes the failure.
    pub fn message(&self) -> (m: String)
        ensures
            m@ == self.text(),
    {
        "Only the current owner can transfer ownership".to_owned()
    }
}

impl Unauthorized {
    /// The category of this error.
    pub open spec fn kind_spec(self) -> ErrorKind {
        ErrorKind::Unauthorized
    }

    /// The text of [`Unauthorized::message`].
    pub open spec fn text(self) -> Seq<char> {
        "Only the owner can perform this operation"@
    }

    /// The category of this error.
    pub fn kind(&self) -> (k: ErrorKind)
        ensures
            k == self.kind_spec(),
    {
        ErrorKind::Unauthorized
    }

    /// A sentence that describes the failure.
    pub fn message(&self) -> (m: String)
        ensures
            m@ == self.text(),
    {
        "Only the owner can perform this operation".to_owned()
    }
}

} // verus!
