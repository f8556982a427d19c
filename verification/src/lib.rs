//! An in-memory registry of non-fungible tokens and a registry of roles.

pub mod errors;
pub mod events;
pub mod ledger;
pub mod invariants;
pub mod lists;
mod table;
mod accounts;
mod members;
pub mod erc721;
pub mod roster;
pub mod roles;

pub use erc721::ERC721;
pub use roles::RoleManager;
