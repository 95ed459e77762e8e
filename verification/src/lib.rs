//! A multi-token ledger: one fungible balance per (account, token id) pair,
//! with owner-gated minting, holder burning, supply tracking, pausing,
//! blanket operator approvals, and batch operations.
//!
//! The contract state is an explicit value of type [`token::ERC1155Token`];
//! every entry point takes the calling account as an argument and mutates
//! the state in place, returning a structured error when a guard or a
//! validation fails. A failing call leaves the state exactly as it was.

pub mod account;
pub mod decimal;
pub mod error;
pub mod event;
pub mod laws;
pub mod ledger;
pub mod quantity;
pub mod token;

pub use account::Account;
pub use quantity::U256;
pub use error::Error;
pub use event::Event;
pub use token::ERC1155Token;
