//! Key handling, balance arithmetic and command routing for a small ledger
//! client.
//!
//! The crate holds everything the client decides: how key material is
//! encoded and checked, how amounts convert between display units and base
//! units, and which ledger call or report follows from a command and from
//! the replies of the ledger. Talking to the network and to the process
//! environment is left to the caller.

pub mod amount;
pub mod base58;
pub mod credential;
pub mod decimal;
pub mod error;
pub mod key;
pub mod ledger;
pub mod router;
