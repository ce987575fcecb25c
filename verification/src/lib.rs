//! A constant-product market maker for two assets: a pool that takes
//! deposits of both, issues shares for them, and trades one asset for the
//! other at a price set by its reserves and its fee.
//!
//! `amm` holds the pool and its operations, `model` says in mathematics what
//! each operation returns and does, `curve` holds the arithmetic of the
//! price, `ledger` the books of balances as they are kept and `book` what
//! such a book is in mathematics, `limits` the tests that keep the
//! arithmetic within a machine word, and `preservation` and `laws` what is
//! proved of all of it.

#![allow(non_snake_case)]

pub mod amm;
pub mod book;
pub mod curve;
pub mod error;
pub mod laws;
pub mod ledger;
pub mod limits;
pub mod model;
pub mod preservation;

pub use amm::Amm;
pub use error::Error;
pub use ledger::Ledger;
