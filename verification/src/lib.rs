//! A single canonical token mint under a program-derived authority: the
//! account model, the authority derivation, and the four instructions
//! that create the mint, issue supply, move balances and delegate
//! allowances.

pub mod accounts;
pub mod address;
pub mod authority;
pub mod error;
pub mod instructions;
pub mod laws;
pub mod ledger;
