//! The account lists that the instructions take: for each account the
//! address under which it was presented, and for a signer whether the host
//! found its signature on the transaction.

use vstd::prelude::*;
use crate::address::Address;

verus! {

/// An account that has to authorize the instruction.
#[derive(Clone, Copy, Debug)]
pub struct Signer {
    pub key: Address,
    /// Whether the host verified this account's signature.
    pub is_signer: bool,
}

/// An identity of which nothing is checked: it need not be an account of
/// any kind.
#[derive(Clone, Copy, Debug)]
pub struct UncheckedAccount {
    pub key: Address,
}

/// The payload of `initialize`.
#[derive(Clone, Debug)]
pub struct InitTokenParams {
    pub name: String,
    pub symbol: String,
    pub uri: String,
    pub decimals: u8,
}

/// The accounts of `initialize`.
#[derive(Clone, Copy, Debug)]
pub struct InitToken {
    /// The slot in which the metadata record is created.
    pub metadata: UncheckedAccount,
    /// The slot in which the mint is created.
    pub mint: Address,
    /// Who pays for the new accounts.
    pub payer: Signer,
}

/// The accounts of `mint_tokens`.
#[derive(Clone, Copy, Debug)]
pub struct MintTokens {
    pub mint: Address,
    /// The payer's account for this mint, created where it is absent.
    pub destination: Address,
    /// Who pays for a new account, and owns it.
    pub payer: Signer,
}

/// The accounts of `transfer`.
#[derive(Clone, Copy, Debug)]
pub struct TransferToken {
    pub from_ata: Address,
    pub to_ata: Address,
    /// The owner of `from_ata`.
    pub from: Signer,
}

/// The accounts of `approve`.
#[derive(Clone, Copy, Debug)]
pub struct ApproveToken {
    pub from_ata: Address,
    /// Who may spend from `from_ata`: any identity.
    pub delegate: UncheckedAccount,
    /// The owner of `from_ata`.
    pub from: Signer,
}

} // verus!
