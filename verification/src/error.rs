//! The conditions under which an instruction fails.

use vstd::prelude::*;

verus! {

/// Why an instruction failed. A failed instruction changes nothing.
#[derive(Clone, Copy, Debug, PartialEq, Eq, Structural)]
pub enum TokenError {
    /// The derived authority is not the account presented as the mint, or
    /// not the authority that the mint records.
    AuthorityMismatch,
    /// An account that was to be created exists already.
    AlreadyInitialized,
    /// An account that was to be used does not exist.
    Uninitialized,
    /// The supply would leave the range of the amount type.
    ArithmeticOverflow,
    /// The source holds less than the amount to move.
    InsufficientBalance,
    /// A required signature is absent, or the signer is not the owner that
    /// the account records.
    InvalidSigner,
    /// A holder's account is not the one that its owner and mint address.
    AddressMismatch,
}

} // verus!
