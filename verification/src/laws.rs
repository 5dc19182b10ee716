//! What holds of the instructions for every ledger and every input.

use vstd::prelude::*;
use crate::accounts::{ApproveToken, InitToken, InitTokenParams, MintTokens, TransferToken};
use crate::address::Address;
use crate::authority::{derived_authority, derived_holding, Derivation};
use crate::error::TokenError;
use crate::instructions::{
    approve_outcome, initialize_outcome, mint_tokens_outcome, transfer_outcome,
};
use crate::ledger::{
    lemma_total_covers, lemma_total_covers_two, opened_account, HoldingAccount, LedgerView,
};

verus! {

/// Once `initialize` has succeeded, the mint's authority, and the update
/// authority of its metadata record, is the address derived for the
/// program; and `initialize` fails from then on, whatever it is given,
/// and changes nothing.
pub proof fn law_initialize_once(
    pre: LedgerView,
    program: Address,
    accounts: InitToken,
    params: InitTokenParams,
    later_program: Address,
    later_accounts: InitToken,
    later_params: InitTokenParams,
)
    requires
        pre.wf(),
        initialize_outcome(pre, derived_authority(program), accounts, params).0 is Ok,
    ensures
        ({
            let post = initialize_outcome(pre, derived_authority(program), accounts, params).1;
            let again = initialize_outcome(
                post,
                derived_authority(later_program),
                later_accounts,
                later_params,
            );
            &&& derived_authority(program) matches Some(derived)
            &&& post.mint matches Some(mint)
            &&& mint.address == derived.address
            &&& mint.authority == derived.address
            &&& post.metadata matches Some(record)
            &&& record.update_authority == derived.address
            &&& again.0 is Err
            &&& again.1 == post
            &&& later_accounts.payer.is_signer && later_program == program && later_accounts.mint
                == accounts.mint ==> again.0 == Err::<(), TokenError>(
                TokenError::AlreadyInitialized,
            )
        }),
{
}

/// Where the mint that was presented records another authority than the
/// one derived for the program, `mint_tokens` with a signed payer fails
/// with `AuthorityMismatch`, and the supply and every balance stay as
/// they were.
pub proof fn law_mint_needs_derived_authority(
    pre: LedgerView,
    program: Address,
    accounts: MintTokens,
    amount: u64,
)
    requires
        pre.wf(),
        accounts.payer.is_signer,
        pre.mint matches Some(mint) && mint.address == accounts.mint && !(derived_authority(
            program,
        ) matches Some(derived) && derived.address == mint.authority),
    ensures
        ({
            let after = mint_tokens_outcome(
                pre,
                derived_authority(program),
                derived_holding(accounts.payer.key, accounts.mint),
                accounts,
                amount,
            );
            &&& after.0 == Err::<(), TokenError>(TokenError::AuthorityMismatch)
            &&& after.1 == pre
            &&& after.1.mint.unwrap().supply == pre.mint.unwrap().supply
        }),
{
}

/// Where `mint_tokens` passes its checks on the accounts and the supply
/// plus the amount fits the amount type, it succeeds: the supply grows by
/// the amount, and so does the balance of the destination, counted from
/// zero where the account was absent, in which case it is the payer's.
/// Every other account stays as it was.
pub proof fn law_mint_grows_supply_and_balance(
    pre: LedgerView,
    authority: Option<Derivation>,
    holding: Option<Derivation>,
    accounts: MintTokens,
    amount: u64,
)
    requires
        pre.wf(),
        pre.mint is Some,
        pre.mint.unwrap().supply + amount <= u64::MAX,
        ({
            let r = mint_tokens_outcome(pre, authority, holding, accounts, amount).0;
            r is Ok || r == Err::<(), TokenError>(TokenError::ArithmeticOverflow)
        }),
    ensures
        ({
            let after = mint_tokens_outcome(pre, authority, holding, accounts, amount);
            let before = if pre.has(accounts.destination) {
                pre.holding(accounts.destination)
            } else {
                opened_account(
                    accounts.destination,
                    accounts.payer.key,
                    pre.mint.unwrap().address,
                )
            };
            &&& after.0 is Ok
            &&& after.1.mint.unwrap().supply == pre.mint.unwrap().supply + amount
            &&& after.1.has(accounts.destination)
            &&& after.1.holding(accounts.destination).balance == before.balance + amount
            &&& after.1.holding(accounts.destination) == (HoldingAccount {
                balance: after.1.holding(accounts.destination).balance,
                ..before
            })
            &&& after.1.holding(accounts.destination).owner == accounts.payer.key
            &&& forall|a: Address|
                a != accounts.destination && pre.has(a) ==> after.1.has(a) && after.1.holding(a)
                    == pre.holding(a)
        }),
{
    let opened = pre.opened(accounts.destination, accounts.payer.key);
    pre.lemma_opened(accounts.destination, accounts.payer.key);
    let at = opened.position(accounts.destination);
    opened.lemma_position(at);
    lemma_total_covers(opened.holdings, at);
    let grown = opened.credited(accounts.destination, amount as int);
    opened.lemma_with_holding(grown.holding(accounts.destination));
    assert(grown.holdings[at].address == accounts.destination);
}

/// Where the owner of the source has signed, both accounts exist and are
/// two accounts, and the source holds at least the amount, `transfer`
/// succeeds: the source holds the amount less, the destination the amount
/// more, and nothing else of the two has changed; every other account and
/// the mint are what they were.
pub proof fn law_transfer_moves_amount(pre: LedgerView, accounts: TransferToken, amount: u64)
    requires
        pre.wf(),
        accounts.from.is_signer,
        pre.has(accounts.from_ata),
        pre.has(accounts.to_ata),
        accounts.from_ata != accounts.to_ata,
        pre.holding(accounts.from_ata).owner == accounts.from.key,
        amount <= pre.holding(accounts.from_ata).balance,
    ensures
        ({
            let after = transfer_outcome(pre, accounts, amount);
            &&& after.0 is Ok
            &&& after.1.has(accounts.from_ata)
            &&& after.1.has(accounts.to_ata)
            &&& after.1.holding(accounts.from_ata).balance == pre.holding(
                accounts.from_ata,
            ).balance - amount
            &&& after.1.holding(accounts.to_ata).balance == pre.holding(accounts.to_ata).balance
                + amount
            &&& after.1.holding(accounts.from_ata) == (HoldingAccount {
                balance: after.1.holding(accounts.from_ata).balance,
                ..pre.holding(accounts.from_ata)
            })
            &&& after.1.holding(accounts.to_ata) == (HoldingAccount {
                balance: after.1.holding(accounts.to_ata).balance,
                ..pre.holding(accounts.to_ata)
            })
            &&& after.1.mint == pre.mint
            &&& forall|a: Address|
                a != accounts.from_ata && a != accounts.to_ata && pre.has(a) ==> after.1.has(a)
                    && after.1.holding(a) == pre.holding(a)
        }),
{
    let source = pre.position(accounts.from_ata);
    let destination = pre.position(accounts.to_ata);
    lemma_total_covers_two(pre.holdings, source, destination);
    let between = pre.credited(accounts.from_ata, -(amount as int));
    pre.lemma_with_holding(between.holding(accounts.from_ata));
    assert(between.holdings[source].address == accounts.from_ata);
    let after = between.credited(accounts.to_ata, amount as int);
    between.lemma_with_holding(after.holding(accounts.to_ata));
    assert(after.holdings[between.position(accounts.to_ata)].address == accounts.to_ata);
}

/// Where the source holds less than the amount, `transfer` fails and the
/// ledger, and with it every balance, stays as it was.
pub proof fn law_transfer_beyond_balance_fails(
    pre: LedgerView,
    accounts: TransferToken,
    amount: u64,
)
    requires
        pre.wf(),
        pre.has(accounts.from_ata),
        amount > pre.holding(accounts.from_ata).balance,
    ensures
        transfer_outcome(pre, accounts, amount).0 is Err,
        transfer_outcome(pre, accounts, amount).1 == pre,
{
}

/// A second `approve` on the same source replaces the allowance of the
/// first: the source then grants exactly the second amount, to the second
/// delegate.
pub proof fn law_approve_replaces(
    pre: LedgerView,
    first: ApproveToken,
    first_amount: u64,
    second: ApproveToken,
    second_amount: u64,
)
    requires
        pre.wf(),
        approve_outcome(pre, first, first_amount).0 is Ok,
        second.from_ata == first.from_ata,
        second.from == first.from,
    ensures
        ({
            let between = approve_outcome(pre, first, first_amount).1;
            let after = approve_outcome(between, second, second_amount);
            &&& after.0 is Ok
            &&& after.1.has(first.from_ata)
            &&& after.1.holding(first.from_ata).allowance == second_amount
            &&& after.1.holding(first.from_ata).delegate == Some(second.delegate.key)
            &&& after.1.holding(first.from_ata) == (HoldingAccount {
                delegate: Some(second.delegate.key),
                allowance: second_amount,
                ..pre.holding(first.from_ata)
            })
        }),
{
    let between = approve_outcome(pre, first, first_amount).1;
    pre.lemma_with_holding(between.holdings[pre.position(first.from_ata)]);
    assert(between.holdings[pre.position(first.from_ata)].address == first.from_ata);
    let after = approve_outcome(between, second, second_amount).1;
    between.lemma_with_holding(after.holdings[between.position(first.from_ata)]);
    assert(after.holdings[between.position(first.from_ata)].address == first.from_ata);
}

/// No instruction changes the authority of a mint that exists: whatever
/// `mint_tokens`, `transfer` and `approve` return, the mint names the
/// authority that it named before, at the address where it stood.
pub proof fn law_authority_is_kept(
    pre: LedgerView,
    authority: Option<Derivation>,
    holding: Option<Derivation>,
    minting: MintTokens,
    moving: TransferToken,
    granting: ApproveToken,
    amount: u64,
)
    requires
        pre.wf(),
        pre.mint is Some,
    ensures
        ({
            let minted = mint_tokens_outcome(pre, authority, holding, minting, amount).1;
            let moved = transfer_outcome(pre, moving, amount).1;
            let granted = approve_outcome(pre, granting, amount).1;
            &&& minted.mint matches Some(mint) && mint.authority == pre.mint.unwrap().authority
                && mint.address == pre.mint.unwrap().address
            &&& moved.mint == pre.mint
            &&& granted.mint == pre.mint
        }),
{
}

} // verus!
