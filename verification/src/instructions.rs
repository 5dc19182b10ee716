//! The four instructions. Each one checks how the accounts that it was
//! given relate to each other and to the ledger, and only then changes the
//! ledger; where a check fails the ledger stays as it was.

use vstd::prelude::*;
use crate::accounts::{ApproveToken, InitToken, InitTokenParams, MintTokens, TransferToken};
use crate::address::Address;
use crate::authority::{
    authorizes, check_authority, derive_authority, derive_holding, derived_authority,
    derived_holding, Derivation,
};
use crate::error::TokenError;
use crate::ledger::{
    distinct_addresses, lemma_total_covers, lemma_total_covers_two, lemma_total_push,
    lemma_total_update, HoldingAccount, Ledger, LedgerView, MetadataRecord, MetadataView, Mint,
};

verus! {

/// What an instruction returns and leaves behind: where a check fails,
/// the error and the ledger as it was; else the changed ledger.
pub open spec fn outcome(pre: LedgerView, error: Option<TokenError>, effect: LedgerView) -> (
    Result<(), TokenError>,
    LedgerView,
) {
    match error {
        Some(error) => (Err(error), pre),
        None => (Ok(()), effect),
    }
}

/// The mint that `initialize` creates: nothing issued yet, and the mint's
/// own address, which is the derived authority, as the only authority.
pub open spec fn issued_mint(accounts: InitToken, params: InitTokenParams) -> Mint {
    Mint { address: accounts.mint, decimals: params.decimals, supply: 0, authority: accounts.mint }
}

/// The metadata record that `initialize` creates: the given name, symbol
/// and URI, under the mint's own address as update authority; it can be
/// changed later, takes no fee, and names no creators, collection or uses.
pub open spec fn issued_metadata(accounts: InitToken, params: InitTokenParams) -> MetadataView {
    MetadataView {
        address: accounts.metadata.key,
        mint: accounts.mint,
        update_authority: accounts.mint,
        name: params.name@,
        symbol: params.symbol@,
        uri: params.uri@,
        seller_fee_basis_points: 0,
        is_mutable: true,
        creators: None,
        collection: None,
        uses: None,
    }
}

/// Why `initialize` fails, if it does: the payer has not signed; the mint
/// slot is not the address derived for the authority; the asset is issued
/// already.
pub open spec fn initialize_error(
    pre: LedgerView,
    authority: Option<Derivation>,
    accounts: InitToken,
) -> Option<TokenError> {
    if !accounts.payer.is_signer {
        Some(TokenError::InvalidSigner)
    } else if !authorizes(authority, accounts.mint, accounts.mint) {
        Some(TokenError::AuthorityMismatch)
    } else if pre.mint is Some {
        Some(TokenError::AlreadyInitialized)
    } else {
        None
    }
}

/// The ledger after a successful `initialize`.
pub open spec fn initialize_effect(
    pre: LedgerView,
    accounts: InitToken,
    params: InitTokenParams,
) -> LedgerView {
    LedgerView {
        mint: Some(issued_mint(accounts, params)),
        metadata: Some(issued_metadata(accounts, params)),
        holdings: pre.holdings,
    }
}

/// What `initialize` returns and leaves behind.
pub open spec fn initialize_outcome(
    pre: LedgerView,
    authority: Option<Derivation>,
    accounts: InitToken,
    params: InitTokenParams,
) -> (Result<(), TokenError>, LedgerView) {
    outcome(
        pre,
        initialize_error(pre, authority, accounts),
        initialize_effect(pre, accounts, params),
    )
}

/// The metadata record for a new mint.
pub fn describe(accounts: &InitToken, params: InitTokenParams) -> (record: MetadataRecord)
    ensures
        record@ == issued_metadata(*accounts, params),
{
    MetadataRecord {
        address: accounts.metadata.key,
        mint: accounts.mint,
        update_authority: accounts.mint,
        name: params.name,
        symbol: params.symbol,
        uri: params.uri,
        seller_fee_basis_points: 0,
        is_mutable: true,
        creators: None,
        collection: None,
        uses: None,
    }
}

/// Issues the asset, given what the derivation of the authority yielded:
/// creates the mint under the derived authority and its metadata record.
pub fn initialize_derived(
    ledger: &mut Ledger,
    authority: Option<Derivation>,
    accounts: &InitToken,
    metadata: InitTokenParams,
) -> (r: Result<(), TokenError>)
    requires
        old(ledger)@.wf(),
    ensures
        final(ledger)@.wf(),
        (r, final(ledger)@) == initialize_outcome(old(ledger)@, authority, *accounts, metadata),
{
    if !accounts.payer.is_signer {
        return Err(TokenError::InvalidSigner);
    }
    match check_authority(authority, &accounts.mint, &accounts.mint) {
        Ok(_) => {},
        Err(error) => {
            return Err(error);
        },
    }
    if ledger.mint.is_some() {
        return Err(TokenError::AlreadyInitialized);
    }
    let decimals = metadata.decimals;
    ledger.mint = Some(
        Mint { address: accounts.mint, decimals, supply: 0, authority: accounts.mint },
    );
    ledger.metadata = Some(describe(accounts, metadata));
    Ok(())
}

/// Issues the asset of `program`: derives the authority, creates the mint
/// under it at the derived address, and creates the metadata record.
pub fn initialize(
    ledger: &mut Ledger,
    program: &Address,
    accounts: &InitToken,
    metadata: InitTokenParams,
) -> (r: Result<(), TokenError>)
    requires
        old(ledger)@.wf(),
    ensures
        final(ledger)@.wf(),
        (r, final(ledger)@) == initialize_outcome(
            old(ledger)@,
            derived_authority(*program),
            *accounts,
            metadata,
        ),
{
    let authority = derive_authority(program);
    initialize_derived(ledger, authority, accounts, metadata)
}

/// Why `mint_tokens` fails, if it does: the payer has not signed; no mint
/// stands at the address presented; the derived authority is not that
/// address, or not the authority that the mint records; the destination is
/// not the account that the payer and the mint address, or belongs to
/// someone else; the supply would overflow.
pub open spec fn mint_tokens_error(
    pre: LedgerView,
    authority: Option<Derivation>,
    holding: Option<Derivation>,
    accounts: MintTokens,
    amount: u64,
) -> Option<TokenError> {
    if !accounts.payer.is_signer {
        Some(TokenError::InvalidSigner)
    } else if !(pre.mint matches Some(mint) && mint.address == accounts.mint) {
        Some(TokenError::Uninitialized)
    } else if !authorizes(authority, accounts.mint, pre.mint.unwrap().authority) {
        Some(TokenError::AuthorityMismatch)
    } else if !(holding matches Some(derived) && derived.address == accounts.destination) {
        Some(TokenError::AddressMismatch)
    } else if pre.has(accounts.destination) && pre.holding(accounts.destination).owner
        != accounts.payer.key {
        Some(TokenError::AddressMismatch)
    } else if pre.mint.unwrap().supply + amount > u64::MAX {
        Some(TokenError::ArithmeticOverflow)
    } else {
        None
    }
}

/// The ledger after a successful `mint_tokens`: the destination exists,
/// and its balance and the supply have both grown by `amount`.
pub open spec fn mint_tokens_effect(pre: LedgerView, accounts: MintTokens, amount: u64) -> LedgerView {
    let grown = pre.opened(accounts.destination, accounts.payer.key).credited(
        accounts.destination,
        amount as int,
    );
    LedgerView {
        mint: Some(
            Mint { supply: (pre.mint.unwrap().supply + amount) as u64, ..pre.mint.unwrap() },
        ),
        ..grown
    }
}

/// What `mint_tokens` returns and leaves behind.
pub open spec fn mint_tokens_outcome(
    pre: LedgerView,
    authority: Option<Derivation>,
    holding: Option<Derivation>,
    accounts: MintTokens,
    amount: u64,
) -> (Result<(), TokenError>, LedgerView) {
    outcome(
        pre,
        mint_tokens_error(pre, authority, holding, accounts, amount),
        mint_tokens_effect(pre, accounts, amount),
    )
}

/// Issues `amount` to the payer's account, given what the derivations of
/// the authority and of the payer's account yielded.
pub fn mint_tokens_derived(
    ledger: &mut Ledger,
    authority: Option<Derivation>,
    holding: Option<Derivation>,
    accounts: &MintTokens,
    amount: u64,
) -> (r: Result<(), TokenError>)
    requires
        old(ledger)@.wf(),
    ensures
        final(ledger)@.wf(),
        (r, final(ledger)@) == mint_tokens_outcome(
            old(ledger)@,
            authority,
            holding,
            *accounts,
            amount,
        ),
{
    if !accounts.payer.is_signer {
        return Err(TokenError::InvalidSigner);
    }
    let mint = match ledger.mint {
        Some(mint) => mint,
        None => {
            return Err(TokenError::Uninitialized);
        },
    };
    if !(mint.address == accounts.mint) {
        return Err(TokenError::Uninitialized);
    }
    match check_authority(authority, &accounts.mint, &mint.authority) {
        Ok(_) => {},
        Err(error) => {
            return Err(error);
        },
    }
    match holding {
        Some(derived) => {
            if !(derived.address == accounts.destination) {
                return Err(TokenError::AddressMismatch);
            }
        },
        None => {
            return Err(TokenError::AddressMismatch);
        },
    }
    let found = ledger.find(&accounts.destination);
    match found {
        Some(i) => {
            if !(ledger.holdings[i].owner == accounts.payer.key) {
                return Err(TokenError::AddressMismatch);
            }
        },
        None => {},
    }
    if amount > u64::MAX - mint.supply {
        return Err(TokenError::ArithmeticOverflow);
    }
    let at: usize = match found {
        Some(i) => i,
        None => {
            let account = HoldingAccount {
                address: accounts.destination,
                owner: accounts.payer.key,
                mint: mint.address,
                balance: 0,
                delegate: None,
                allowance: 0,
            };
            proof {
                lemma_total_push(ledger.holdings@, account);
            }
            ledger.holdings.push(account);
            ledger.holdings.len() - 1
        },
    };
    let ghost opened = ledger@;
    proof {
        assert(opened == old(ledger)@.opened(accounts.destination, accounts.payer.key));
        assert(distinct_addresses(opened.holdings));
        opened.lemma_position(at as int);
        lemma_total_covers(opened.holdings, at as int);
    }
    let mut account = ledger.holdings[at];
    account.balance = account.balance + amount;
    proof {
        lemma_total_update(opened.holdings, at as int, account);
    }
    ledger.holdings.set(at, account);
    ledger.mint = Some(Mint { supply: mint.supply + amount, ..mint });
    Ok(())
}

/// Issues `amount` of the asset of `program` to the payer's account,
/// which is created where it is absent. The authority and the account's
/// address are derived anew on every call.
pub fn mint_tokens(
    ledger: &mut Ledger,
    program: &Address,
    accounts: &MintTokens,
    amount: u64,
) -> (r: Result<(), TokenError>)
    requires
        old(ledger)@.wf(),
    ensures
        final(ledger)@.wf(),
        (r, final(ledger)@) == mint_tokens_outcome(
            old(ledger)@,
            derived_authority(*program),
            derived_holding(accounts.payer.key, accounts.mint),
            *accounts,
            amount,
        ),
{
    let authority = derive_authority(program);
    let holding = derive_holding(&accounts.payer.key, &accounts.mint);
    mint_tokens_derived(ledger, authority, holding, accounts, amount)
}

/// Why `transfer` fails, if it does: the owner has not signed; the source
/// or the destination does not exist; the signer is not the owner that the
/// source records; the source holds less than `amount`.
pub open spec fn transfer_error(
    pre: LedgerView,
    accounts: TransferToken,
    amount: u64,
) -> Option<TokenError> {
    if !accounts.from.is_signer {
        Some(TokenError::InvalidSigner)
    } else if !pre.has(accounts.from_ata) || !pre.has(accounts.to_ata) {
        Some(TokenError::Uninitialized)
    } else if pre.holding(accounts.from_ata).owner != accounts.from.key {
        Some(TokenError::InvalidSigner)
    } else if pre.holding(accounts.from_ata).balance < amount {
        Some(TokenError::InsufficientBalance)
    } else {
        None
    }
}

/// The ledger after a successful `transfer`: `amount` has left the source
/// and then reached the destination. Where the two are one account, its
/// balance is what it was.
pub open spec fn transfer_effect(pre: LedgerView, accounts: TransferToken, amount: u64) -> LedgerView {
    pre.credited(accounts.from_ata, -(amount as int)).credited(accounts.to_ata, amount as int)
}

/// What `transfer` returns and leaves behind.
pub open spec fn transfer_outcome(pre: LedgerView, accounts: TransferToken, amount: u64) -> (
    Result<(), TokenError>,
    LedgerView,
) {
    outcome(pre, transfer_error(pre, accounts, amount), transfer_effect(pre, accounts, amount))
}

/// Moves `amount` from one account to another, on the word of the
/// source's owner.
pub fn transfer(ledger: &mut Ledger, accounts: &TransferToken, amount: u64) -> (r: Result<
    (),
    TokenError,
>)
    requires
        old(ledger)@.wf(),
    ensures
        final(ledger)@.wf(),
        (r, final(ledger)@) == transfer_outcome(old(ledger)@, *accounts, amount),
{
    if !accounts.from.is_signer {
        return Err(TokenError::InvalidSigner);
    }
    let source: usize = match ledger.find(&accounts.from_ata) {
        Some(i) => i,
        None => {
            return Err(TokenError::Uninitialized);
        },
    };
    let destination: usize = match ledger.find(&accounts.to_ata) {
        Some(i) => i,
        None => {
            return Err(TokenError::Uninitialized);
        },
    };
    let mut debited = ledger.holdings[source];
    if !(debited.owner == accounts.from.key) {
        return Err(TokenError::InvalidSigner);
    }
    if debited.balance < amount {
        return Err(TokenError::InsufficientBalance);
    }
    proof {
        if source != destination {
            lemma_total_covers_two(ledger.holdings@, source as int, destination as int);
        }
        lemma_total_update(
            ledger.holdings@,
            source as int,
            HoldingAccount { balance: (debited.balance - amount) as u64, ..debited },
        );
    }
    debited.balance = debited.balance - amount;
    ledger.holdings.set(source, debited);
    let ghost between = ledger@;
    proof {
        assert(between == old(ledger)@.credited(accounts.from_ata, -(amount as int)));
        assert(distinct_addresses(between.holdings));
        between.lemma_position(destination as int);
    }
    let mut credited = ledger.holdings[destination];
    proof {
        lemma_total_update(
            between.holdings,
            destination as int,
            HoldingAccount { balance: (credited.balance + amount) as u64, ..credited },
        );
    }
    credited.balance = credited.balance + amount;
    ledger.holdings.set(destination, credited);
    Ok(())
}

/// Why `approve` fails, if it does: the owner has not signed; the source
/// does not exist; the signer is not the owner that the source records.
pub open spec fn approve_error(pre: LedgerView, accounts: ApproveToken) -> Option<TokenError> {
    if !accounts.from.is_signer {
        Some(TokenError::InvalidSigner)
    } else if !pre.has(accounts.from_ata) {
        Some(TokenError::Uninitialized)
    } else if pre.holding(accounts.from_ata).owner != accounts.from.key {
        Some(TokenError::InvalidSigner)
    } else {
        None
    }
}

/// The ledger after a successful `approve`: the source names the delegate
/// and grants exactly `amount`, whatever it granted before.
pub open spec fn approve_effect(pre: LedgerView, accounts: ApproveToken, amount: u64) -> LedgerView {
    pre.with_holding(
        HoldingAccount {
            delegate: Some(accounts.delegate.key),
            allowance: amount,
            ..pre.holding(accounts.from_ata)
        },
    )
}

/// What `approve` returns and leaves behind.
pub open spec fn approve_outcome(pre: LedgerView, accounts: ApproveToken, amount: u64) -> (
    Result<(), TokenError>,
    LedgerView,
) {
    outcome(pre, approve_error(pre, accounts), approve_effect(pre, accounts, amount))
}

/// Lets `delegate` spend up to `amount` from the source, on the word of
/// the source's owner. An earlier allowance is replaced.
pub fn approve(ledger: &mut Ledger, accounts: &ApproveToken, amount: u64) -> (r: Result<
    (),
    TokenError,
>)
    requires
        old(ledger)@.wf(),
    ensures
        final(ledger)@.wf(),
        (r, final(ledger)@) == approve_outcome(old(ledger)@, *accounts, amount),
{
    if !accounts.from.is_signer {
        return Err(TokenError::InvalidSigner);
    }
    let source: usize = match ledger.find(&accounts.from_ata) {
        Some(i) => i,
        None => {
            return Err(TokenError::Uninitialized);
        },
    };
    let mut account = ledger.holdings[source];
    if !(account.owner == accounts.from.key) {
        return Err(TokenError::InvalidSigner);
    }
    account.delegate = Some(accounts.delegate.key);
    account.allowance = amount;
    proof {
        lemma_total_update(ledger.holdings@, source as int, account);
    }
    ledger.holdings.set(source, account);
    Ok(())
}

} // verus!
