use std::str::FromStr;

use anchor_lang::prelude::Pubkey;
use spl::accounts::{
    ApproveToken, InitToken, InitTokenParams, MintTokens, Signer, TransferToken, UncheckedAccount,
};
use spl::address::Address;
use spl::authority::{derive_authority, derive_holding};
use spl::error::TokenError;
use spl::instructions::{approve, initialize, mint_tokens, transfer};
use spl::ledger::Ledger;

fn program() -> Address {
    let key = Pubkey::from_str("2asoQGDxqfPXZSP5xSKd5ksT4v2rqy5BKNF2MwQhoRmt").unwrap();
    Address::new(key.to_bytes())
}

fn person(tag: u8) -> Address {
    let mut bytes = [0u8; 32];
    bytes[0] = tag;
    bytes[31] = 7;
    Address::new(bytes)
}

fn signed(key: Address) -> Signer {
    Signer { key, is_signer: true }
}

fn params() -> InitTokenParams {
    InitTokenParams {
        name: String::from("Token"),
        symbol: String::from("TKN"),
        uri: String::from("https://x"),
        decimals: 6,
    }
}

fn issued(payer: Address) -> (Ledger, Address) {
    let mint = derive_authority(&program()).unwrap().address;
    let mut ledger = Ledger::new();
    let accounts = InitToken {
        metadata: UncheckedAccount { key: person(200) },
        mint,
        payer: signed(payer),
    };
    assert_eq!(initialize(&mut ledger, &program(), &accounts, params()), Ok(()));
    (ledger, mint)
}

fn mint_to(ledger: &mut Ledger, mint: Address, payer: Address, amount: u64) -> Result<(), TokenError> {
    let destination = derive_holding(&payer, &mint).unwrap().address;
    let accounts = MintTokens { mint, destination, payer: signed(payer) };
    mint_tokens(ledger, &program(), &accounts, amount)
}

#[test]
fn issue_mint_and_transfer() {
    let p = person(1);
    let q = person(2);
    let (mut ledger, mint) = issued(p);
    assert_eq!(ledger.mint.unwrap().decimals, 6);
    assert_eq!(ledger.supply(), Some(0));

    assert_eq!(mint_to(&mut ledger, mint, p, 1_000_000), Ok(()));
    assert_eq!(mint_to(&mut ledger, mint, q, 0), Ok(()));
    let p_account = derive_holding(&p, &mint).unwrap().address;
    let q_account = derive_holding(&q, &mint).unwrap().address;
    let accounts = TransferToken { from_ata: p_account, to_ata: q_account, from: signed(p) };
    assert_eq!(transfer(&mut ledger, &accounts, 400_000), Ok(()));

    assert_eq!(ledger.balance_of(&p_account), Some(600_000));
    assert_eq!(ledger.balance_of(&q_account), Some(400_000));
    assert_eq!(ledger.supply(), Some(1_000_000));
}

#[test]
fn second_approve_replaces_the_first() {
    let p = person(1);
    let (mut ledger, mint) = issued(p);
    assert_eq!(mint_to(&mut ledger, mint, p, 50), Ok(()));
    let source = derive_holding(&p, &mint).unwrap().address;
    let first = ApproveToken {
        from_ata: source,
        delegate: UncheckedAccount { key: person(9) },
        from: signed(p),
    };
    assert_eq!(approve(&mut ledger, &first, 30), Ok(()));
    let held = ledger.holding(&source).unwrap();
    assert_eq!(held.allowance, 30);
    assert_eq!(held.delegate, Some(person(9)));

    let second = ApproveToken {
        from_ata: source,
        delegate: UncheckedAccount { key: person(10) },
        from: signed(p),
    };
    assert_eq!(approve(&mut ledger, &second, 45), Ok(()));
    let held = ledger.holding(&source).unwrap();
    assert_eq!(held.allowance, 45);
    assert_eq!(held.delegate, Some(person(10)));
    assert_eq!(held.balance, 50);
}
