use std::str::FromStr;

use anchor_lang::prelude::Pubkey;
use spl::address::Address;
use spl::authority::{
    accepts_signer, associated_token_program_id, check_authority, derive_address,
    derive_authority, derive_holding, mint_seed, signer_seeds, signing_authority,
    token_program_id, verify_address, Derivation,
};
use spl::error::TokenError;

fn program_key() -> Pubkey {
    Pubkey::from_str("2asoQGDxqfPXZSP5xSKd5ksT4v2rqy5BKNF2MwQhoRmt").unwrap()
}

fn address_of(key: &Pubkey) -> Address {
    Address::new(key.to_bytes())
}

#[test]
fn authority_is_the_address_found_for_the_mint_seed() {
    let (expected, bump) = Pubkey::find_program_address(&[b"mint"], &program_key());
    let derived = derive_authority(&address_of(&program_key())).unwrap();
    assert_eq!(derived.address, address_of(&expected));
    assert_eq!(derived.bump, bump);
    assert_ne!(derived.address, address_of(&program_key()));
}

#[test]
fn authority_is_derived_the_same_every_time() {
    let program = address_of(&program_key());
    let first = derive_authority(&program).unwrap();
    let second = derive_authority(&program).unwrap();
    assert_eq!(first.address, second.address);
    assert_eq!(first.bump, second.bump);
}

#[test]
fn authority_differs_between_programs() {
    let other = Address::new([3u8; 32]);
    let here = derive_authority(&address_of(&program_key())).unwrap();
    let there = derive_authority(&other).unwrap();
    assert_ne!(here.address, there.address);
}

#[test]
fn authority_has_no_private_key() {
    let derived = derive_authority(&address_of(&program_key())).unwrap();
    assert!(!Pubkey::new_from_array(derived.address.bytes).is_on_curve());
}

#[test]
fn signer_seeds_recreate_the_authority() {
    let derived = derive_authority(&address_of(&program_key())).unwrap();
    let seeds = signer_seeds(derived.bump);
    assert_eq!(seeds, vec![b"mint".to_vec(), vec![derived.bump]]);
    let parts: Vec<&[u8]> = seeds.iter().map(|s| s.as_slice()).collect();
    let created = Pubkey::create_program_address(&parts, &program_key()).unwrap();
    assert_eq!(address_of(&created), derived.address);
}

#[test]
fn mint_seed_is_the_word_mint() {
    assert_eq!(mint_seed(), b"mint".to_vec());
}

#[test]
fn well_known_programs_are_those_of_the_token_crates() {
    assert_eq!(token_program_id(), address_of(&anchor_spl::token::ID));
    assert_eq!(associated_token_program_id(), address_of(&anchor_spl::associated_token::ID));
}

#[test]
fn holding_is_the_associated_token_address() {
    let owner = Pubkey::new_from_array([11u8; 32]);
    let mint = Pubkey::find_program_address(&[b"mint"], &program_key()).0;
    let expected = anchor_spl::associated_token::get_associated_token_address(&owner, &mint);
    let derived = derive_holding(&address_of(&owner), &address_of(&mint)).unwrap();
    assert_eq!(derived.address, address_of(&expected));
}

#[test]
fn holdings_differ_between_owners() {
    let mint = derive_authority(&address_of(&program_key())).unwrap().address;
    let one = derive_holding(&Address::new([1u8; 32]), &mint).unwrap();
    let two = derive_holding(&Address::new([2u8; 32]), &mint).unwrap();
    assert_ne!(one.address, two.address);
}

#[test]
fn derive_takes_any_seeds() {
    let program = address_of(&program_key());
    let seeds = vec![b"vault".to_vec(), vec![1u8, 2, 3]];
    let (expected, bump) = Pubkey::find_program_address(&[b"vault", &[1u8, 2, 3]], &program_key());
    let derived = derive_address(&seeds, &program).unwrap();
    assert_eq!(derived.address, address_of(&expected));
    assert_eq!(derived.bump, bump);
}

#[test]
fn derive_finds_nothing_for_a_seed_that_is_too_long() {
    let program = address_of(&program_key());
    let seeds = vec![vec![0u8; 33]];
    assert!(derive_address(&seeds, &program).is_none());
}

#[test]
fn addresses_compare_by_their_bytes() {
    let mut bytes = [5u8; 32];
    let a = Address::new(bytes);
    assert_eq!(a, Address::new([5u8; 32]));
    assert_eq!(a.to_vec(), vec![5u8; 32]);
    bytes[31] = 6;
    assert_ne!(a, Address::new(bytes));
}

#[test]
fn check_authority_wants_one_address_three_times() {
    let a = Address::new([1u8; 32]);
    let b = Address::new([2u8; 32]);
    let derived = Some(Derivation { address: a, bump: 254 });
    let checked = check_authority(derived, &a, &a).unwrap();
    assert_eq!(checked.address, a);
    assert_eq!(checked.bump, 254);
    assert_eq!(check_authority(derived, &b, &a).unwrap_err(), TokenError::AuthorityMismatch);
    assert_eq!(check_authority(derived, &a, &b).unwrap_err(), TokenError::AuthorityMismatch);
    assert_eq!(check_authority(derived, &b, &b).unwrap_err(), TokenError::AuthorityMismatch);
    assert_eq!(check_authority(None, &a, &a).unwrap_err(), TokenError::AuthorityMismatch);
}

#[test]
fn signing_authority_carries_the_bump_of_the_program() {
    let program = address_of(&program_key());
    let (expected, bump) = Pubkey::find_program_address(&[b"mint"], &program_key());
    let mint = address_of(&expected);
    let derived = signing_authority(&program, &mint, &mint).unwrap();
    assert_eq!(derived.address, mint);
    assert_eq!(derived.bump, bump);

    let other = Address::new([3u8; 32]);
    assert_eq!(signing_authority(&other, &mint, &mint).unwrap_err(), TokenError::AuthorityMismatch);
    assert_eq!(signing_authority(&program, &other, &mint).unwrap_err(), TokenError::AuthorityMismatch);
    assert_eq!(signing_authority(&program, &mint, &other).unwrap_err(), TokenError::AuthorityMismatch);
}

#[test]
fn derived_bump_signs_for_the_authority() {
    let program = address_of(&program_key());
    let derived = derive_authority(&program).unwrap();
    assert!(accepts_signer(&program, derived.bump, &derived.address));
    assert!(!accepts_signer(&program, derived.bump, &program));
    assert!(!accepts_signer(&program, derived.bump.wrapping_sub(1), &derived.address));
    assert!(!accepts_signer(&Address::new([3u8; 32]), derived.bump, &derived.address));
}

#[test]
fn verify_address_makes_the_address_anew() {
    let program = address_of(&program_key());
    let seeds = vec![b"vault".to_vec(), vec![9u8]];
    let derived = derive_address(&seeds, &program).unwrap();
    let mut with_bump = seeds.clone();
    with_bump.push(vec![derived.bump]);
    assert!(verify_address(&with_bump, &program, &derived.address));
    assert!(!verify_address(&seeds, &program, &derived.address));
    assert!(!verify_address(&with_bump, &program, &program));
}

#[test]
fn verify_address_refuses_seeds_that_are_too_long() {
    let program = address_of(&program_key());
    let anything = Address::new([0u8; 32]);
    assert!(!verify_address(&vec![vec![0u8; 33]], &program, &anything));
    assert!(!verify_address(&vec![vec![1u8]; 17], &program, &anything));
}

#[test]
fn derive_finds_nothing_for_sixteen_seeds() {
    let program = address_of(&program_key());
    assert!(derive_address(&vec![vec![1u8]; 16], &program).is_none());
    assert!(derive_address(&vec![vec![1u8]; 15], &program).is_some());
    assert!(derive_address(&vec![vec![7u8; 32]], &program).is_some());
}
