//! Derived authorities: addresses that no private key stands behind,
//! computed from a program's address, a list of seeds and a bump.
//!
//! The mint's authority is the address derived from the single seed
//! `mint` under the program that issues the asset. A holder's account is
//! the address derived from the holder, the token program and the mint
//! under the associated-token program.

use vstd::prelude::*;
use crate::address::Address;
use crate::error::TokenError;
use anchor_lang::prelude::Pubkey;

verus! {

/// What deriving an address from `seeds` under `program` yields: the
/// address and its bump, or nothing where no bump gives a valid address.
pub uninterp spec fn found_address(seeds: Seq<Seq<u8>>, program: Seq<u8>) -> Option<(Seq<u8>, u8)>;

/// The address that `seeds`, the bump among them, make under `program`,
/// or nothing where they make no valid address.
pub uninterp spec fn created_address(seeds: Seq<Seq<u8>>, program: Seq<u8>) -> Option<Seq<u8>>;

/// Whether a list of seeds is too long for a derivation: it has more than
/// `most` seeds, or a seed of more than thirty-two bytes.
pub open spec fn oversized(seeds: Seq<Seq<u8>>, most: int) -> bool {
    seeds.len() > most || exists|i: int| 0 <= i < seeds.len() && seeds[i].len() > 32
}

/// A derived address together with the bump that makes it valid.
#[derive(Clone, Copy, Debug)]
pub struct Derivation {
    pub address: Address,
    pub bump: u8,
}

/// The bytes of each seed of a list.
pub open spec fn seed_bytes(seeds: Seq<Vec<u8>>) -> Seq<Seq<u8>> {
    Seq::new(seeds.len(), |i: int| seeds[i]@)
}

/// The derivation named by `found_address`, as a value of the library.
pub open spec fn derivation_of(found: Option<(Seq<u8>, u8)>) -> Option<Derivation> {
    match found {
        Some((bytes, bump)) => Some(Derivation { address: Address::of_bytes(bytes), bump }),
        None => None,
    }
}

/// Calls `Pubkey::try_find_program_address` of `anchor_lang` (which hands
/// on `solana_program`'s). The contract claims that the outcome is a
/// function of the seeds' bytes and the program's bytes: the address and
/// bump that the search returned, or `None` where it returned none. It
/// claims further that the search returns none for sixteen seeds or more,
/// or a seed of more than thirty-two bytes, and that an address it returns
/// is the one that `Pubkey::create_program_address` makes of the same
/// seeds followed by the bump.
#[verifier::external_body]
fn find_program_address(seeds: &Vec<Vec<u8>>, program: &Address) -> (r: Option<(Address, u8)>)
    ensures
        match r {
            Some((address, bump)) => found_address(seed_bytes(seeds@), program@) == Some(
                (address@, bump),
            ),
            None => found_address(seed_bytes(seeds@), program@) is None,
        },
        oversized(seed_bytes(seeds@), 15) ==> r is None,
        r matches Some((address, bump)) ==> created_address(
            seed_bytes(seeds@).push(seq![bump]),
            program@,
        ) == Some(address@),
{
    let parts: Vec<&[u8]> = seeds.iter().map(|s| s.as_slice()).collect();
    match Pubkey::try_find_program_address(&parts, &Pubkey::new_from_array(program.bytes)) {
        Some((key, bump)) => Some((Address { bytes: key.to_bytes() }, bump)),
        None => None,
    }
}

/// Calls `Pubkey::create_program_address` of `anchor_lang` (which hands on
/// `solana_program`'s), and keeps the address where it returned one. The
/// contract claims that the outcome is a function of the seeds' bytes and
/// the program's bytes, and that there is none for more than sixteen
/// seeds, or a seed of more than thirty-two bytes.
#[verifier::external_body]
fn create_program_address(seeds: &Vec<Vec<u8>>, program: &Address) -> (r: Option<Address>)
    ensures
        match r {
            Some(address) => created_address(seed_bytes(seeds@), program@) == Some(address@),
            None => created_address(seed_bytes(seeds@), program@) is None,
        },
        oversized(seed_bytes(seeds@), 16) ==> r is None,
{
    let parts: Vec<&[u8]> = seeds.iter().map(|s| s.as_slice()).collect();
    match Pubkey::create_program_address(&parts, &Pubkey::new_from_array(program.bytes)) {
        Ok(key) => Some(Address { bytes: key.to_bytes() }),
        Err(_) => None,
    }
}

/// Whether `seeds`, the bump among them, make `address` under `program`.
pub open spec fn makes(seeds: Seq<Seq<u8>>, program: Address, address: Address) -> bool {
    created_address(seeds, program@) == Some(address@)
}

/// Makes the address of `seeds`, the bump among them, anew and holds it
/// against `address`: whoever has the seeds and the bump can do so.
pub fn verify_address(seeds: &Vec<Vec<u8>>, program: &Address, address: &Address) -> (r: bool)
    ensures
        r == makes(seed_bytes(seeds@), *program, *address),
        oversized(seed_bytes(seeds@), 16) ==> !r,
{
    match create_program_address(seeds, program) {
        Some(made) => {
            proof {
                if made@ == address@ {
                    Address::lemma_view_injective(made, *address);
                }
            }
            made == *address
        },
        None => false,
    }
}

/// Derives the address that `seeds` address under `program`. No address
/// is found for sixteen seeds or more, or a seed of more than thirty-two
/// bytes; one that is found is the address that the seeds and the bump
/// make.
pub fn derive_address(seeds: &Vec<Vec<u8>>, program: &Address) -> (r: Option<Derivation>)
    ensures
        r == derivation_of(found_address(seed_bytes(seeds@), program@)),
        oversized(seed_bytes(seeds@), 15) ==> r is None,
        r matches Some(derived) ==> makes(
            seed_bytes(seeds@).push(seq![derived.bump]),
            *program,
            derived.address,
        ),
{
    match find_program_address(seeds, program) {
        Some((address, bump)) => {
            proof {
                Address::lemma_of_bytes(address);
            }
            Some(Derivation { address, bump })
        },
        None => None,
    }
}

/// The seed of the mint's authority: the four bytes of the word `mint`.
pub open spec fn mint_seeds() -> Seq<Seq<u8>> {
    seq![seq![109u8, 105u8, 110u8, 116u8]]
}

/// The address of the token program, which keeps mints and balances.
pub open spec fn token_program() -> Address {
    Address {
        bytes: [
            6u8, 221u8, 246u8, 225u8, 215u8, 101u8, 161u8, 147u8, 217u8, 203u8, 225u8, 70u8,
            206u8, 235u8, 121u8, 172u8, 28u8, 180u8, 133u8, 237u8, 95u8, 91u8, 55u8, 145u8,
            58u8, 140u8, 245u8, 133u8, 126u8, 255u8, 0u8, 169u8,
        ],
    }
}

/// The address of the associated-token program, under which holders'
/// accounts are addressed.
pub open spec fn associated_token_program() -> Address {
    Address {
        bytes: [
            140u8, 151u8, 37u8, 143u8, 78u8, 36u8, 137u8, 241u8, 187u8, 61u8, 16u8, 41u8,
            20u8, 142u8, 13u8, 131u8, 11u8, 90u8, 19u8, 153u8, 218u8, 255u8, 16u8, 132u8,
            4u8, 142u8, 123u8, 216u8, 219u8, 233u8, 248u8, 89u8,
        ],
    }
}

/// The seeds of the account in which `owner` holds the asset of `mint`.
pub open spec fn holding_seeds(owner: Address, mint: Address) -> Seq<Seq<u8>> {
    seq![owner@, token_program()@, mint@]
}

/// The authority of the mint that `program` issues: the address derived
/// from the seed `mint` under `program`, with its bump.
pub open spec fn derived_authority(program: Address) -> Option<Derivation> {
    derivation_of(found_address(mint_seeds(), program@))
}

/// The account in which `owner` holds the asset of `mint`: the address
/// derived from the two and the token program under the associated-token
/// program, with its bump.
pub open spec fn derived_holding(owner: Address, mint: Address) -> Option<Derivation> {
    derivation_of(found_address(holding_seeds(owner, mint), associated_token_program()@))
}

/// The address of the token program.
pub fn token_program_id() -> (a: Address)
    ensures
        a == token_program(),
{
    Address {
        bytes: [
            6u8, 221u8, 246u8, 225u8, 215u8, 101u8, 161u8, 147u8, 217u8, 203u8, 225u8, 70u8,
            206u8, 235u8, 121u8, 172u8, 28u8, 180u8, 133u8, 237u8, 95u8, 91u8, 55u8, 145u8,
            58u8, 140u8, 245u8, 133u8, 126u8, 255u8, 0u8, 169u8,
        ],
    }
}

/// The address of the associated-token program.
pub fn associated_token_program_id() -> (a: Address)
    ensures
        a == associated_token_program(),
{
    Address {
        bytes: [
            140u8, 151u8, 37u8, 143u8, 78u8, 36u8, 137u8, 241u8, 187u8, 61u8, 16u8, 41u8,
            20u8, 142u8, 13u8, 131u8, 11u8, 90u8, 19u8, 153u8, 218u8, 255u8, 16u8, 132u8,
            4u8, 142u8, 123u8, 216u8, 219u8, 233u8, 248u8, 89u8,
        ],
    }
}

/// The seed of the mint's authority.
pub fn mint_seed() -> (seed: Vec<u8>)
    ensures
        seq![seed@] == mint_seeds(),
{
    vec![109u8, 105u8, 110u8, 116u8]
}

/// Whether the seed `mint` and `bump` sign for `authority` under
/// `program`: the two make that address.
pub open spec fn signs_for(program: Address, bump: u8, authority: Address) -> bool {
    makes(mint_seeds().push(seq![bump]), program, authority)
}

/// Derives the authority of the mint that `program` issues. Nothing is
/// kept between calls: every call derives anew. The bump that comes with
/// the authority signs for it.
pub fn derive_authority(program: &Address) -> (r: Option<Derivation>)
    ensures
        r == derived_authority(*program),
        r matches Some(derived) ==> signs_for(*program, derived.bump, derived.address),
{
    let mut seeds: Vec<Vec<u8>> = Vec::new();
    seeds.push(mint_seed());
    proof {
        assert(seed_bytes(seeds@) =~= mint_seeds());
    }
    derive_address(&seeds, program)
}

/// Whether a derivation makes `presented` the mint of the program: the
/// derived address is the one presented, and the one recorded as the
/// mint's authority.
pub open spec fn authorizes(
    authority: Option<Derivation>,
    presented: Address,
    recorded: Address,
) -> bool {
    authority matches Some(derived) && derived.address == presented && derived.address
        == recorded
}

/// What `check_authority` returns: the derivation where it authorizes, an
/// authority mismatch where it does not.
pub open spec fn checked_authority(
    authority: Option<Derivation>,
    presented: Address,
    recorded: Address,
) -> Result<Derivation, TokenError> {
    if authorizes(authority, presented, recorded) {
        Ok(authority.unwrap())
    } else {
        Err(TokenError::AuthorityMismatch)
    }
}

/// Holds a derivation against the account presented as the mint and the
/// authority that the mint records. The derivation comes back only where
/// all three addresses are one.
pub fn check_authority(
    authority: Option<Derivation>,
    presented: &Address,
    recorded: &Address,
) -> (r: Result<Derivation, TokenError>)
    ensures
        r == checked_authority(authority, *presented, *recorded),
{
    match authority {
        Some(derived) => {
            if derived.address == *presented && derived.address == *recorded {
                Ok(derived)
            } else {
                Err(TokenError::AuthorityMismatch)
            }
        },
        None => Err(TokenError::AuthorityMismatch),
    }
}

/// Derives the authority of `program` and holds it against the account
/// presented as the mint and the authority that the mint records. The
/// derivation that comes back carries the bump with which the program
/// signs for the mint.
pub fn signing_authority(program: &Address, presented: &Address, recorded: &Address) -> (r: Result<
    Derivation,
    TokenError,
>)
    ensures
        r == checked_authority(derived_authority(*program), *presented, *recorded),
        r matches Ok(derived) ==> signs_for(*program, derived.bump, *recorded),
{
    check_authority(derive_authority(program), presented, recorded)
}

/// Derives the account in which `owner` holds the asset of `mint`.
pub fn derive_holding(owner: &Address, mint: &Address) -> (r: Option<Derivation>)
    ensures
        r == derived_holding(*owner, *mint),
{
    let mut seeds: Vec<Vec<u8>> = Vec::new();
    seeds.push(owner.to_vec());
    seeds.push(token_program_id().to_vec());
    seeds.push(mint.to_vec());
    proof {
        assert(seed_bytes(seeds@) =~= holding_seeds(*owner, *mint));
    }
    derive_address(&seeds, &associated_token_program_id())
}

/// Whether the seed `mint` and `bump` sign for `authority` under
/// `program`, as the token program asks before it acts for the authority.
pub fn accepts_signer(program: &Address, bump: u8, authority: &Address) -> (r: bool)
    ensures
        r == signs_for(*program, bump, *authority),
{
    let seeds = signer_seeds(bump);
    verify_address(&seeds, program, authority)
}

/// The seeds that sign for the mint's authority: the seed `mint`, then the
/// bump alone.
pub fn signer_seeds(bump: u8) -> (seeds: Vec<Vec<u8>>)
    ensures
        seed_bytes(seeds@) == mint_seeds().push(seq![bump]),
{
    let mut seeds: Vec<Vec<u8>> = Vec::new();
    let first = mint_seed();
    let second: Vec<u8> = vec![bump];
    proof {
        assert(seq![first@][0] == mint_seeds()[0]);
        assert(second@ =~= seq![bump]);
    }
    seeds.push(first);
    seeds.push(second);
    proof {
        assert(seed_bytes(seeds@) =~= mint_seeds().push(seq![bump]));
    }
    seeds
}

} // verus!
