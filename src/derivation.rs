//! Deterministic program addresses: an address and a one-byte canonicity
//! proof ("bump") computed from an ordered list of byte-string seeds under
//! the program's own identity.

use vstd::prelude::*;
use crate::address::Address;
use anchor_lang::prelude::Pubkey;

verus! {

/// The seeds as byte sequences.
pub open spec fn seeds_view(seeds: Seq<Vec<u8>>) -> Seq<Seq<u8>> {
    seeds.map_values(|s: Vec<u8>| s@)
}

/// The canonical program address of `seeds` under `program`, with its bump,
/// where one exists.
pub uninterp spec fn found_program_address(seeds: Seq<Seq<u8>>, program: Seq<u8>) -> Option<(Seq<u8>, u8)>;

/// The program address that `seeds`, its bump included, give under `program`,
/// where they give one.
pub uninterp spec fn created_program_address(seeds: Seq<Seq<u8>>, program: Seq<u8>) -> Option<Seq<u8>>;

pub open spec fn found_view(r: Option<(Address, u8)>) -> Option<(Seq<u8>, u8)> {
    match r {
        Some((a, b)) => Some((a@, b)),
        None => None,
    }
}

pub open spec fn address_view(r: Option<Address>) -> Option<Seq<u8>> {
    match r {
        Some(a) => Some(a@),
        None => None,
    }
}

/// Relies on `Pubkey::try_find_program_address`: a function of the seeds and
/// the program id alone, which tries the bumps from 255 down and returns the
/// first one for which `Pubkey::create_program_address` gives an address.
#[verifier::external_body]
pub(crate) fn try_find_program_address(seeds: &Vec<Vec<u8>>, program_id: &Address) -> (r: Option<(Address, u8)>)
    ensures
        found_view(r) == found_program_address(seeds_view(seeds@), program_id@),
        r matches Some((a, b)) ==> created_program_address(
            seeds_view(seeds@).push(seq![b]),
            program_id@,
        ) == Some(a@),
{
    let slices: Vec<&[u8]> = seeds.iter().map(|s| s.as_slice()).collect();
    Pubkey::try_find_program_address(&slices, &Pubkey::new_from_array(program_id.bytes))
        .map(|(key, bump)| (Address { bytes: key.to_bytes() }, bump))
}

/// Relies on `Pubkey::create_program_address`: a function of the seeds and the
/// program id alone; an error is mapped to `None`.
#[verifier::external_body]
pub(crate) fn create_program_address(seeds: &Vec<Vec<u8>>, program_id: &Address) -> (r: Option<Address>)
    ensures
        address_view(r) == created_program_address(seeds_view(seeds@), program_id@),
{
    let slices: Vec<&[u8]> = seeds.iter().map(|s| s.as_slice()).collect();
    Pubkey::create_program_address(&slices, &Pubkey::new_from_array(program_id.bytes))
        .ok()
        .map(|key| Address { bytes: key.to_bytes() })
}

/// The address that `seeds` give with `bump` appended: how a stored bump is
/// turned back into the address (and signing proof) it stands for.
pub fn program_address_with_bump(seeds: Vec<Vec<u8>>, bump: u8, program_id: &Address) -> (r: Option<Address>)
    ensures
        address_view(r) == created_program_address(seeds_view(seeds@).push(seq![bump]), program_id@),
{
    let mut with_bump = seeds;
    let b = vec![bump];
    assert(b@ =~= seq![bump]);
    with_bump.push(b);
    assert(seeds_view(with_bump@) =~= seeds_view(seeds@).push(seq![bump]));
    create_program_address(&with_bump, program_id)
}

/// Checks that `bump` is the canonicity proof of `expected` for `seeds`:
/// the seeds with the bump appended re-derive exactly `expected`.
pub fn verify_program_address(seeds: Vec<Vec<u8>>, bump: u8, program_id: &Address, expected: &Address) -> (r: bool)
    ensures
        r == (created_program_address(seeds_view(seeds@).push(seq![bump]), program_id@) == Some(expected@)),
{
    match program_address_with_bump(seeds, bump, program_id) {
        Some(a) => a.same(expected),
        None => false,
    }
}

} // verus!
