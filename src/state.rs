//! The registry record that binds one underlying asset to its escrow, its
//! receipt asset and the derived authority, and the seeds of every address
//! derived for it.

use vstd::prelude::*;
use vstd::string::StringSliceAdditionalSpecFns;
use crate::address::Address;
use crate::derivation::{created_program_address, found_program_address, found_view, try_find_program_address, seeds_view};

verus! {

/// Label of the registry record's address.
pub const STATE_SEED: &'static str = "receipt_state";
/// Label of the shared authority that owns the escrows and mints receipts.
pub const VAULT_AUTHORITY_SEED: &'static str = "receipt_vault_authority";
/// Label of the receipt asset's address.
pub const MINT_SEED: &'static str = "receipt_mint";
/// Label of an escrow account's address.
pub const MINT_VAULT_SEED: &'static str = "receipt_mint_vault";

/// Stored size of a registry record: an 8-byte discriminator, five addresses
/// and five bumps.
pub const LEN: usize = 8 + 32 * 5 + 5;

pub open spec fn state_seeds(token_mint: Seq<u8>) -> Seq<Seq<u8>> {
    seq![STATE_SEED.spec_bytes(), token_mint]
}

pub open spec fn vault_authority_seeds(receipt_state: Seq<u8>) -> Seq<Seq<u8>> {
    seq![VAULT_AUTHORITY_SEED.spec_bytes(), receipt_state]
}

pub open spec fn receipt_mint_seeds(receipt_state: Seq<u8>) -> Seq<Seq<u8>> {
    seq![MINT_SEED.spec_bytes(), receipt_state]
}

/// An escrow is keyed by the record and by the asset that it holds.
pub open spec fn mint_vault_seeds(receipt_state: Seq<u8>, mint: Seq<u8>) -> Seq<Seq<u8>> {
    seq![MINT_VAULT_SEED.spec_bytes(), receipt_state, mint]
}

/// The registry record of one underlying asset.
#[derive(Clone, Copy, Debug)]
pub struct ReceiptState {
    /// The account that requested setup (informational).
    pub authority: Address,
    /// The underlying asset.
    pub token_mint: Address,
    /// The escrow that holds the underlying asset.
    pub token_mint_vault: Address,
    /// The receipt asset.
    pub crypto_receipt_mint: Address,
    /// The escrow reserved for the receipt asset.
    pub crypto_receipt_vault: Address,
    /// Bump of the record's own address.
    pub bump: u8,
    /// Bump of the shared authority.
    pub vault_authority_bump: u8,
    /// Bump of the underlying escrow.
    pub token_mint_vault_bump: u8,
    /// Bump of the receipt asset.
    pub receipt_mint_bump: u8,
    /// Bump of the receipt escrow.
    pub receipt_mint_vault_bump: u8,
}

fn label(s: &str) -> (r: Vec<u8>)
    ensures
        r@ == s.spec_bytes(),
{
    vstd::slice::slice_to_vec(s.as_bytes())
}

pub fn state_seed_list(token_mint: &Address) -> (r: Vec<Vec<u8>>)
    ensures
        seeds_view(r@) == state_seeds(token_mint@),
{
    let r = vec![label(STATE_SEED), token_mint.to_vec()];
    assert(seeds_view(r@) =~= state_seeds(token_mint@));
    r
}

pub fn vault_authority_seed_list(receipt_state: &Address) -> (r: Vec<Vec<u8>>)
    ensures
        seeds_view(r@) == vault_authority_seeds(receipt_state@),
{
    let r = vec![label(VAULT_AUTHORITY_SEED), receipt_state.to_vec()];
    assert(seeds_view(r@) =~= vault_authority_seeds(receipt_state@));
    r
}

pub fn receipt_mint_seed_list(receipt_state: &Address) -> (r: Vec<Vec<u8>>)
    ensures
        seeds_view(r@) == receipt_mint_seeds(receipt_state@),
{
    let r = vec![label(MINT_SEED), receipt_state.to_vec()];
    assert(seeds_view(r@) =~= receipt_mint_seeds(receipt_state@));
    r
}

pub fn mint_vault_seed_list(receipt_state: &Address, mint: &Address) -> (r: Vec<Vec<u8>>)
    ensures
        seeds_view(r@) == mint_vault_seeds(receipt_state@, mint@),
{
    let r = vec![label(MINT_VAULT_SEED), receipt_state.to_vec(), mint.to_vec()];
    assert(seeds_view(r@) =~= mint_vault_seeds(receipt_state@, mint@));
    r
}

impl ReceiptState {
    /// The address of the registry record of `token_mint`, with its bump.
    pub fn find_state_address(program_id: &Address, token_mint: &Address) -> (r: Option<(Address, u8)>)
        ensures
            found_view(r) == found_program_address(state_seeds(token_mint@), program_id@),
            r matches Some((a, b)) ==> created_program_address(state_seeds(token_mint@).push(seq![b]), program_id@) == Some(a@),
    {
        try_find_program_address(&state_seed_list(token_mint), program_id)
    }

    /// The shared authority of the record at `receipt_state`, with its bump.
    pub fn find_vault_authority(program_id: &Address, receipt_state: &Address) -> (r: Option<(Address, u8)>)
        ensures
            found_view(r) == found_program_address(vault_authority_seeds(receipt_state@), program_id@),
            r matches Some((a, b)) ==> created_program_address(vault_authority_seeds(receipt_state@).push(seq![b]), program_id@) == Some(a@),
    {
        try_find_program_address(&vault_authority_seed_list(receipt_state), program_id)
    }

    /// The receipt asset of the record at `receipt_state`, with its bump.
    pub fn find_receipt_mint(program_id: &Address, receipt_state: &Address) -> (r: Option<(Address, u8)>)
        ensures
            found_view(r) == found_program_address(receipt_mint_seeds(receipt_state@), program_id@),
            r matches Some((a, b)) ==> created_program_address(receipt_mint_seeds(receipt_state@).push(seq![b]), program_id@) == Some(a@),
    {
        try_find_program_address(&receipt_mint_seed_list(receipt_state), program_id)
    }

    /// The escrow of the record at `receipt_state` that holds `token_mint`,
    /// with its bump.
    pub fn find_mint_vault_authority(program_id: &Address, receipt_state: &Address, token_mint: &Address) -> (r: Option<(Address, u8)>)
        ensures
            found_view(r) == found_program_address(mint_vault_seeds(receipt_state@, token_mint@), program_id@),
            r matches Some((a, b)) ==> created_program_address(mint_vault_seeds(receipt_state@, token_mint@).push(seq![b]), program_id@) == Some(a@),
    {
        try_find_program_address(&mint_vault_seed_list(receipt_state, token_mint), program_id)
    }
}

} // verus!
