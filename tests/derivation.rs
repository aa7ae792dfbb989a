use anchor_lang::prelude::Pubkey;
use receipt_money::address::Address;
use receipt_money::derivation::{program_address_with_bump, verify_program_address};
use receipt_money::metadata::metadata_rent_lamports;
use receipt_money::ledger::TokenMetadataArgs;
use receipt_money::state::{state_seed_list, ReceiptState, LEN, STATE_SEED};

fn addr(tag: u8) -> Address {
    Address::new([tag; 32])
}

#[test]
fn state_address_matches_program_derivation() {
    let program = addr(1);
    let mint = addr(2);
    let (a, bump) = ReceiptState::find_state_address(&program, &mint).unwrap();
    let (key, b) = Pubkey::find_program_address(
        &[STATE_SEED.as_bytes(), &mint.bytes],
        &Pubkey::new_from_array(program.bytes),
    );
    assert_eq!(a.bytes, key.to_bytes());
    assert_eq!(bump, b);
    assert!(!a.same(&mint));
}

#[test]
fn derivation_is_deterministic_and_keyed_by_asset() {
    let program = addr(1);
    let first = ReceiptState::find_state_address(&program, &addr(2)).unwrap();
    let second = ReceiptState::find_state_address(&program, &addr(2)).unwrap();
    let other = ReceiptState::find_state_address(&program, &addr(3)).unwrap();
    assert!(first.0.same(&second.0));
    assert_eq!(first.1, second.1);
    assert!(!first.0.same(&other.0));
}

#[test]
fn escrows_are_keyed_by_the_asset_they_hold() {
    let program = addr(1);
    let state = addr(5);
    let a = ReceiptState::find_mint_vault_authority(&program, &state, &addr(2)).unwrap();
    let b = ReceiptState::find_mint_vault_authority(&program, &state, &addr(3)).unwrap();
    assert!(!a.0.same(&b.0));
    let authority = ReceiptState::find_vault_authority(&program, &state).unwrap();
    let receipt = ReceiptState::find_receipt_mint(&program, &state).unwrap();
    assert!(!authority.0.same(&receipt.0));
    assert!(!authority.0.same(&a.0));
}

#[test]
fn stored_bump_re_derives_the_address() {
    let program = addr(1);
    let mint = addr(2);
    let (a, bump) = ReceiptState::find_state_address(&program, &mint).unwrap();
    assert!(verify_program_address(state_seed_list(&mint), bump, &program, &a));
    assert!(!verify_program_address(state_seed_list(&mint), bump, &program, &mint));
    let again = program_address_with_bump(state_seed_list(&mint), bump, &program).unwrap();
    assert!(again.same(&a));
}

#[test]
fn record_size() {
    assert_eq!(LEN, 173);
}

#[test]
fn metadata_rent_counts_utf8_bytes() {
    let args = TokenMetadataArgs {
        name: "Receipt".to_string(),
        symbol: "R".to_string(),
        uri: String::new(),
    };
    assert_eq!(metadata_rent_lamports(&args), Some((4 + 80 + 7 + 1) * 3480 * 2));
    let wide = TokenMetadataArgs {
        name: "\u{e9}".to_string(),
        symbol: String::new(),
        uri: String::new(),
    };
    assert_eq!(metadata_rent_lamports(&wide), Some((4 + 80 + 2) * 3480 * 2));
}
